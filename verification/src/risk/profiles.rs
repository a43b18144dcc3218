//! Ready-made risk profiles.
use super::kernel::{
    GlobalRiskKernel, GlobalRiskKernelConfig, PortfolioRiskConfig, SleeveId, SleeveRiskConfig,
};
use crate::fixed::Fixed;
use vstd::prelude::*;

verus! {

/// A sleeve configuration from its parts; the fractions are given in millionths.
pub open spec fn sleeve_profile(
    sleeve_id: SleeveId,
    capital_alloc_usd: Fixed,
    max_single_pos_risk_micros: i64,
    halt_dd_micros: i64,
    kill_dd_micros: i64,
    max_concurrent_positions: u32,
) -> SleeveRiskConfig {
    SleeveRiskConfig {
        sleeve_id,
        capital_alloc_usd,
        max_single_pos_risk_frac: Fixed::from_micros(max_single_pos_risk_micros),
        halt_dd_frac: Fixed::from_micros(halt_dd_micros),
        kill_dd_frac: Fixed::from_micros(kill_dd_micros),
        max_concurrent_positions,
    }
}

fn mk_sleeve(
    sleeve_id: SleeveId,
    capital_alloc_usd: Fixed,
    max_single_pos_risk_micros: i64,
    halt_dd_micros: i64,
    kill_dd_micros: i64,
    max_concurrent_positions: u32,
) -> (cfg: SleeveRiskConfig)
    ensures
        cfg == sleeve_profile(
            sleeve_id,
            capital_alloc_usd,
            max_single_pos_risk_micros,
            halt_dd_micros,
            kill_dd_micros,
            max_concurrent_positions,
        ),
{
    SleeveRiskConfig {
        sleeve_id,
        capital_alloc_usd,
        max_single_pos_risk_frac: Fixed::from_micros(max_single_pos_risk_micros),
        halt_dd_frac: Fixed::from_micros(halt_dd_micros),
        kill_dd_frac: Fixed::from_micros(kill_dd_micros),
        max_concurrent_positions,
    }
}

/// Whether every configuration in `sleeves` has ordered drawdown limits.
pub open spec fn all_wf(sleeves: Seq<SleeveRiskConfig>) -> bool {
    forall|i: int| 0 <= i < sleeves.len() ==> (#[trigger] sleeves[i]).wf()
}

/// Capital of all sleeves together, in millionths of a dollar.
pub open spec fn total_capital(sleeves: Seq<SleeveRiskConfig>) -> int
    decreases sleeves.len(),
{
    if sleeves.len() == 0 {
        0
    } else {
        total_capital(sleeves.drop_last()) + sleeves.last().capital_alloc_usd.raw
    }
}

/// The portfolio limits for an account of ten thousand dollars: halt at -8 %, kill at
/// -12 %, leverage up to 1.5, at most fifteen open positions.
pub open spec fn portfolio_10k() -> PortfolioRiskConfig {
    PortfolioRiskConfig {
        initial_equity_usd: Fixed::from_micros(10_000_000_000),
        halt_dd_frac: Fixed::from_micros(-80_000i64),
        kill_dd_frac: Fixed::from_micros(-120_000i64),
        max_leverage: Fixed::from_micros(1_500_000),
        rebalance_drift_frac: Fixed::from_micros(150_000),
        max_global_positions: 15,
    }
}

/// The portfolio limits for an account of ten thousand dollars.
pub fn default_portfolio_config_10k() -> (cfg: PortfolioRiskConfig)
    ensures
        cfg == portfolio_10k(),
        cfg.wf(),
{
    PortfolioRiskConfig {
        initial_equity_usd: Fixed::from_micros(10_000_000_000),
        halt_dd_frac: Fixed::from_micros(-80_000i64),
        kill_dd_frac: Fixed::from_micros(-120_000i64),
        max_leverage: Fixed::from_micros(1_500_000),
        rebalance_drift_frac: Fixed::from_micros(150_000),
        max_global_positions: 15,
    }
}

/// The portfolio limits of the starter profile: halt at -10 %, kill at -20 %,
/// leverage up to 1.5, at most twenty open positions.
pub open spec fn starter_portfolio() -> PortfolioRiskConfig {
    PortfolioRiskConfig {
        initial_equity_usd: Fixed::from_micros(10_000_000_000),
        halt_dd_frac: Fixed::from_micros(-100_000i64),
        kill_dd_frac: Fixed::from_micros(-200_000i64),
        max_leverage: Fixed::from_micros(1_500_000),
        rebalance_drift_frac: Fixed::from_micros(150_000),
        max_global_positions: 20,
    }
}

/// The sleeves of the starter profile; half of the capital goes to the futures sleeve.
pub open spec fn starter_sleeves() -> Seq<SleeveRiskConfig> {
    seq![
        sleeve_profile(
            SleeveId::EquityLongShort,
            Fixed::from_micros(1_500_000_000),
            10_000,
            -120_000i64,
            -180_000i64,
            10,
        ),
        sleeve_profile(
            SleeveId::StatArbResidual,
            Fixed::from_micros(1_500_000_000),
            8_000,
            -120_000i64,
            -180_000i64,
            20,
        ),
        sleeve_profile(
            SleeveId::MicrostructureIntraday,
            Fixed::from_micros(1_000_000_000),
            5_000,
            -80_000i64,
            -150_000i64,
            30,
        ),
        sleeve_profile(
            SleeveId::OptionsVolPremium,
            Fixed::from_micros(1_000_000_000),
            20_000,
            -120_000i64,
            -200_000i64,
            6,
        ),
        sleeve_profile(
            SleeveId::MicroFuturesMacroTrend,
            Fixed::from_micros(5_000_000_000),
            50_000,
            -150_000i64,
            -250_000i64,
            4,
        ),
    ]
}

/// The starter profile for an account of ten thousand dollars. Its drawdown limits
/// are ordered and its sleeves share out the whole initial equity.
pub fn default_global_risk_kernel_config_usd_10k() -> (cfg: GlobalRiskKernelConfig)
    ensures
        cfg.portfolio == starter_portfolio(),
        cfg.sleeves@ == starter_sleeves(),
        cfg.portfolio.wf(),
        all_wf(cfg.sleeves@),
{
    let mut sleeves: Vec<SleeveRiskConfig> = Vec::new();
    sleeves.push(
        mk_sleeve(
            SleeveId::EquityLongShort,
            Fixed::from_micros(1_500_000_000),
            10_000,
            -120_000i64,
            -180_000i64,
            10,
        ),
    );
    sleeves.push(
        mk_sleeve(
            SleeveId::StatArbResidual,
            Fixed::from_micros(1_500_000_000),
            8_000,
            -120_000i64,
            -180_000i64,
            20,
        ),
    );
    sleeves.push(
        mk_sleeve(
            SleeveId::MicrostructureIntraday,
            Fixed::from_micros(1_000_000_000),
            5_000,
            -80_000i64,
            -150_000i64,
            30,
        ),
    );
    sleeves.push(
        mk_sleeve(
            SleeveId::OptionsVolPremium,
            Fixed::from_micros(1_000_000_000),
            20_000,
            -120_000i64,
            -200_000i64,
            6,
        ),
    );
    sleeves.push(
        mk_sleeve(
            SleeveId::MicroFuturesMacroTrend,
            Fixed::from_micros(5_000_000_000),
            50_000,
            -150_000i64,
            -250_000i64,
            4,
        ),
    );
    assert(sleeves@ =~= starter_sleeves());
    GlobalRiskKernelConfig {
        portfolio: PortfolioRiskConfig {
            initial_equity_usd: Fixed::from_micros(10_000_000_000),
            halt_dd_frac: Fixed::from_micros(-100_000i64),
            kill_dd_frac: Fixed::from_micros(-200_000i64),
            max_leverage: Fixed::from_micros(1_500_000),
            rebalance_drift_frac: Fixed::from_micros(150_000),
            max_global_positions: 20,
        },
        sleeves,
    }
}

/// A kernel on the starter profile.
pub fn default_kernel_10k() -> (k: GlobalRiskKernel)
    ensures
        k.config.portfolio == starter_portfolio(),
        k.config.sleeves@ == starter_sleeves(),
        k.internal_portfolio_peak_equity == starter_portfolio().initial_equity_usd,
{
    GlobalRiskKernel::new(default_global_risk_kernel_config_usd_10k())
}

/// The share of ten thousand dollars that `share_micros` millionths are.
pub open spec fn share_of_10k(share_micros: i64) -> Fixed {
    Fixed::from_micros(share_micros).sat_mul(Fixed::from_int(10_000))
}

/// Sleeve configurations for an account of ten thousand dollars, by share of the
/// account: 20 %, 25 %, 15 %, 20 % and 20 %.
pub open spec fn sleeves_10k() -> Seq<SleeveRiskConfig> {
    seq![
        sleeve_profile(
            SleeveId::EquityLongShort,
            share_of_10k(200_000),
            20_000,
            -100_000i64,
            -150_000i64,
            10,
        ),
        sleeve_profile(
            SleeveId::StatArbResidual,
            share_of_10k(250_000),
            15_000,
            -100_000i64,
            -180_000i64,
            20,
        ),
        sleeve_profile(
            SleeveId::MicrostructureIntraday,
            share_of_10k(150_000),
            10_000,
            -80_000i64,
            -120_000i64,
            10,
        ),
        sleeve_profile(
            SleeveId::OptionsVolPremium,
            share_of_10k(200_000),
            30_000,
            -100_000i64,
            -150_000i64,
            6,
        ),
        sleeve_profile(
            SleeveId::MicroFuturesMacroTrend,
            share_of_10k(200_000),
            45_000,
            -100_000i64,
            -150_000i64,
            3,
        ),
    ]
}

/// Sleeve configurations for an account of ten thousand dollars.
pub fn default_sleeve_configs_10k() -> (sleeves: Vec<SleeveRiskConfig>)
    ensures
        sleeves@ == sleeves_10k(),
        all_wf(sleeves@),
{
    let total_equity = Fixed::from_int(10_000);
    let alloc_equity_ls = Fixed::from_micros(200_000).sat_mul(total_equity);
    let alloc_stat_arb = Fixed::from_micros(250_000).sat_mul(total_equity);
    let alloc_micro_intraday = Fixed::from_micros(150_000).sat_mul(total_equity);
    let alloc_options_vol = Fixed::from_micros(200_000).sat_mul(total_equity);
    let alloc_micro_trend = Fixed::from_micros(200_000).sat_mul(total_equity);
    let mut sleeves: Vec<SleeveRiskConfig> = Vec::new();
    sleeves.push(
        mk_sleeve(SleeveId::EquityLongShort, alloc_equity_ls, 20_000, -100_000i64, -150_000i64, 10),
    );
    sleeves.push(
        mk_sleeve(SleeveId::StatArbResidual, alloc_stat_arb, 15_000, -100_000i64, -180_000i64, 20),
    );
    sleeves.push(
        mk_sleeve(
            SleeveId::MicrostructureIntraday,
            alloc_micro_intraday,
            10_000,
            -80_000i64,
            -120_000i64,
            10,
        ),
    );
    sleeves.push(
        mk_sleeve(
            SleeveId::OptionsVolPremium,
            alloc_options_vol,
            30_000,
            -100_000i64,
            -150_000i64,
            6,
        ),
    );
    sleeves.push(
        mk_sleeve(
            SleeveId::MicroFuturesMacroTrend,
            alloc_micro_trend,
            45_000,
            -100_000i64,
            -150_000i64,
            3,
        ),
    );
    assert(sleeves@ =~= sleeves_10k());
    sleeves
}

/// The portfolio limits of the aggressive profile: halt at -12 %, kill at -25 %,
/// leverage up to 2, at most thirty open positions.
pub open spec fn aggressive_portfolio() -> PortfolioRiskConfig {
    PortfolioRiskConfig {
        initial_equity_usd: Fixed::from_micros(25_000_000_000),
        halt_dd_frac: Fixed::from_micros(-120_000i64),
        kill_dd_frac: Fixed::from_micros(-250_000i64),
        max_leverage: Fixed::from_micros(2_000_000),
        rebalance_drift_frac: Fixed::from_micros(200_000),
        max_global_positions: 30,
    }
}

/// The sleeves of the aggressive profile.
pub open spec fn aggressive_sleeves() -> Seq<SleeveRiskConfig> {
    seq![
        sleeve_profile(
            SleeveId::EquityLongShort,
            Fixed::from_micros(5_000_000_000),
            15_000,
            -150_000i64,
            -250_000i64,
            15,
        ),
        sleeve_profile(
            SleeveId::StatArbResidual,
            Fixed::from_micros(6_250_000_000),
            10_000,
            -150_000i64,
            -250_000i64,
            30,
        ),
        sleeve_profile(
            SleeveId::MicrostructureIntraday,
            Fixed::from_micros(3_750_000_000),
            7_000,
            -100_000i64,
            -200_000i64,
            40,
        ),
        sleeve_profile(
            SleeveId::OptionsVolPremium,
            Fixed::from_micros(5_000_000_000),
            30_000,
            -150_000i64,
            -250_000i64,
            8,
        ),
        sleeve_profile(
            SleeveId::MicroFuturesMacroTrend,
            Fixed::from_micros(5_000_000_000),
            50_000,
            -150_000i64,
            -250_000i64,
            4,
        ),
    ]
}

/// The aggressive profile for an account of twenty-five thousand dollars.
pub fn aggressive_25k_global_risk_kernel_config() -> (cfg: GlobalRiskKernelConfig)
    ensures
        cfg.portfolio == aggressive_portfolio(),
        cfg.sleeves@ == aggressive_sleeves(),
        cfg.portfolio.wf(),
        all_wf(cfg.sleeves@),
{
    let mut sleeves: Vec<SleeveRiskConfig> = Vec::new();
    sleeves.push(
        mk_sleeve(
            SleeveId::EquityLongShort,
            Fixed::from_micros(5_000_000_000),
            15_000,
            -150_000i64,
            -250_000i64,
            15,
        ),
    );
    sleeves.push(
        mk_sleeve(
            SleeveId::StatArbResidual,
            Fixed::from_micros(6_250_000_000),
            10_000,
            -150_000i64,
            -250_000i64,
            30,
        ),
    );
    sleeves.push(
        mk_sleeve(
            SleeveId::MicrostructureIntraday,
            Fixed::from_micros(3_750_000_000),
            7_000,
            -100_000i64,
            -200_000i64,
            40,
        ),
    );
    sleeves.push(
        mk_sleeve(
            SleeveId::OptionsVolPremium,
            Fixed::from_micros(5_000_000_000),
            30_000,
            -150_000i64,
            -250_000i64,
            8,
        ),
    );
    sleeves.push(
        mk_sleeve(
            SleeveId::MicroFuturesMacroTrend,
            Fixed::from_micros(5_000_000_000),
            50_000,
            -150_000i64,
            -250_000i64,
            4,
        ),
    );
    assert(sleeves@ =~= aggressive_sleeves());
    GlobalRiskKernelConfig {
        portfolio: PortfolioRiskConfig {
            initial_equity_usd: Fixed::from_micros(25_000_000_000),
            halt_dd_frac: Fixed::from_micros(-120_000i64),
            kill_dd_frac: Fixed::from_micros(-250_000i64),
            max_leverage: Fixed::from_micros(2_000_000),
            rebalance_drift_frac: Fixed::from_micros(200_000),
            max_global_positions: 30,
        },
        sleeves,
    }
}

/// A kernel on the aggressive profile.
pub fn aggressive_kernel_25k() -> (k: GlobalRiskKernel)
    ensures
        k.config.portfolio == aggressive_portfolio(),
        k.config.sleeves@ == aggressive_sleeves(),
        k.internal_portfolio_peak_equity == aggressive_portfolio().initial_equity_usd,
{
    GlobalRiskKernel::new(aggressive_25k_global_risk_kernel_config())
}

/// The ready-made profiles.
#[derive(Debug, Clone, Copy, PartialEq, Eq, Structural)]
pub enum RiskProfile {
    Starter10k,
    Aggressive25k,
}

impl RiskProfile {
    /// The name of the profile.
    pub open spec fn text(self) -> Seq<char> {
        match self {
            RiskProfile::Starter10k => "starter_10k"@,
            RiskProfile::Aggressive25k => "aggressive_25k"@,
        }
    }

    /// The profile of a name; every name but that of the aggressive profile stands
    /// for the starter profile.
    pub open spec fn named(name: Seq<char>) -> RiskProfile {
        if name == "aggressive_25k"@ {
            RiskProfile::Aggressive25k
        } else {
            RiskProfile::Starter10k
        }
    }

    /// The name of the profile.
    pub fn as_str(&self) -> (name: &'static str)
        ensures
            name@ == self.text(),
    {
        match self {
            RiskProfile::Starter10k => "starter_10k",
            RiskProfile::Aggressive25k => "aggressive_25k",
        }
    }

    /// The profile of a name.
    pub fn from_name(name: &str) -> (profile: RiskProfile)
        ensures
            profile == Self::named(name@),
    {
        if str_equal(name, "aggressive_25k") {
            RiskProfile::Aggressive25k
        } else {
            RiskProfile::Starter10k
        }
    }
}

/// Whether two texts are the same.
pub fn str_equal(a: &str, b: &str) -> (r: bool)
    ensures
        r == (a@ == b@),
{
    let x = String::from_str(a);
    let y = String::from_str(b);
    x == y
}

/// A kernel on `profile`, and the configuration it runs on.
pub fn build_kernel(profile: RiskProfile) -> (r: (GlobalRiskKernel, GlobalRiskKernelConfig))
    ensures
        r.0.config.portfolio == r.1.portfolio,
        r.0.config.sleeves@ == r.1.sleeves@,
        r.0.internal_portfolio_peak_equity == r.1.portfolio.initial_equity_usd,
        profile == RiskProfile::Starter10k ==> r.1.portfolio == starter_portfolio()
            && r.1.sleeves@ == starter_sleeves(),
        profile == RiskProfile::Aggressive25k ==> r.1.portfolio == aggressive_portfolio()
            && r.1.sleeves@ == aggressive_sleeves(),
{
    match profile {
        RiskProfile::Starter10k => (
            default_kernel_10k(),
            default_global_risk_kernel_config_usd_10k(),
        ),
        RiskProfile::Aggressive25k => (
            aggressive_kernel_25k(),
            aggressive_25k_global_risk_kernel_config(),
        ),
    }
}

/// The sleeves of the starter profile and of the aggressive profile each share out
/// the whole initial equity of their portfolio.
pub proof fn lemma_profiles_allocate_all_capital()
    ensures
        total_capital(starter_sleeves()) == starter_portfolio().initial_equity_usd.raw,
        total_capital(aggressive_sleeves()) == aggressive_portfolio().initial_equity_usd.raw,
{
    lemma_total_capital_of_five(starter_sleeves());
    lemma_total_capital_of_five(aggressive_sleeves());
}

proof fn lemma_total_capital_of_five(sleeves: Seq<SleeveRiskConfig>)
    requires
        sleeves.len() == 5,
    ensures
        total_capital(sleeves) == sleeves[0].capital_alloc_usd.raw
            + sleeves[1].capital_alloc_usd.raw + sleeves[2].capital_alloc_usd.raw
            + sleeves[3].capital_alloc_usd.raw + sleeves[4].capital_alloc_usd.raw,
{
    let s4 = sleeves.drop_last();
    let s3 = s4.drop_last();
    let s2 = s3.drop_last();
    let s1 = s2.drop_last();
    let s0 = s1.drop_last();
    assert(s0.len() == 0);
    assert(total_capital(s0) == 0);
    assert(total_capital(s1) == total_capital(s0) + s1.last().capital_alloc_usd.raw);
    assert(total_capital(s2) == total_capital(s1) + s2.last().capital_alloc_usd.raw);
    assert(total_capital(s3) == total_capital(s2) + s3.last().capital_alloc_usd.raw);
    assert(total_capital(s4) == total_capital(s3) + s4.last().capital_alloc_usd.raw);
}

} // verus!
