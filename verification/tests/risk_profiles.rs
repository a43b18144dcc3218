use engine::fixed::Fixed;
use engine::risk::profiles::{build_kernel, str_equal};
use engine::risk::{
    aggressive_25k_global_risk_kernel_config, aggressive_kernel_25k,
    default_global_risk_kernel_config_usd_10k, default_kernel_10k, default_portfolio_config_10k,
    default_sleeve_configs_10k, GlobalRiskKernel, GlobalRiskKernelConfig, PortfolioRiskConfig,
    RiskProfile, SleeveId, SleeveRiskConfig,
};

fn fx(x: f64) -> Fixed {
    Fixed::from_micros((x * 1_000_000.0).round() as i64)
}

#[test]
fn profile_10k_capital_alloc_equals_initial_equity() {
    let cfg: GlobalRiskKernelConfig = default_global_risk_kernel_config_usd_10k();
    let total_sleeve_capital: i64 =
        cfg.sleeves.iter().map(|s: &SleeveRiskConfig| s.capital_alloc_usd.raw).sum();
    let initial = cfg.portfolio.initial_equity_usd;
    assert_eq!(
        total_sleeve_capital, initial.raw,
        "Sum of sleeve capital ({}) must equal portfolio.initial_equity_usd ({}).",
        total_sleeve_capital, initial.raw
    );
    assert_eq!(initial, fx(10_000.0));
}

#[test]
fn profile_10k_drawdown_limits_are_consistent() {
    let cfg: GlobalRiskKernelConfig = default_global_risk_kernel_config_usd_10k();
    let pcfg: &PortfolioRiskConfig = &cfg.portfolio;
    assert!(pcfg.kill_dd_frac.raw < pcfg.halt_dd_frac.raw);
    assert!(pcfg.halt_dd_frac.raw < 0, "Expected halt_dd_frac to be negative");
    assert!(pcfg.kill_dd_frac.raw < 0, "Expected kill_dd_frac to be negative");
    assert!(pcfg.is_wf());
    for s in &cfg.sleeves {
        assert!(s.kill_dd_frac.raw < s.halt_dd_frac.raw, "Sleeve {:?}", s.sleeve_id);
        assert!(s.halt_dd_frac.raw < 0, "Sleeve {:?}: expected halt_dd_frac < 0", s.sleeve_id);
        assert!(s.kill_dd_frac.raw < 0, "Sleeve {:?}: expected kill_dd_frac < 0", s.sleeve_id);
        assert!(s.is_wf());
    }
}

#[test]
fn profile_10k_position_risk_fractions_and_concurrency_are_sane() {
    let cfg: GlobalRiskKernelConfig = default_global_risk_kernel_config_usd_10k();
    for s in &cfg.sleeves {
        assert!(s.max_single_pos_risk_frac.raw > 0, "Sleeve {:?}", s.sleeve_id);
        assert!(
            s.max_single_pos_risk_frac.raw <= fx(0.05).raw,
            "Sleeve {:?}: max_single_pos_risk_frac too large, > 5%",
            s.sleeve_id
        );
        assert!(s.max_concurrent_positions > 0, "Sleeve {:?}", s.sleeve_id);
    }
    assert!(cfg.portfolio.max_leverage.raw >= fx(1.0).raw);
}

#[test]
fn default_kernel_10k_initial_state_matches_profile() {
    let kernel: GlobalRiskKernel = default_kernel_10k();
    let cfg: &GlobalRiskKernelConfig = &kernel.config;
    let initial = cfg.portfolio.initial_equity_usd;
    assert_eq!(kernel.internal_portfolio_peak_equity, initial);
}

#[test]
fn profile_10k_contains_micro_futures_sleeve() {
    let cfg: GlobalRiskKernelConfig = default_global_risk_kernel_config_usd_10k();
    let has_micro = cfg.sleeves.iter().any(|s| s.sleeve_id == SleeveId::MicroFuturesMacroTrend);
    assert!(has_micro, "Expected default 10k profile to contain SleeveId::MicroFuturesMacroTrend");
}

#[test]
fn profile_25k_capital_alloc_equals_initial_equity() {
    let cfg = aggressive_25k_global_risk_kernel_config();
    let total_alloc: i64 = cfg.sleeves.iter().map(|s| s.capital_alloc_usd.raw).sum();
    assert_eq!(total_alloc, cfg.portfolio.initial_equity_usd.raw);
}

#[test]
fn profile_25k_drawdown_limits_are_consistent() {
    let cfg = aggressive_25k_global_risk_kernel_config();
    assert!(
        cfg.portfolio.halt_dd_frac.raw > cfg.portfolio.kill_dd_frac.raw,
        "Portfolio halt_dd_frac must be > kill_dd_frac"
    );
    for s in &cfg.sleeves {
        assert!(s.halt_dd_frac.raw > s.kill_dd_frac.raw, "Sleeve {:?}", s.sleeve_id);
    }
}

#[test]
fn profile_25k_position_risk_fractions_and_concurrency_are_sane() {
    let cfg = aggressive_25k_global_risk_kernel_config();
    for s in &cfg.sleeves {
        // the futures sleeve of this profile takes 5 % for one position
        assert!(
            s.max_single_pos_risk_frac.raw > 0 && s.max_single_pos_risk_frac.raw <= fx(0.05).raw,
            "Sleeve {:?}: max_single_pos_risk_frac out of sane range: {}",
            s.sleeve_id,
            s.max_single_pos_risk_frac.raw
        );
        assert!(
            s.max_concurrent_positions > 0,
            "Sleeve {:?}: max_concurrent_positions must be > 0, got {}",
            s.sleeve_id,
            s.max_concurrent_positions
        );
    }
    let largest = cfg.sleeves.iter().map(|s| s.max_single_pos_risk_frac.raw).max();
    assert_eq!(largest, Some(fx(0.05).raw));
}

#[test]
fn aggressive_kernel_25k_initial_state_matches_profile() {
    let cfg = aggressive_25k_global_risk_kernel_config();
    let kernel = aggressive_kernel_25k();
    assert_eq!(
        cfg.portfolio.initial_equity_usd,
        fx(25_000.0),
        "Expected 25k initial equity in aggressive profile"
    );
    assert_eq!(kernel.internal_portfolio_peak_equity, fx(25_000.0));
    assert_eq!(kernel.config.sleeves, cfg.sleeves);
}

#[test]
fn sleeve_configs_10k_are_shares_of_the_account() {
    let sleeves = default_sleeve_configs_10k();
    let capital: Vec<Fixed> = sleeves.iter().map(|s| s.capital_alloc_usd).collect();
    assert_eq!(capital, vec![fx(2_000.0), fx(2_500.0), fx(1_500.0), fx(2_000.0), fx(2_000.0)]);
    let micro = sleeves.iter().find(|s| s.sleeve_id == SleeveId::MicroFuturesMacroTrend).unwrap();
    assert_eq!(micro.max_single_pos_risk_frac, fx(0.045));
    assert_eq!(micro.halt_dd_frac, fx(-0.10));
    assert_eq!(micro.kill_dd_frac, fx(-0.15));
    assert_eq!(micro.max_concurrent_positions, 3);
    assert!(sleeves.iter().all(|s| s.is_wf()));
    let portfolio = default_portfolio_config_10k();
    assert_eq!(portfolio.halt_dd_frac, fx(-0.08));
    assert_eq!(portfolio.kill_dd_frac, fx(-0.12));
    assert_eq!(portfolio.max_global_positions, 15);
    assert!(portfolio.is_wf());
}

#[test]
fn profiles_are_named_and_built() {
    assert_eq!(RiskProfile::Starter10k.as_str(), "starter_10k");
    assert_eq!(RiskProfile::Aggressive25k.as_str(), "aggressive_25k");
    assert_eq!(RiskProfile::from_name("aggressive_25k"), RiskProfile::Aggressive25k);
    assert_eq!(RiskProfile::from_name("starter_10k"), RiskProfile::Starter10k);
    assert_eq!(RiskProfile::from_name("anything else"), RiskProfile::Starter10k);
    assert_eq!(RiskProfile::from_name(""), RiskProfile::Starter10k);
    assert!(str_equal("a", "a") && !str_equal("a", "b") && !str_equal("a", "ab"));
    let (kernel, cfg) = build_kernel(RiskProfile::Aggressive25k);
    assert_eq!(cfg.portfolio.max_global_positions, 30);
    assert_eq!(kernel.internal_portfolio_peak_equity, fx(25_000.0));
    let (kernel, cfg) = build_kernel(RiskProfile::Starter10k);
    assert_eq!(cfg.portfolio.max_global_positions, 20);
    assert_eq!(kernel.config.portfolio, cfg.portfolio);
}
