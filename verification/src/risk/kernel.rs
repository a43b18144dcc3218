//! The global risk kernel.
//!
//! Once per heartbeat [`GlobalRiskKernel::evaluate`] reads the portfolio, margin and
//! volatility snapshots and the state of every sleeve, raises the high-water marks,
//! and hands back one [`SleeveRiskEnvelope`] per sleeve: the halt states, the largest
//! notional a single position may have, the concurrency ceiling and the remaining
//! exposure and margin capacity.
use crate::fixed::Fixed;
use vstd::prelude::*;

verus! {

/// The capital sleeves of the portfolio.
#[derive(Debug, Clone, Copy, PartialEq, Eq, Structural)]
pub enum SleeveId {
    EquityLongShort,
    StatArbResidual,
    MicrostructureIntraday,
    OptionsVolPremium,
    MicroFuturesMacroTrend,
}

/// Risk classification of the portfolio, for observers.
#[derive(Debug, Clone, Copy, PartialEq, Eq, Structural)]
pub enum PortfolioRiskState {
    Normal,
    Caution,
    Stress,
}

/// How far trading is restricted.
#[derive(Debug, Clone, Copy, PartialEq, Eq, Structural)]
pub enum HaltState {
    /// Trading is not restricted.
    Clear,
    /// No new trades; open positions may run off.
    Halt,
    /// No new trades and everything is to be liquidated.
    Kill,
}

impl HaltState {
    /// Whether new risk is forbidden.
    pub open spec fn spec_is_active(self) -> bool {
        self != HaltState::Clear
    }

    /// Whether new risk is forbidden.
    #[verifier::when_used_as_spec(spec_is_active)]
    pub fn is_active(self) -> (r: bool)
        ensures
            r == self.spec_is_active(),
    {
        match self {
            HaltState::Clear => false,
            HaltState::Halt => true,
            HaltState::Kill => true,
        }
    }
}

/// Hard limits of one sleeve.
#[derive(Debug, Clone, Copy, PartialEq, Eq, Structural)]
pub struct SleeveRiskConfig {
    pub sleeve_id: SleeveId,
    pub capital_alloc_usd: Fixed,
    /// Largest share of the sleeve's capital that one position may take.
    pub max_single_pos_risk_frac: Fixed,
    pub halt_dd_frac: Fixed,
    pub kill_dd_frac: Fixed,
    pub max_concurrent_positions: u32,
}

impl SleeveRiskConfig {
    /// The drawdown limits are ordered: `kill < halt < 0`.
    pub open spec fn wf(self) -> bool {
        self.kill_dd_frac.raw < self.halt_dd_frac.raw < 0
    }

    /// Whether the drawdown limits are ordered: `kill < halt < 0`.
    pub fn is_wf(&self) -> (r: bool)
        ensures
            r == self.wf(),
    {
        self.kill_dd_frac.raw < self.halt_dd_frac.raw && self.halt_dd_frac.raw < 0
    }
}

/// Hard limits of the whole portfolio.
#[derive(Debug, Clone, Copy, PartialEq, Eq, Structural)]
pub struct PortfolioRiskConfig {
    pub initial_equity_usd: Fixed,
    pub halt_dd_frac: Fixed,
    pub kill_dd_frac: Fixed,
    pub max_leverage: Fixed,
    pub rebalance_drift_frac: Fixed,
    pub max_global_positions: u32,
}

impl PortfolioRiskConfig {
    /// The drawdown limits are ordered: `kill < halt < 0`.
    pub open spec fn wf(self) -> bool {
        self.kill_dd_frac.raw < self.halt_dd_frac.raw < 0
    }

    /// Whether the drawdown limits are ordered: `kill < halt < 0`.
    pub fn is_wf(&self) -> (r: bool)
        ensures
            r == self.wf(),
    {
        self.kill_dd_frac.raw < self.halt_dd_frac.raw && self.halt_dd_frac.raw < 0
    }
}

/// Live state of one sleeve.
#[derive(Debug, Clone, Copy, PartialEq, Eq, Structural)]
pub struct SleeveState {
    pub sleeve_id: SleeveId,
    pub equity_usd: Fixed,
    pub realized_pnl_usd: Fixed,
    pub unrealized_pnl_usd: Fixed,
    /// High-water mark of `equity_usd`.
    pub peak_equity_usd: Fixed,
    pub open_positions: u32,
}

/// Live state of the portfolio.
#[derive(Debug, Clone, Copy, PartialEq, Eq, Structural)]
pub struct PortfolioState {
    pub cash_usd: Fixed,
    pub open_pnl_usd: Fixed,
    pub accrued_interest_usd: Fixed,
    /// Kept for callers; the kernel tracks its own high-water mark.
    pub peak_equity_usd: Fixed,
    pub total_notional_exposure: Fixed,
    pub current_leverage: Fixed,
}

/// Margin requirements as modelled and as the broker reports them.
#[derive(Debug, Clone, Copy, PartialEq, Eq, Structural)]
pub struct MarginState {
    pub internal_margin_req_usd: Fixed,
    pub broker_margin_req_usd: Fixed,
    pub equity_usd: Fixed,
}

/// Volatility figures of the market.
#[derive(Debug, Clone, Copy, PartialEq, Eq, Structural)]
pub struct VolatilityRegime {
    pub rv10_annualized: Fixed,
    pub vix_level: Fixed,
    pub vix_term_slope: Fixed,
    /// Supplied from outside and carried for consumers; the kernel derives its own scalar.
    pub regime_scalar: Fixed,
}

/// What the kernel allows one sleeve for the current tick.
#[derive(Debug, Clone, Copy, PartialEq, Eq, Structural)]
pub struct SleeveRiskEnvelope {
    pub sleeve_id: SleeveId,
    pub sleeve_halt: HaltState,
    pub portfolio_halt: HaltState,
    pub max_position_size_usd: Fixed,
    pub max_concurrent_positions: u32,
    pub exposure_remaining_usd: Fixed,
    pub margin_remaining_usd: Fixed,
    pub volatility_regime_scalar: Fixed,
    pub leverage_scalar: Fixed,
    pub portfolio_risk_state: PortfolioRiskState,
}

/// Why a new position is allowed or refused.
#[derive(Debug, Clone, Copy, PartialEq, Eq, Structural)]
pub enum RiskDecisionReason {
    Allowed,
    PortfolioHalt,
    SleeveHalt,
    NoMarginHeadroom,
    NoExposureHeadroom,
    ConcurrencyLimit,
    PositionSizeZero,
}

/// The answer to the question whether a sleeve may open one more position.
#[derive(Debug, Clone, Copy, PartialEq, Eq, Structural)]
pub struct RiskDecision {
    pub allow_new_position: bool,
    pub max_new_positions: u32,
    pub max_order_notional_usd: Fixed,
    pub reason: RiskDecisionReason,
}

/// Limits of the portfolio and of each sleeve.
pub struct GlobalRiskKernelConfig {
    pub portfolio: PortfolioRiskConfig,
    pub sleeves: Vec<SleeveRiskConfig>,
}

/// The kernel: its configuration and the high-water mark it keeps between ticks.
pub struct GlobalRiskKernel {
    pub config: GlobalRiskKernelConfig,
    /// High-water mark of the portfolio's equity.
    pub internal_portfolio_peak_equity: Fixed,
}

// ---------------------------------------------------------------------------
// What the kernel computes, as mathematics.
// ---------------------------------------------------------------------------

/// Equity of the portfolio: cash plus open profit plus accrued interest.
pub open spec fn equity_now(p: PortfolioState) -> Fixed {
    p.cash_usd.sat_add(p.open_pnl_usd).sat_add(p.accrued_interest_usd)
}

/// A high-water mark after it has seen `equity`.
pub open spec fn raised_peak(peak: Fixed, equity: Fixed) -> Fixed {
    if equity.raw > peak.raw {
        equity
    } else {
        peak
    }
}

/// Drawdown fraction `equity / peak - 1`, and zero while no positive peak exists.
pub open spec fn drawdown(equity: Fixed, peak: Fixed) -> Fixed {
    if peak.raw > 0 {
        equity.sat_div(peak).sat_sub(Fixed::one())
    } else {
        Fixed::zero()
    }
}

/// Halt state of a drawdown under the two limits; the kill limit is tested first.
pub open spec fn halt_state_for(dd: Fixed, halt_frac: Fixed, kill_frac: Fixed) -> HaltState {
    if dd.raw <= kill_frac.raw {
        HaltState::Kill
    } else if dd.raw <= halt_frac.raw {
        HaltState::Halt
    } else {
        HaltState::Clear
    }
}

/// The classification that mirrors a halt state for observers.
pub open spec fn risk_state_for(halt: HaltState) -> PortfolioRiskState {
    match halt {
        HaltState::Kill => PortfolioRiskState::Stress,
        HaltState::Halt => PortfolioRiskState::Caution,
        HaltState::Clear => PortfolioRiskState::Normal,
    }
}

/// Exposure that may still be added: `max(0, max_leverage * equity - exposure)`.
pub open spec fn exposure_headroom(pcfg: PortfolioRiskConfig, p: PortfolioState) -> Fixed {
    pcfg.max_leverage.sat_mul(equity_now(p)).sat_sub(p.total_notional_exposure).max(
        Fixed::zero(),
    )
}

/// Equity left above the larger of the two margin requirements, never below zero.
pub open spec fn margin_headroom(p: PortfolioState, m: MarginState) -> Fixed {
    equity_now(p).sat_sub(m.internal_margin_req_usd.max(m.broker_margin_req_usd)).max(
        Fixed::zero(),
    )
}

/// Least value of the volatility scalar.
pub open spec fn vol_scalar_floor() -> Fixed {
    Fixed::from_micros(500_000)
}

/// Greatest value of the volatility scalar.
pub open spec fn vol_scalar_ceiling() -> Fixed {
    Fixed::from_micros(1_300_000)
}

/// Sizing scalar of the volatility regime: 0.55 under stress, 0.80 when elevated,
/// 1.25 in calm markets and 1.00 otherwise.
pub open spec fn volatility_scalar(vol: VolatilityRegime) -> Fixed {
    let rv = vol.rv10_annualized.raw;
    let vix = vol.vix_level.raw;
    let slope = vol.vix_term_slope.raw;
    if vix >= 35_000_000 || rv >= 30_000_000 || slope < 0 {
        Fixed::from_micros(550_000).clamp(vol_scalar_floor(), vol_scalar_ceiling())
    } else if vix >= 25_000_000 || rv >= 20_000_000 {
        Fixed::from_micros(800_000).clamp(vol_scalar_floor(), vol_scalar_ceiling())
    } else if vix < 15_000_000 && rv < 12_000_000 && slope > 500_000 {
        Fixed::from_micros(1_250_000).clamp(vol_scalar_floor(), vol_scalar_ceiling())
    } else {
        Fixed::one()
    }
}

/// Leverage in use relative to the leverage allowed, where the allowance counts as
/// at least 0.1 and the leverage in use as at least zero.
pub open spec fn relative_leverage(p: PortfolioState, pcfg: PortfolioRiskConfig) -> Fixed {
    p.current_leverage.max(Fixed::zero()).sat_div(
        pcfg.max_leverage.max(Fixed::from_micros(100_000)),
    )
}

/// The piecewise profile of the leverage scalar before its final clamp.
pub open spec fn leverage_profile(x: Fixed) -> Fixed {
    if x.raw <= 300_000 {
        Fixed::from_micros(1_100_000).sat_sub(Fixed::from_micros(250_000).sat_mul(x))
    } else if x.raw <= 700_000 {
        Fixed::from_micros(1_030_000).sat_sub(
            Fixed::from_micros(200_000).sat_mul(x.sat_sub(Fixed::from_micros(300_000))),
        )
    } else {
        Fixed::from_micros(950_000).sat_sub(
            Fixed::from_micros(2_170_000).sat_mul(x.sat_sub(Fixed::from_micros(700_000))),
        )
    }
}

/// Sizing scalar of the leverage in use: zero at or above the allowed leverage, else
/// the profile clamped to `[0, 1.10]`.
pub open spec fn leverage_scalar(p: PortfolioState, pcfg: PortfolioRiskConfig) -> Fixed {
    let x = relative_leverage(p, pcfg);
    if x.raw >= 1_000_000 {
        Fixed::zero()
    } else {
        leverage_profile(x).clamp(Fixed::zero(), Fixed::from_micros(1_100_000))
    }
}

/// Open positions of all sleeves together.
pub open spec fn total_open_positions(sleeves: Seq<SleeveState>) -> nat
    decreases sleeves.len(),
{
    if sleeves.len() == 0 {
        0
    } else {
        total_open_positions(sleeves.drop_last()) + sleeves.last().open_positions as nat
    }
}

/// Position slots that the portfolio has left.
pub open spec fn remaining_slots(max_global: u32, total_open: nat) -> u32 {
    if total_open >= max_global {
        0
    } else {
        (max_global - total_open) as u32
    }
}

/// Share of the remaining slots that each sleeve may add to what it has open.
pub open spec fn extra_per_sleeve(remaining: u32, sleeve_count: nat) -> u32 {
    if remaining > 0 && sleeve_count > 0 {
        (remaining as nat / sleeve_count) as u32
    } else {
        0
    }
}

/// Concurrency ceiling of one sleeve for this tick.
pub open spec fn dynamic_ceiling(configured_max: u32, open: u32, remaining: u32, extra: u32)
    -> u32 {
    if remaining == 0 {
        open
    } else if open + extra < configured_max {
        (open + extra) as u32
    } else {
        configured_max
    }
}

/// Largest notional of a single position: the sleeve's base size scaled by both
/// scalars and capped by the exposure headroom; zero without headroom or under a halt.
pub open spec fn position_size(
    scfg: SleeveRiskConfig,
    vol_scalar: Fixed,
    lev_scalar: Fixed,
    exposure_remaining: Fixed,
    margin_remaining: Fixed,
    portfolio_halt: HaltState,
    sleeve_halt: HaltState,
) -> Fixed {
    if portfolio_halt.is_active() || sleeve_halt.is_active() {
        Fixed::zero()
    } else if margin_remaining.raw <= 0 || exposure_remaining.raw <= 0 {
        Fixed::zero()
    } else {
        scfg.capital_alloc_usd.sat_mul(scfg.max_single_pos_risk_frac).sat_mul(vol_scalar).sat_mul(
            lev_scalar,
        ).min(exposure_remaining)
    }
}

/// The first configuration at or after `start` that carries `id`.
pub open spec fn find_config_from(configs: Seq<SleeveRiskConfig>, id: SleeveId, start: int)
    -> Option<SleeveRiskConfig>
    decreases configs.len() - start,
{
    if start < 0 || start >= configs.len() {
        None
    } else if configs[start].sleeve_id == id {
        Some(configs[start])
    } else {
        find_config_from(configs, id, start + 1)
    }
}

/// The first configuration that carries `id`.
pub open spec fn find_config(configs: Seq<SleeveRiskConfig>, id: SleeveId) -> Option<
    SleeveRiskConfig,
> {
    find_config_from(configs, id, 0)
}

/// A sleeve's state after a tick: only its high-water mark may have moved.
pub open spec fn sleeve_after(s: SleeveState) -> SleeveState {
    SleeveState { peak_equity_usd: raised_peak(s.peak_equity_usd, s.equity_usd), ..s }
}

/// The portfolio-wide part of a tick's result.
pub struct TickSummary {
    pub portfolio_halt: HaltState,
    pub exposure_remaining: Fixed,
    pub margin_remaining: Fixed,
    pub vol_scalar: Fixed,
    pub lev_scalar: Fixed,
    pub remaining_slots: u32,
    pub extra_per_sleeve: u32,
}

/// The portfolio-wide figures of a tick, given the high-water mark after the tick.
pub open spec fn tick_summary(
    pcfg: PortfolioRiskConfig,
    peak_after: Fixed,
    p: PortfolioState,
    sleeves: Seq<SleeveState>,
    m: MarginState,
    vol: VolatilityRegime,
) -> TickSummary {
    let remaining = remaining_slots(pcfg.max_global_positions, total_open_positions(sleeves));
    TickSummary {
        portfolio_halt: halt_state_for(
            drawdown(equity_now(p), peak_after),
            pcfg.halt_dd_frac,
            pcfg.kill_dd_frac,
        ),
        exposure_remaining: exposure_headroom(pcfg, p),
        margin_remaining: margin_headroom(p, m),
        vol_scalar: volatility_scalar(vol),
        lev_scalar: leverage_scalar(p, pcfg),
        remaining_slots: remaining,
        extra_per_sleeve: extra_per_sleeve(remaining, sleeves.len()),
    }
}

/// The envelope of one sleeve under a tick's portfolio-wide figures.
pub open spec fn envelope_for(t: TickSummary, scfg: SleeveRiskConfig, s: SleeveState)
    -> SleeveRiskEnvelope {
    let sleeve_halt = halt_state_for(
        drawdown(s.equity_usd, raised_peak(s.peak_equity_usd, s.equity_usd)),
        scfg.halt_dd_frac,
        scfg.kill_dd_frac,
    );
    SleeveRiskEnvelope {
        sleeve_id: s.sleeve_id,
        sleeve_halt,
        portfolio_halt: t.portfolio_halt,
        max_position_size_usd: position_size(
            scfg,
            t.vol_scalar,
            t.lev_scalar,
            t.exposure_remaining,
            t.margin_remaining,
            t.portfolio_halt,
            sleeve_halt,
        ),
        max_concurrent_positions: dynamic_ceiling(
            scfg.max_concurrent_positions,
            s.open_positions,
            t.remaining_slots,
            t.extra_per_sleeve,
        ),
        exposure_remaining_usd: t.exposure_remaining,
        margin_remaining_usd: t.margin_remaining,
        volatility_regime_scalar: t.vol_scalar,
        leverage_scalar: t.lev_scalar,
        portfolio_risk_state: risk_state_for(t.portfolio_halt),
    }
}

/// Whether a cash movement from `equity_before` to `equity_after` resets the
/// high-water mark: always from a non-positive equity, else when the movement is at
/// least a fifth of the equity before it.
pub open spec fn cashflow_resets_peak(equity_before: Fixed, equity_after: Fixed) -> bool {
    equity_before.raw <= 0 || equity_after.sat_sub(equity_before).sat_abs().sat_div(
        equity_before,
    ).raw >= 200_000
}

/// The decision on one more position for a sleeve under its envelope. The checks are
/// made in a fixed order and the first that fails names the reason.
pub open spec fn new_position_decision(s: SleeveState, env: SleeveRiskEnvelope) -> RiskDecision {
    if env.portfolio_halt.is_active() {
        rejection(RiskDecisionReason::PortfolioHalt)
    } else if env.sleeve_halt.is_active() {
        rejection(RiskDecisionReason::SleeveHalt)
    } else if env.margin_remaining_usd.raw <= 0 {
        rejection(RiskDecisionReason::NoMarginHeadroom)
    } else if env.exposure_remaining_usd.raw <= 0 {
        rejection(RiskDecisionReason::NoExposureHeadroom)
    } else if env.max_position_size_usd.raw <= 0 {
        rejection(RiskDecisionReason::PositionSizeZero)
    } else if s.open_positions >= env.max_concurrent_positions {
        rejection(RiskDecisionReason::ConcurrencyLimit)
    } else {
        RiskDecision {
            allow_new_position: true,
            max_new_positions: (env.max_concurrent_positions - s.open_positions) as u32,
            max_order_notional_usd: env.max_position_size_usd,
            reason: RiskDecisionReason::Allowed,
        }
    }
}

/// A decision that allows nothing, for the given reason.
pub open spec fn rejection(reason: RiskDecisionReason) -> RiskDecision {
    RiskDecision {
        allow_new_position: false,
        max_new_positions: 0,
        max_order_notional_usd: Fixed::zero(),
        reason,
    }
}

// ---------------------------------------------------------------------------
// Laws of the kernel.
// ---------------------------------------------------------------------------

/// A high-water mark after it has seen every equity of `equities` in turn.
pub open spec fn peak_after_ticks(peak: Fixed, equities: Seq<Fixed>) -> Fixed
    decreases equities.len(),
{
    if equities.len() == 0 {
        peak
    } else {
        raised_peak(peak_after_ticks(peak, equities.drop_last()), equities.last())
    }
}

/// Concurrency ceilings of all envelopes together.
pub open spec fn total_ceilings(envelopes: Seq<SleeveRiskEnvelope>) -> nat
    decreases envelopes.len(),
{
    if envelopes.len() == 0 {
        0
    } else {
        total_ceilings(envelopes.drop_last()) + envelopes.last().max_concurrent_positions as nat
    }
}

/// A high-water mark never falls: over any sequence of equities, the mark after the
/// first `shorter` of them is at most the mark after the first `longer` of them, and
/// the mark is never below an equity it has seen.
pub proof fn lemma_peak_never_falls(peak: Fixed, equities: Seq<Fixed>, shorter: int, longer: int)
    requires
        0 <= shorter <= longer <= equities.len(),
    ensures
        peak_after_ticks(peak, equities.take(shorter)).raw <= peak_after_ticks(
            peak,
            equities.take(longer),
        ).raw,
        shorter < longer ==> equities[longer - 1].raw <= peak_after_ticks(
            peak,
            equities.take(longer),
        ).raw,
    decreases longer - shorter,
{
    if shorter < longer {
        assert(equities.take(longer).drop_last() =~= equities.take(longer - 1));
        assert(equities.take(longer).last() == equities[longer - 1]);
        lemma_peak_never_falls(peak, equities, shorter, longer - 1);
    }
}

/// With ordered limits `kill < halt`, a drawdown that kills also meets the halt
/// condition; and a halt state is active exactly when the drawdown is at or below the
/// halt limit.
pub proof fn lemma_kill_implies_halt(dd: Fixed, halt_frac: Fixed, kill_frac: Fixed)
    requires
        kill_frac.raw < halt_frac.raw,
    ensures
        halt_state_for(dd, halt_frac, kill_frac) == HaltState::Kill ==> dd.raw <= halt_frac.raw,
        halt_state_for(dd, halt_frac, kill_frac).is_active() <==> dd.raw <= halt_frac.raw,
{
}

/// A drawdown against a high-water mark that has seen the equity is never positive.
pub proof fn lemma_drawdown_never_positive(equity: Fixed, peak: Fixed)
    requires
        equity.raw <= peak.raw,
    ensures
        drawdown(equity, peak).raw <= 0,
{
    if peak.raw > 0 {
        let q = equity.sat_div(peak);
        assert(q.raw <= crate::fixed::SCALE) by {
            lemma_quotient_at_most_one(equity.raw as int, peak.raw as int);
        }
    }
}

/// The scaled quotient of `a` by a positive `d` is at most one whole when `a <= d`.
proof fn lemma_quotient_at_most_one(a: int, d: int)
    by (nonlinear_arith)
    requires
        a <= d,
        0 < d,
    ensures
        crate::fixed::trunc_div(a * 1_000_000, d) <= 1_000_000,
{
    if a >= 0 {
        assert(a * 1_000_000 <= d * 1_000_000);
        assert((a * 1_000_000) / d <= 1_000_000);
    } else {
        assert((-(a * 1_000_000)) / d >= 0);
    }
}

/// Both headrooms are never negative, whatever the inputs.
pub proof fn lemma_headroom_never_negative(
    pcfg: PortfolioRiskConfig,
    p: PortfolioState,
    m: MarginState,
)
    ensures
        exposure_headroom(pcfg, p).raw >= 0,
        margin_headroom(p, m).raw >= 0,
{
}

/// Under a halt or kill of the portfolio or of the sleeve, the envelope's position
/// size is zero.
pub proof fn lemma_halt_zeroes_position_size(t: TickSummary, scfg: SleeveRiskConfig, s: SleeveState)
    ensures
        envelope_for(t, scfg, s).portfolio_halt.is_active() || envelope_for(
            t,
            scfg,
            s,
        ).sleeve_halt.is_active() ==> envelope_for(t, scfg, s).max_position_size_usd
            == Fixed::zero(),
{
}

proof fn lemma_share_fits(remaining: nat, count: nat)
    by (nonlinear_arith)
    requires
        count > 0,
    ensures
        count * (remaining / count) <= remaining,
{
}

proof fn lemma_ceilings_bounded(
    envelopes: Seq<SleeveRiskEnvelope>,
    sleeves: Seq<SleeveState>,
    extra: nat,
)
    requires
        envelopes.len() == sleeves.len(),
        forall|i: int|
            0 <= i < envelopes.len() ==> (#[trigger] envelopes[i]).max_concurrent_positions
                <= sleeves[i].open_positions + extra,
    ensures
        total_ceilings(envelopes) <= total_open_positions(sleeves) + envelopes.len() * extra,
    decreases envelopes.len(),
{
    if envelopes.len() > 0 {
        let k = envelopes.len() - 1;
        assert(envelopes.drop_last().len() == sleeves.drop_last().len());
        assert forall|i: int| 0 <= i < envelopes.drop_last().len() implies (
        #[trigger] envelopes.drop_last()[i]).max_concurrent_positions
            <= sleeves.drop_last()[i].open_positions + extra by {
            assert(envelopes.drop_last()[i] == envelopes[i]);
        }
        lemma_ceilings_bounded(envelopes.drop_last(), sleeves.drop_last(), extra);
        assert(envelopes[k].max_concurrent_positions <= sleeves[k].open_positions + extra);
        assert(envelopes.len() * extra == k * extra + extra) by (nonlinear_arith)
            requires
                envelopes.len() == k + 1,
        ;
    }
}

/// While the portfolio has slots left, the concurrency ceilings of a tick's
/// envelopes add up to at most the portfolio's limit on open positions.
pub proof fn lemma_concurrency_conservation(
    t: TickSummary,
    max_global: u32,
    sleeves: Seq<SleeveState>,
    configs: Seq<SleeveRiskConfig>,
    envelopes: Seq<SleeveRiskEnvelope>,
)
    requires
        t.remaining_slots == remaining_slots(max_global, total_open_positions(sleeves)),
        t.extra_per_sleeve == extra_per_sleeve(t.remaining_slots, sleeves.len()),
        t.remaining_slots > 0,
        configs.len() == sleeves.len(),
        envelopes.len() == sleeves.len(),
        forall|i: int|
            0 <= i < sleeves.len() ==> #[trigger] envelopes[i] == envelope_for(
                t,
                configs[i],
                sleeves[i],
            ),
    ensures
        total_ceilings(envelopes) <= max_global,
{
    let extra = t.extra_per_sleeve as nat;
    let n = sleeves.len();
    if n > 0 {
        lemma_share_fits(t.remaining_slots as nat, n);
        assert(n * extra <= t.remaining_slots);
    } else {
        assert(n * extra == 0) by (nonlinear_arith)
            requires
                n == 0,
        ;
    }
    assert forall|i: int| 0 <= i < envelopes.len() implies (
    #[trigger] envelopes[i]).max_concurrent_positions <= sleeves[i].open_positions + extra by {
        assert(envelopes[i] == envelope_for(t, configs[i], sleeves[i]));
    }
    lemma_ceilings_bounded(envelopes, sleeves, extra);
}

// ---------------------------------------------------------------------------
// The kernel.
// ---------------------------------------------------------------------------

fn reject(reason: RiskDecisionReason) -> (d: RiskDecision)
    ensures
        d == rejection(reason),
{
    RiskDecision {
        allow_new_position: false,
        max_new_positions: 0,
        max_order_notional_usd: Fixed::zero(),
        reason,
    }
}

/// Admission check before a new position is sized: a yes or no under the envelope,
/// with the number of positions that may still be opened and the notional cap.
pub fn evaluate_new_position_risk(sleeve_state: &SleeveState, env: &SleeveRiskEnvelope) -> (d:
    RiskDecision)
    ensures
        d == new_position_decision(*sleeve_state, *env),
{
    if env.portfolio_halt.is_active() {
        return reject(RiskDecisionReason::PortfolioHalt);
    }
    if env.sleeve_halt.is_active() {
        return reject(RiskDecisionReason::SleeveHalt);
    }
    if env.margin_remaining_usd.raw <= 0 {
        return reject(RiskDecisionReason::NoMarginHeadroom);
    }
    if env.exposure_remaining_usd.raw <= 0 {
        return reject(RiskDecisionReason::NoExposureHeadroom);
    }
    if env.max_position_size_usd.raw <= 0 {
        return reject(RiskDecisionReason::PositionSizeZero);
    }
    let open = sleeve_state.open_positions;
    if open >= env.max_concurrent_positions {
        return reject(RiskDecisionReason::ConcurrencyLimit);
    }
    RiskDecision {
        allow_new_position: true,
        max_new_positions: env.max_concurrent_positions - open,
        max_order_notional_usd: env.max_position_size_usd,
        reason: RiskDecisionReason::Allowed,
    }
}

/// Sizing scalar of the volatility regime.
pub fn derive_volatility_scalar(vol: &VolatilityRegime) -> (r: Fixed)
    ensures
        r == volatility_scalar(*vol),
        vol_scalar_floor().raw <= r.raw <= vol_scalar_ceiling().raw,
{
    let rv = vol.rv10_annualized.raw;
    let vix = vol.vix_level.raw;
    let slope = vol.vix_term_slope.raw;
    let lo = Fixed::from_micros(500_000);
    let hi = Fixed::from_micros(1_300_000);
    if vix >= 35_000_000 || rv >= 30_000_000 || slope < 0 {
        return Fixed::from_micros(550_000).clamp(lo, hi);
    }
    if vix >= 25_000_000 || rv >= 20_000_000 {
        return Fixed::from_micros(800_000).clamp(lo, hi);
    }
    if vix < 15_000_000 && rv < 12_000_000 && slope > 500_000 {
        return Fixed::from_micros(1_250_000).clamp(lo, hi);
    }
    Fixed::one()
}

/// Sizing scalar of the leverage in use.
pub fn derive_leverage_scalar(portfolio: &PortfolioState, pcfg: &PortfolioRiskConfig) -> (r:
    Fixed)
    ensures
        r == leverage_scalar(*portfolio, *pcfg),
        0 <= r.raw <= 1_100_000,
{
    let max_lev = pcfg.max_leverage.max(Fixed::from_micros(100_000));
    let cur_lev = portfolio.current_leverage.max(Fixed::zero());
    let x = cur_lev.sat_div(max_lev);
    if x.raw >= 1_000_000 {
        return Fixed::zero();
    }
    let scalar = if x.raw <= 300_000 {
        Fixed::from_micros(1_100_000).sat_sub(Fixed::from_micros(250_000).sat_mul(x))
    } else if x.raw <= 700_000 {
        Fixed::from_micros(1_030_000).sat_sub(
            Fixed::from_micros(200_000).sat_mul(x.sat_sub(Fixed::from_micros(300_000))),
        )
    } else {
        Fixed::from_micros(950_000).sat_sub(
            Fixed::from_micros(2_170_000).sat_mul(x.sat_sub(Fixed::from_micros(700_000))),
        )
    };
    scalar.clamp(Fixed::zero(), Fixed::from_micros(1_100_000))
}

/// Halt state of a drawdown under the two limits.
pub fn classify_drawdown(dd: Fixed, halt_frac: Fixed, kill_frac: Fixed) -> (h: HaltState)
    ensures
        h == halt_state_for(dd, halt_frac, kill_frac),
        kill_frac.raw < halt_frac.raw && h == HaltState::Kill ==> dd.raw <= halt_frac.raw,
{
    if dd.raw <= kill_frac.raw {
        HaltState::Kill
    } else if dd.raw <= halt_frac.raw {
        HaltState::Halt
    } else {
        HaltState::Clear
    }
}

/// Drawdown fraction of `equity` against `peak`.
pub fn compute_drawdown(equity: Fixed, peak: Fixed) -> (dd: Fixed)
    ensures
        dd == drawdown(equity, peak),
{
    if peak.raw > 0 {
        equity.sat_div(peak).sat_sub(Fixed::one())
    } else {
        Fixed::zero()
    }
}

/// The first configuration in `configs` that carries `id`.
pub fn find_sleeve_config(configs: &Vec<SleeveRiskConfig>, id: SleeveId) -> (found: Option<
    SleeveRiskConfig,
>)
    ensures
        found == find_config(configs@, id),
{
    let mut i: usize = configs.len();
    let mut found: Option<SleeveRiskConfig> = None;
    while i > 0
        invariant
            i <= configs.len(),
            found == find_config_from(configs@, id, i as int),
        decreases i,
    {
        i = i - 1;
        if configs[i].sleeve_id == id {
            found = Some(configs[i]);
        }
    }
    found
}

/// Open positions of all sleeves together.
pub fn sum_open_positions(sleeves: &Vec<SleeveState>) -> (total: u128)
    ensures
        total == total_open_positions(sleeves@),
{
    let mut total: u128 = 0;
    let mut i: usize = 0;
    while i < sleeves.len()
        invariant
            i <= sleeves.len(),
            total == total_open_positions(sleeves@.subrange(0, i as int)),
            total <= i * 0xffff_ffff,
        decreases sleeves.len() - i,
    {
        proof {
            assert(sleeves@.subrange(0, i + 1).drop_last() =~= sleeves@.subrange(0, i as int));
        }
        total = total + sleeves[i].open_positions as u128;
        i = i + 1;
    }
    proof {
        assert(sleeves@.subrange(0, i as int) =~= sleeves@);
    }
    total
}

fn compute_tick_summary(
    pcfg: &PortfolioRiskConfig,
    peak_after: Fixed,
    portfolio: &PortfolioState,
    sleeves: &Vec<SleeveState>,
    margin: &MarginState,
    vol: &VolatilityRegime,
) -> (t: TickSummary)
    ensures
        t == tick_summary(*pcfg, peak_after, *portfolio, sleeves@, *margin, *vol),
{
    let equity = portfolio.cash_usd.sat_add(portfolio.open_pnl_usd).sat_add(
        portfolio.accrued_interest_usd,
    );
    let dd = compute_drawdown(equity, peak_after);
    let portfolio_halt = classify_drawdown(dd, pcfg.halt_dd_frac, pcfg.kill_dd_frac);
    let exposure_remaining = pcfg.max_leverage.sat_mul(equity).sat_sub(
        portfolio.total_notional_exposure,
    ).max(Fixed::zero());
    let binding = margin.internal_margin_req_usd.max(margin.broker_margin_req_usd);
    let margin_remaining = equity.sat_sub(binding).max(Fixed::zero());
    let total = sum_open_positions(sleeves);
    let max_global = pcfg.max_global_positions;
    let remaining: u32 = if total >= max_global as u128 {
        0
    } else {
        (max_global as u128 - total) as u32
    };
    let n = sleeves.len();
    let extra: u32 = if remaining > 0 && n > 0 {
        if n as u128 > remaining as u128 {
            proof {
                vstd::arithmetic::div_mod::lemma_basic_div(remaining as int, n as int);
            }
            0
        } else {
            proof {
                vstd::arithmetic::div_mod::lemma_div_pos_is_pos(remaining as int, n as int);
                vstd::arithmetic::div_mod::lemma_div_is_ordered_by_denominator(
                    remaining as int,
                    1,
                    n as int,
                );
            }
            remaining / (n as u32)
        }
    } else {
        0
    };
    TickSummary {
        portfolio_halt,
        exposure_remaining,
        margin_remaining,
        vol_scalar: derive_volatility_scalar(vol),
        lev_scalar: derive_leverage_scalar(portfolio, pcfg),
        remaining_slots: remaining,
        extra_per_sleeve: extra,
    }
}

fn compute_envelope(t: &TickSummary, scfg: &SleeveRiskConfig, s: &SleeveState) -> (env:
    SleeveRiskEnvelope)
    ensures
        env == envelope_for(*t, *scfg, *s),
{
    let peak = if s.equity_usd.raw > s.peak_equity_usd.raw {
        s.equity_usd
    } else {
        s.peak_equity_usd
    };
    let dd = compute_drawdown(s.equity_usd, peak);
    let sleeve_halt = classify_drawdown(dd, scfg.halt_dd_frac, scfg.kill_dd_frac);
    let ceiling: u32 = if t.remaining_slots == 0 {
        s.open_positions
    } else {
        let target: u64 = s.open_positions as u64 + t.extra_per_sleeve as u64;
        if target < scfg.max_concurrent_positions as u64 {
            target as u32
        } else {
            scfg.max_concurrent_positions
        }
    };
    let size = if t.portfolio_halt.is_active() || sleeve_halt.is_active() {
        Fixed::zero()
    } else if t.margin_remaining.raw <= 0 || t.exposure_remaining.raw <= 0 {
        Fixed::zero()
    } else {
        scfg.capital_alloc_usd.sat_mul(scfg.max_single_pos_risk_frac).sat_mul(t.vol_scalar).sat_mul(
            t.lev_scalar,
        ).min(t.exposure_remaining)
    };
    SleeveRiskEnvelope {
        sleeve_id: s.sleeve_id,
        sleeve_halt,
        portfolio_halt: t.portfolio_halt,
        max_position_size_usd: size,
        max_concurrent_positions: ceiling,
        exposure_remaining_usd: t.exposure_remaining,
        margin_remaining_usd: t.margin_remaining,
        volatility_regime_scalar: t.vol_scalar,
        leverage_scalar: t.lev_scalar,
        portfolio_risk_state: match t.portfolio_halt {
            HaltState::Kill => PortfolioRiskState::Stress,
            HaltState::Halt => PortfolioRiskState::Caution,
            HaltState::Clear => PortfolioRiskState::Normal,
        },
    }
}

impl GlobalRiskKernel {
    /// Every sleeve in `sleeves` has a configuration in this kernel.
    pub open spec fn covers(&self, sleeves: Seq<SleeveState>) -> bool {
        forall|i: int|
            0 <= i < sleeves.len() ==> (#[trigger] find_config(
                self.config.sleeves@,
                sleeves[i].sleeve_id,
            )) is Some
    }

    /// A kernel whose high-water mark starts at the configured initial equity.
    pub fn new(config: GlobalRiskKernelConfig) -> (k: Self)
        ensures
            k.config == config,
            k.internal_portfolio_peak_equity == config.portfolio.initial_equity_usd,
    {
        Self { internal_portfolio_peak_equity: config.portfolio.initial_equity_usd, config }
    }

    /// The configuration the kernel runs on.
    pub fn config(&self) -> (c: &GlobalRiskKernelConfig)
        ensures
            *c == self.config,
    {
        &self.config
    }

    /// Whether every sleeve in `sleeves` has a configuration, which `evaluate` asks for.
    pub fn has_config_for_all(&self, sleeves: &Vec<SleeveState>) -> (r: bool)
        ensures
            r == self.covers(sleeves@),
    {
        let mut i: usize = 0;
        while i < sleeves.len()
            invariant
                i <= sleeves.len(),
                forall|j: int|
                    0 <= j < i ==> (#[trigger] find_config(
                        self.config.sleeves@,
                        sleeves@[j].sleeve_id,
                    )) is Some,
            decreases sleeves.len() - i,
        {
            if find_sleeve_config(&self.config.sleeves, sleeves[i].sleeve_id).is_none() {
                return false;
            }
            i = i + 1;
        }
        true
    }

    /// One risk heartbeat over the whole portfolio.
    ///
    /// Raises the portfolio's high-water mark and that of every sleeve, and returns
    /// one envelope per sleeve, in the order of `sleeves`. All sleeves are to be
    /// handed over in one call: the concurrency slots are shared out among them.
    pub fn evaluate(
        &mut self,
        _now_ts: i64,
        portfolio: &PortfolioState,
        sleeves: &mut Vec<SleeveState>,
        margin: &MarginState,
        vol: &VolatilityRegime,
    ) -> (envelopes: Vec<SleeveRiskEnvelope>)
        requires
            old(self).covers(old(sleeves)@),
        ensures
            final(self).config == old(self).config,
            final(self).internal_portfolio_peak_equity == raised_peak(
                old(self).internal_portfolio_peak_equity,
                equity_now(*portfolio),
            ),
            final(sleeves)@.len() == old(sleeves)@.len(),
            forall|i: int|
                0 <= i < old(sleeves)@.len() ==> #[trigger] final(sleeves)@[i] == sleeve_after(
                    old(sleeves)@[i],
                ),
            envelopes@.len() == old(sleeves)@.len(),
            forall|i: int|
                0 <= i < old(sleeves)@.len() ==> #[trigger] envelopes@[i] == envelope_for(
                    tick_summary(
                        old(self).config.portfolio,
                        final(self).internal_portfolio_peak_equity,
                        *portfolio,
                        old(sleeves)@,
                        *margin,
                        *vol,
                    ),
                    find_config(old(self).config.sleeves@, old(sleeves)@[i].sleeve_id).unwrap(),
                    old(sleeves)@[i],
                ),
            final(self).internal_portfolio_peak_equity.raw
                >= old(self).internal_portfolio_peak_equity.raw,
            forall|i: int|
                0 <= i < old(sleeves)@.len() ==> (#[trigger] final(sleeves)@[i]).peak_equity_usd.raw
                    >= old(sleeves)@[i].peak_equity_usd.raw,
            forall|i: int|
                0 <= i < envelopes@.len() ==> (#[trigger] envelopes@[i]).exposure_remaining_usd.raw
                    >= 0 && envelopes@[i].margin_remaining_usd.raw >= 0,
            forall|i: int|
                0 <= i < envelopes@.len() && ((#[trigger] envelopes@[i]).portfolio_halt.is_active()
                    || envelopes@[i].sleeve_halt.is_active())
                    ==> envelopes@[i].max_position_size_usd == Fixed::zero(),
            total_open_positions(old(sleeves)@) < old(self).config.portfolio.max_global_positions
                ==> total_ceilings(envelopes@)
                <= old(self).config.portfolio.max_global_positions,
    {
        let equity = portfolio.cash_usd.sat_add(portfolio.open_pnl_usd).sat_add(
            portfolio.accrued_interest_usd,
        );
        if equity.raw > self.internal_portfolio_peak_equity.raw {
            self.internal_portfolio_peak_equity = equity;
        }
        let t = compute_tick_summary(
            &self.config.portfolio,
            self.internal_portfolio_peak_equity,
            portfolio,
            sleeves,
            margin,
            vol,
        );
        let ghost before = sleeves@;
        let n = sleeves.len();
        let mut envelopes: Vec<SleeveRiskEnvelope> = Vec::with_capacity(n);
        let mut i: usize = 0;
        while i < n
            invariant
                i <= n,
                n == before.len(),
                sleeves@.len() == n,
                self.covers(before),
                forall|j: int| 0 <= j < i ==> #[trigger] sleeves@[j] == sleeve_after(before[j]),
                forall|j: int| i <= j < n ==> #[trigger] sleeves@[j] == before[j],
                envelopes@.len() == i,
                forall|j: int|
                    0 <= j < i ==> #[trigger] envelopes@[j] == envelope_for(
                        t,
                        find_config(self.config.sleeves@, before[j].sleeve_id).unwrap(),
                        before[j],
                    ),
            decreases n - i,
        {
            let s = sleeves[i];
            let found = find_sleeve_config(&self.config.sleeves, s.sleeve_id);
            assert(find_config(self.config.sleeves@, before[i as int].sleeve_id) is Some);
            let scfg = found.unwrap();
            let env = compute_envelope(&t, &scfg, &s);
            if s.equity_usd.raw > s.peak_equity_usd.raw {
                let mut raised = s;
                raised.peak_equity_usd = s.equity_usd;
                sleeves.set(i, raised);
            }
            envelopes.push(env);
            i = i + 1;
        }
        proof {
            if t.remaining_slots > 0 {
                let configs = Seq::new(
                    before.len(),
                    |j: int| find_config(self.config.sleeves@, before[j].sleeve_id).unwrap(),
                );
                lemma_concurrency_conservation(
                    t,
                    self.config.portfolio.max_global_positions,
                    before,
                    configs,
                    envelopes@,
                );
            }
        }
        envelopes
    }

    /// Tells the kernel of a deposit or withdrawal. A movement of at least a fifth of
    /// the equity before it, or any movement from a non-positive equity, resets the
    /// portfolio's high-water mark to the equity after it; the sleeves' marks stay.
    pub fn apply_cashflow_reset(&mut self, equity_before: Fixed, equity_after: Fixed)
        ensures
            final(self).config == old(self).config,
            final(self).internal_portfolio_peak_equity == if cashflow_resets_peak(
                equity_before,
                equity_after,
            ) {
                equity_after
            } else {
                old(self).internal_portfolio_peak_equity
            },
    {
        if equity_before.raw <= 0 {
            self.internal_portfolio_peak_equity = equity_after;
            return ;
        }
        let net_cf = equity_after.sat_sub(equity_before);
        let cf_frac = net_cf.sat_abs().sat_div(equity_before);
        if cf_frac.raw >= 200_000 {
            self.internal_portfolio_peak_equity = equity_after;
        }
    }
}

} // verus!
