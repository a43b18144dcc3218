//! From daily bars to trade signals.
//!
//! Each instrument is scored on its own: a validation of the data, a trend score, a carry
//! score for the currency future, the macro adjustment, the effective score, its
//! conviction on the logistic curve, and the final direction.
use super::instruments::{FutureInstrument, InstrumentMap, INSTRUMENT_COUNT};
use super::model::{
    DailyFeatureBar, FinalTradeSignal, FuturesRiskBudget, FuturesSleeveContext,
    InstrumentHistory, InstrumentRiskIntent, InstrumentSignal, MacroAdjustedSignal,
    MacroFuturesSleeve, MacroFuturesSleeveConfig, MacroScalars, RawSignal, SignalReason,
};
use crate::fixed::{lemma_sat_mul_ordered, Fixed};
use crate::logistic::{
    compute_logistic, lemma_logistic_never_falls, lemma_logistic_range, logistic,
};
use vstd::prelude::*;

verus! {

/// Fewest bars from which an instrument is scored.
pub const MIN_BARS: usize = 120;

/// Whether the most recent bar can be scored: prices, the average true range, the
/// three volatilities and the two 50-day extremes are above zero, the volume is not
/// negative, and a carry volatility, where there is one, is above zero.
pub open spec fn features_valid(bar: DailyFeatureBar) -> bool {
    &&& bar.open.raw > 0
    &&& bar.high.raw > 0
    &&& bar.low.raw > 0
    &&& bar.close.raw > 0
    &&& bar.volume.raw >= 0
    &&& bar.atr_14.raw > 0
    &&& bar.vol_20d.raw > 0
    &&& bar.vol_60d.raw > 0
    &&& bar.vol_120d.raw > 0
    &&& bar.highest_close_50d.raw > 0
    &&& bar.lowest_close_50d.raw > 0
    &&& match bar.fx_carry {
        Some(fx) => fx.carry_rate_vol_252d.raw > 0,
        None => true,
    }
}

/// The breakout term: +1 above the 50-day high, -1 below the 50-day low, else 0.
pub open spec fn breakout(bar: DailyFeatureBar) -> Fixed {
    if bar.close.raw > bar.highest_close_50d.raw {
        Fixed::one()
    } else if bar.close.raw < bar.lowest_close_50d.raw {
        Fixed::one().sat_neg()
    } else {
        Fixed::zero()
    }
}

/// Trend score of a bar: the weighted sum of the three returns, each over its own
/// volatility, and of the breakout term, clamped to the trend clip.
pub open spec fn trend_raw(cfg: MacroFuturesSleeveConfig, bar: DailyFeatureBar) -> Fixed {
    cfg.trend_weight_20d.sat_mul(bar.ret_20d.sat_div(bar.vol_20d)).sat_add(
        cfg.trend_weight_60d.sat_mul(bar.ret_60d.sat_div(bar.vol_60d)),
    ).sat_add(cfg.trend_weight_120d.sat_mul(bar.ret_120d.sat_div(bar.vol_120d))).sat_add(
        cfg.breakout_weight.sat_mul(breakout(bar)),
    ).clamp(cfg.trend_score_clip.sat_neg(), cfg.trend_score_clip)
}

/// Carry score of a bar: for the currency future, the carry rate over its volatility,
/// the volatility counted as at least the configured floor, clamped to the carry
/// clip; zero for every other instrument and without carry features.
pub open spec fn carry_raw(
    cfg: MacroFuturesSleeveConfig,
    inst: FutureInstrument,
    bar: DailyFeatureBar,
) -> Fixed {
    match inst {
        FutureInstrument::SixE => match bar.fx_carry {
            Some(fx) => fx.carry_rate_annualized.sat_div(
                fx.carry_rate_vol_252d.max(cfg.carry_vol_floor.max(Fixed::from_micros(1))),
            ).clamp(cfg.carry_score_clip.sat_abs().sat_neg(), cfg.carry_score_clip.sat_abs()),
            None => Fixed::zero(),
        },
        _ => Fixed::zero(),
    }
}

/// The macro adjustment: the trend goes by the risk-on scalar, for the currency
/// future also by the dollar scalar; the carry of the currency future goes by its
/// configured weight and the dollar scalar, and is zero elsewhere.
pub open spec fn macro_adjusted(
    cfg: MacroFuturesSleeveConfig,
    inst: FutureInstrument,
    raw: RawSignal,
    macros: MacroScalars,
) -> MacroAdjustedSignal {
    match inst {
        FutureInstrument::SixE => MacroAdjustedSignal {
            trend_macro_adjusted: raw.trend_score.sat_mul(
                macros.risk_on_scalar.sat_mul(macros.usd_scalar),
            ),
            carry_macro_adjusted: raw.carry_score.sat_mul(
                cfg.carry_weight_6e.sat_mul(macros.usd_scalar),
            ),
        },
        _ => MacroAdjustedSignal {
            trend_macro_adjusted: raw.trend_score.sat_mul(macros.risk_on_scalar),
            carry_macro_adjusted: raw.carry_score.sat_mul(Fixed::zero()),
        },
    }
}

/// Effective score: the adjusted trend, for the currency future plus the adjusted
/// carry, clamped to the effective clip.
pub open spec fn effective_score(
    cfg: MacroFuturesSleeveConfig,
    inst: FutureInstrument,
    adj: MacroAdjustedSignal,
) -> Fixed {
    (match inst {
        FutureInstrument::SixE => adj.trend_macro_adjusted.sat_add(adj.carry_macro_adjusted),
        _ => adj.trend_macro_adjusted,
    }).clamp(cfg.effective_score_clip.sat_abs().sat_neg(), cfg.effective_score_clip.sat_abs())
}

/// Conviction of an effective score: the logistic curve at `k * (|score| - m)`.
pub open spec fn conviction(cfg: MacroFuturesSleeveConfig, effective: Fixed) -> Fixed {
    logistic(cfg.logistic_k.sat_mul(effective.sat_abs().sat_sub(cfg.logistic_m))).clamp(
        Fixed::zero(),
        Fixed::one(),
    )
}

/// Whether a score or its conviction is under its threshold.
pub open spec fn below_threshold(cfg: MacroFuturesSleeveConfig, effective: Fixed, conv: Fixed)
    -> bool {
    effective.sat_abs().raw < cfg.min_effective_score.raw || conv.raw < cfg.min_conviction.raw
}

/// The final signal of a score and its conviction: flat under a threshold, else in
/// the direction of the score. Score and conviction are reported either way.
pub open spec fn final_signal(cfg: MacroFuturesSleeveConfig, effective: Fixed, conv: Fixed)
    -> (FinalTradeSignal, SignalReason) {
    if below_threshold(cfg, effective, conv) {
        (
            FinalTradeSignal { direction: 0, conviction: conv, effective_score: effective },
            SignalReason::BelowThreshold,
        )
    } else {
        (
            FinalTradeSignal {
                direction: if effective.raw > 0 {
                    1i8
                } else {
                    -1i8
                },
                conviction: conv,
                effective_score: effective,
            },
            SignalReason::Normal,
        )
    }
}

/// The flat signal of an instrument that could not be scored.
pub open spec fn flat(inst: FutureInstrument, reason: SignalReason) -> InstrumentSignal {
    InstrumentSignal {
        instrument: inst,
        final_signal: FinalTradeSignal {
            direction: 0,
            conviction: Fixed::zero(),
            effective_score: Fixed::zero(),
        },
        raw: RawSignal { trend_score: Fixed::zero(), carry_score: Fixed::zero() },
        macro_adj: MacroAdjustedSignal {
            trend_macro_adjusted: Fixed::zero(),
            carry_macro_adjusted: Fixed::zero(),
        },
        reason,
    }
}

/// The signal of an instrument whose most recent bar is valid.
pub open spec fn scored(
    cfg: MacroFuturesSleeveConfig,
    inst: FutureInstrument,
    bar: DailyFeatureBar,
    macros: MacroScalars,
) -> InstrumentSignal {
    let raw = RawSignal {
        trend_score: trend_raw(cfg, bar),
        carry_score: carry_raw(cfg, inst, bar),
    };
    let adj = macro_adjusted(cfg, inst, raw, macros);
    let effective = effective_score(cfg, inst, adj);
    let outcome = final_signal(cfg, effective, conviction(cfg, effective));
    InstrumentSignal {
        instrument: inst,
        final_signal: outcome.0,
        raw,
        macro_adj: adj,
        reason: outcome.1,
    }
}

/// The signal of an instrument from its bars: flat with the reason for it when there
/// are fewer than [`MIN_BARS`] bars or the most recent bar is not valid,
/// else the scored signal of the most recent bar.
pub open spec fn instrument_signal(
    cfg: MacroFuturesSleeveConfig,
    inst: FutureInstrument,
    bars: Seq<DailyFeatureBar>,
    macros: MacroScalars,
) -> InstrumentSignal {
    if bars.len() < MIN_BARS {
        flat(inst, SignalReason::InsufficientHistory)
    } else if !features_valid(bars.last()) {
        flat(inst, SignalReason::InvalidData)
    } else {
        scored(cfg, inst, bars.last(), macros)
    }
}

/// The signals of the instruments from place `start` of the fixed order on: one for
/// each instrument that has a history.
pub open spec fn signals_from(
    cfg: MacroFuturesSleeveConfig,
    histories: InstrumentMap<InstrumentHistory>,
    macros: MacroScalars,
    start: int,
) -> Seq<InstrumentSignal>
    decreases INSTRUMENT_COUNT - start,
{
    if start < 0 || start >= INSTRUMENT_COUNT {
        Seq::empty()
    } else {
        let inst = FutureInstrument::order()[start];
        (match histories.entry(inst) {
            Some(hist) => seq![instrument_signal(cfg, inst, hist.bars@, macros)],
            None => Seq::empty(),
        }) + signals_from(cfg, histories, macros, start + 1)
    }
}

/// The signals of a heartbeat, in the fixed order of the instruments.
pub open spec fn signals_of(cfg: MacroFuturesSleeveConfig, ctx: FuturesSleeveContext) -> Seq<
    InstrumentSignal,
> {
    signals_from(cfg, ctx.histories, ctx.macro_scalars, 0)
}

/// The risk intent of a signal: direction times conviction, kept within `[-1, 1]`.
pub open spec fn intent_of(signal: InstrumentSignal) -> InstrumentRiskIntent {
    InstrumentRiskIntent {
        instrument: signal.instrument,
        desired_risk_frac: Fixed::from_int(signal.final_signal.direction as i64).sat_mul(
            signal.final_signal.conviction,
        ).clamp(Fixed::one().sat_neg(), Fixed::one()),
        signal,
    }
}

/// The risk intents of a heartbeat, one per signal and in the order of the signals.
pub open spec fn intents_of(cfg: MacroFuturesSleeveConfig, ctx: FuturesSleeveContext) -> Seq<
    InstrumentRiskIntent,
> {
    signals_of(cfg, ctx).map_values(|s: InstrumentSignal| intent_of(s))
}

/// There is at most one signal for each instrument from place `start` on.
pub proof fn lemma_signal_count(
    cfg: MacroFuturesSleeveConfig,
    histories: InstrumentMap<InstrumentHistory>,
    macros: MacroScalars,
    start: int,
)
    requires
        0 <= start <= INSTRUMENT_COUNT,
    ensures
        signals_from(cfg, histories, macros, start).len() <= INSTRUMENT_COUNT - start,
    decreases INSTRUMENT_COUNT - start,
{
    if start < INSTRUMENT_COUNT {
        lemma_signal_count(cfg, histories, macros, start + 1);
    }
}

/// The signals from place `start` on come in the fixed order of the instruments, each
/// instrument at most once and none from before that place.
pub proof fn lemma_signals_ascending(
    cfg: MacroFuturesSleeveConfig,
    histories: InstrumentMap<InstrumentHistory>,
    macros: MacroScalars,
    start: int,
)
    requires
        0 <= start <= INSTRUMENT_COUNT,
    ensures
        forall|k: int|
            0 <= k < signals_from(cfg, histories, macros, start).len() ==> (#[trigger] signals_from(
                cfg,
                histories,
                macros,
                start,
            )[k]).instrument.rank() >= start,
        forall|j: int, k: int|
            0 <= j < k < signals_from(cfg, histories, macros, start).len() ==> (
            #[trigger] signals_from(cfg, histories, macros, start)[j]).instrument.rank() < (
            #[trigger] signals_from(cfg, histories, macros, start)[k]).instrument.rank(),
    decreases INSTRUMENT_COUNT - start,
{
    if start < INSTRUMENT_COUNT {
        let inst = FutureInstrument::order()[start];
        assert(inst.rank() == start);
        lemma_signals_ascending(cfg, histories, macros, start + 1);
        let rest = signals_from(cfg, histories, macros, start + 1);
        let head: Seq<InstrumentSignal> = match histories.entry(inst) {
            Some(hist) => seq![instrument_signal(cfg, inst, hist.bars@, macros)],
            None => Seq::empty(),
        };
        let all = signals_from(cfg, histories, macros, start);
        assert(all == head + rest);
        if histories.entry(inst) is Some {
            lemma_signal_shape(cfg, inst, histories.entry(inst).unwrap().bars@, macros);
        }
        assert forall|k: int| 0 <= k < all.len() implies (#[trigger] all[k]).instrument.rank()
            >= start by {
            if k >= head.len() {
                assert(all[k] == rest[k - head.len()]);
            }
        }
        assert forall|j: int, k: int| 0 <= j < k < all.len() implies (
        #[trigger] all[j]).instrument.rank() < (#[trigger] all[k]).instrument.rank() by {
            assert(all[k] == rest[k - head.len()]);
            if j >= head.len() {
                assert(all[j] == rest[j - head.len()]);
            }
        }
    }
}

/// Conviction never falls as the score grows in magnitude, whatever its sign, as long
/// as the steepness `logistic_k` of the curve is not negative. A score and its
/// negation have the same conviction.
pub proof fn lemma_conviction_never_falls(
    cfg: MacroFuturesSleeveConfig,
    weaker: Fixed,
    stronger: Fixed,
)
    requires
        cfg.logistic_k.raw >= 0,
        weaker.sat_abs().raw <= stronger.sat_abs().raw,
    ensures
        conviction(cfg, weaker).raw <= conviction(cfg, stronger).raw,
        weaker.sat_abs() == stronger.sat_abs() ==> conviction(cfg, weaker) == conviction(
            cfg,
            stronger,
        ),
{
    let less = weaker.sat_abs().sat_sub(cfg.logistic_m);
    let more = stronger.sat_abs().sat_sub(cfg.logistic_m);
    assert(less.raw <= more.raw);
    lemma_sat_mul_ordered(cfg.logistic_k, less, more);
    lemma_logistic_never_falls(cfg.logistic_k.sat_mul(less), cfg.logistic_k.sat_mul(more));
}

/// Scoring is a function of its inputs: two signals computed from the same
/// configuration, bars and macro scalars are the same, field by field.
pub proof fn lemma_signal_idempotent(
    cfg: MacroFuturesSleeveConfig,
    inst: FutureInstrument,
    bars: Seq<DailyFeatureBar>,
    macros: MacroScalars,
    first: InstrumentSignal,
    second: InstrumentSignal,
)
    requires
        first == instrument_signal(cfg, inst, bars, macros),
        second == instrument_signal(cfg, inst, bars, macros),
    ensures
        first == second,
        first.final_signal.direction == second.final_signal.direction,
        first.final_signal.conviction.raw == second.final_signal.conviction.raw,
        first.final_signal.effective_score.raw == second.final_signal.effective_score.raw,
{
}

/// Every signal has a direction of -1, 0 or +1 and a conviction between zero and
/// one, and the direction is zero unless the reason is `Normal`.
pub proof fn lemma_signal_shape(
    cfg: MacroFuturesSleeveConfig,
    inst: FutureInstrument,
    bars: Seq<DailyFeatureBar>,
    macros: MacroScalars,
)
    ensures
        ({
            let s = instrument_signal(cfg, inst, bars, macros);
            &&& s.instrument == inst
            &&& -1 <= s.final_signal.direction <= 1
            &&& 0 <= s.final_signal.conviction.raw <= 1_000_000
            &&& s.reason != SignalReason::Normal ==> s.final_signal.direction == 0
            &&& s.reason == SignalReason::Normal ==> s.final_signal.direction != 0
        }),
{
    if bars.len() >= MIN_BARS && features_valid(bars.last()) {
        let bar = bars.last();
        let raw = RawSignal {
            trend_score: trend_raw(cfg, bar),
            carry_score: carry_raw(cfg, inst, bar),
        };
        let effective = effective_score(cfg, inst, macro_adjusted(cfg, inst, raw, macros));
        lemma_logistic_range(
            cfg.logistic_k.sat_mul(effective.sat_abs().sat_sub(cfg.logistic_m)),
        );
    }
}

impl MacroFuturesSleeve {
    /// A sleeve on the configuration `cfg`.
    pub fn new(cfg: MacroFuturesSleeveConfig) -> (s: Self)
        ensures
            s.cfg == cfg,
    {
        Self { cfg }
    }

    /// Validates the length of a history.
    pub fn validate_history(&self, hist: &InstrumentHistory) -> (r: Result<(), SignalReason>)
        ensures
            r is Ok <==> hist.bars@.len() >= MIN_BARS,
            r is Err ==> r == Err::<(), SignalReason>(SignalReason::InsufficientHistory),
    {
        if hist.bars.len() < MIN_BARS {
            return Err(SignalReason::InsufficientHistory);
        }
        Ok(())
    }

    /// Validates the features of the most recent bar.
    pub fn validate_features(&self, bar: &DailyFeatureBar) -> (r: Result<(), SignalReason>)
        ensures
            r is Ok <==> features_valid(*bar),
            r is Err ==> r == Err::<(), SignalReason>(SignalReason::InvalidData),
    {
        if bar.open.raw <= 0 || bar.high.raw <= 0 || bar.low.raw <= 0 || bar.close.raw <= 0 {
            return Err(SignalReason::InvalidData);
        }
        if bar.volume.raw < 0 {
            return Err(SignalReason::InvalidData);
        }
        if bar.atr_14.raw <= 0 || bar.vol_20d.raw <= 0 || bar.vol_60d.raw <= 0 || bar.vol_120d.raw
            <= 0 {
            return Err(SignalReason::InvalidData);
        }
        if bar.highest_close_50d.raw <= 0 || bar.lowest_close_50d.raw <= 0 {
            return Err(SignalReason::InvalidData);
        }
        if let Some(fx) = bar.fx_carry {
            if fx.carry_rate_vol_252d.raw <= 0 {
                return Err(SignalReason::InvalidData);
            }
        }
        Ok(())
    }

    /// Trend score of the most recent bar, and zero without a bar.
    pub fn compute_trend_raw(&self, bars: &Vec<DailyFeatureBar>, _inst: FutureInstrument) -> (r:
        Fixed)
        ensures
            r == if bars@.len() == 0 {
                Fixed::zero()
            } else {
                trend_raw(self.cfg, bars@.last())
            },
    {
        if bars.len() == 0 {
            return Fixed::zero();
        }
        let last = bars[bars.len() - 1];
        let z20 = last.ret_20d.sat_div(last.vol_20d);
        let z60 = last.ret_60d.sat_div(last.vol_60d);
        let z120 = last.ret_120d.sat_div(last.vol_120d);
        let brk = if last.close.raw > last.highest_close_50d.raw {
            Fixed::one()
        } else if last.close.raw < last.lowest_close_50d.raw {
            Fixed::one().sat_neg()
        } else {
            Fixed::zero()
        };
        let raw = self.cfg.trend_weight_20d.sat_mul(z20).sat_add(
            self.cfg.trend_weight_60d.sat_mul(z60),
        ).sat_add(self.cfg.trend_weight_120d.sat_mul(z120)).sat_add(
            self.cfg.breakout_weight.sat_mul(brk),
        );
        raw.clamp(self.cfg.trend_score_clip.sat_neg(), self.cfg.trend_score_clip)
    }

    /// Carry score of a bar.
    pub fn compute_carry_raw(&self, inst: FutureInstrument, last: &DailyFeatureBar) -> (r: Fixed)
        ensures
            r == carry_raw(self.cfg, inst, *last),
    {
        match inst {
            FutureInstrument::SixE => {
                let fx = match last.fx_carry {
                    Some(fx) => fx,
                    None => {
                        return Fixed::zero();
                    },
                };
                let vol_floor = self.cfg.carry_vol_floor.max(Fixed::from_micros(1));
                let denom = fx.carry_rate_vol_252d.max(vol_floor);
                let z = fx.carry_rate_annualized.sat_div(denom);
                let clip = self.cfg.carry_score_clip.sat_abs();
                z.clamp(clip.sat_neg(), clip)
            },
            _ => Fixed::zero(),
        }
    }

    /// The macro adjustment of a raw signal.
    pub fn apply_macro(&self, inst: FutureInstrument, raw: &RawSignal, macros: &MacroScalars) -> (r:
        MacroAdjustedSignal)
        ensures
            r == macro_adjusted(self.cfg, inst, *raw, *macros),
    {
        let trend_scalar = match inst {
            FutureInstrument::Mes | FutureInstrument::Mnq => macros.risk_on_scalar,
            FutureInstrument::SixE => macros.risk_on_scalar.sat_mul(macros.usd_scalar),
        };
        let carry_scalar = match inst {
            FutureInstrument::SixE => self.cfg.carry_weight_6e.sat_mul(macros.usd_scalar),
            _ => Fixed::zero(),
        };
        MacroAdjustedSignal {
            trend_macro_adjusted: raw.trend_score.sat_mul(trend_scalar),
            carry_macro_adjusted: raw.carry_score.sat_mul(carry_scalar),
        }
    }

    /// Effective score of an adjusted signal.
    pub fn compute_effective_score(&self, inst: FutureInstrument, macro_adj: &MacroAdjustedSignal)
        -> (r: Fixed)
        ensures
            r == effective_score(self.cfg, inst, *macro_adj),
    {
        let mut eff = macro_adj.trend_macro_adjusted;
        if let FutureInstrument::SixE = inst {
            eff = eff.sat_add(macro_adj.carry_macro_adjusted);
        }
        let clip = self.cfg.effective_score_clip.sat_abs();
        eff.clamp(clip.sat_neg(), clip)
    }

    /// Conviction of an effective score, between zero and one.
    pub fn compute_conviction(&self, effective_score: Fixed) -> (r: Fixed)
        ensures
            r == conviction(self.cfg, effective_score),
            0 <= r.raw <= 1_000_000,
    {
        let x = effective_score.sat_abs();
        let z = self.cfg.logistic_k.sat_mul(x.sat_sub(self.cfg.logistic_m));
        let c = compute_logistic(z);
        c.clamp(Fixed::zero(), Fixed::one())
    }

    /// The final signal of a score and its conviction.
    pub fn build_final_signal(&self, effective_score: Fixed, conviction: Fixed) -> (r: (
        FinalTradeSignal,
        SignalReason,
    ))
        ensures
            r == final_signal(self.cfg, effective_score, conviction),
    {
        let abs_eff = effective_score.sat_abs();
        let below_effective = abs_eff.raw < self.cfg.min_effective_score.raw;
        let below_conviction = conviction.raw < self.cfg.min_conviction.raw;
        if below_effective || below_conviction {
            let flat = FinalTradeSignal { direction: 0, conviction, effective_score };
            return (flat, SignalReason::BelowThreshold);
        }
        let direction: i8 = if effective_score.raw > 0 {
            1
        } else {
            -1
        };
        (FinalTradeSignal { direction, conviction, effective_score }, SignalReason::Normal)
    }

    /// The flat signal of an instrument that could not be scored.
    pub fn flat_signal(&self, inst: FutureInstrument, reason: SignalReason) -> (r: InstrumentSignal)
        ensures
            r == flat(inst, reason),
    {
        InstrumentSignal {
            instrument: inst,
            final_signal: FinalTradeSignal {
                direction: 0,
                conviction: Fixed::zero(),
                effective_score: Fixed::zero(),
            },
            raw: RawSignal { trend_score: Fixed::zero(), carry_score: Fixed::zero() },
            macro_adj: MacroAdjustedSignal {
                trend_macro_adjusted: Fixed::zero(),
                carry_macro_adjusted: Fixed::zero(),
            },
            reason,
        }
    }

    /// The signal of one instrument from its history.
    pub fn evaluate_instrument(
        &self,
        inst: FutureInstrument,
        hist: &InstrumentHistory,
        macros: &MacroScalars,
    ) -> (r: InstrumentSignal)
        ensures
            r == instrument_signal(self.cfg, inst, hist.bars@, *macros),
    {
        if let Err(reason) = self.validate_history(hist) {
            return self.flat_signal(inst, reason);
        }
        let last_bar = hist.bars[hist.bars.len() - 1];
        if let Err(reason) = self.validate_features(&last_bar) {
            return self.flat_signal(inst, reason);
        }
        let trend_score = self.compute_trend_raw(&hist.bars, inst);
        let carry_score = self.compute_carry_raw(inst, &last_bar);
        let raw = RawSignal { trend_score, carry_score };
        let macro_adj = self.apply_macro(inst, &raw, macros);
        let effective_score = self.compute_effective_score(inst, &macro_adj);
        let conviction = self.compute_conviction(effective_score);
        let (final_signal, reason) = self.build_final_signal(effective_score, conviction);
        InstrumentSignal { instrument: inst, final_signal, raw, macro_adj, reason }
    }

    /// The signals of a heartbeat: one for each instrument that has a history, in the
    /// fixed order of the instruments.
    pub fn evaluate_signals(&self, ctx: &FuturesSleeveContext, _risk_budget: &FuturesRiskBudget)
        -> (out: Vec<InstrumentSignal>)
        ensures
            out@ == signals_of(self.cfg, *ctx),
    {
        let mut out: Vec<InstrumentSignal> = Vec::new();
        let mut i: usize = 0;
        while i < INSTRUMENT_COUNT
            invariant
                i <= INSTRUMENT_COUNT,
                out@ + signals_from(self.cfg, ctx.histories, ctx.macro_scalars, i as int)
                    == signals_of(self.cfg, *ctx),
            decreases INSTRUMENT_COUNT - i,
        {
            let inst = FutureInstrument::at(i);
            let ghost before = out@;
            match ctx.histories.get(&inst) {
                Some(hist) => {
                    let signal = self.evaluate_instrument(inst, hist, &ctx.macro_scalars);
                    out.push(signal);
                    assert(out@ =~= before + seq![signal]);
                },
                None => {},
            }
            assert(out@ + signals_from(self.cfg, ctx.histories, ctx.macro_scalars, i + 1) =~= before
                + signals_from(self.cfg, ctx.histories, ctx.macro_scalars, i as int));
            i = i + 1;
        }
        assert(out@ + Seq::<InstrumentSignal>::empty() =~= out@);
        out
    }

    /// The risk intents of a heartbeat: for each signal the share of the position
    /// size to use, direction times conviction.
    pub fn evaluate_risk_intents(&self, ctx: &FuturesSleeveContext, risk_budget: &FuturesRiskBudget)
        -> (out: Vec<InstrumentRiskIntent>)
        ensures
            out@ == intents_of(self.cfg, *ctx),
    {
        let signals = self.evaluate_signals(ctx, risk_budget);
        let mut out: Vec<InstrumentRiskIntent> = Vec::new();
        let mut i: usize = 0;
        while i < signals.len()
            invariant
                i <= signals.len(),
                out@.len() == i,
                forall|j: int| 0 <= j < i ==> #[trigger] out@[j] == intent_of(signals@[j]),
            decreases signals.len() - i,
        {
            let signal = signals[i];
            let desired_risk_frac = Fixed::from_int(signal.final_signal.direction as i64).sat_mul(
                signal.final_signal.conviction,
            ).clamp(Fixed::one().sat_neg(), Fixed::one());
            out.push(
                InstrumentRiskIntent { instrument: signal.instrument, desired_risk_frac, signal },
            );
            i = i + 1;
        }
        assert(out@ =~= signals@.map_values(|s: InstrumentSignal| intent_of(s)));
        out
    }
}

} // verus!
