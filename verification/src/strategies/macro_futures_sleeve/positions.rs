//! From risk intents to planned notionals.
//!
//! The intents are walked in the fixed order of the instruments. Each one that is
//! planned takes its notional out of both headroom pools, and a slot if its
//! instrument was flat, so what an instrument gets depends on those before it.
use super::instruments::{FutureInstrument, INSTRUMENT_COUNT};
use super::model::{
    FuturesPlannedPosition, FuturesRiskBudget, FuturesSleeveContext, InstrumentRiskIntent,
    MacroFuturesSleeve, MacroFuturesSleeveConfig,
};
use super::signals::{
    intents_of, lemma_signal_count, lemma_signal_shape, lemma_signals_ascending, signals_from,
};
use crate::execution::EngineHealth;
use crate::fixed::{Fixed, SCALE};
use vstd::prelude::*;

verus! {

/// What is left to plan with while the intents are walked.
#[derive(Debug, Clone, Copy, PartialEq, Eq, Structural)]
pub struct Headroom {
    pub exposure: Fixed,
    pub margin: Fixed,
    /// Instruments that hold or will hold a position.
    pub used_slots: u32,
}

/// Whether nothing new may be sized: under a halt or kill of the portfolio or the
/// sleeve, without a positive position size, with a concurrency ceiling of zero, or
/// while the engine is degraded.
pub open spec fn planning_suppressed(ctx: FuturesSleeveContext) -> bool {
    let env = ctx.risk_envelope;
    ||| env.portfolio_halt.is_active()
    ||| env.sleeve_halt.is_active()
    ||| env.max_position_size_usd.raw <= 0
    ||| env.max_concurrent_positions == 0
    ||| ctx.engine_health == EngineHealth::Degraded
}

/// Number of instruments in which a position is held.
pub open spec fn open_instruments(ctx: FuturesSleeveContext) -> nat {
    (if ctx.position(FutureInstrument::Mes) != 0 {
        1nat
    } else {
        0nat
    }) + (if ctx.position(FutureInstrument::Mnq) != 0 {
        1nat
    } else {
        0nat
    }) + (if ctx.position(FutureInstrument::SixE) != 0 {
        1nat
    } else {
        0nat
    })
}

/// The headroom before the first intent: both pools of the envelope, not below zero,
/// and the slots that open positions take, at most the ceiling.
pub open spec fn initial_headroom(ctx: FuturesSleeveContext) -> Headroom {
    let env = ctx.risk_envelope;
    Headroom {
        exposure: env.exposure_remaining_usd.max(Fixed::zero()),
        margin: env.margin_remaining_usd.max(Fixed::zero()),
        used_slots: if open_instruments(ctx) <= env.max_concurrent_positions {
            open_instruments(ctx) as u32
        } else {
            env.max_concurrent_positions
        },
    }
}

/// The notional planned for one intent under the headroom `h`, if any.
///
/// Nothing is planned for a flat or unconvinced intent, without headroom, for a flat
/// instrument once the slots are used up, or for less than one dollar. The target is
/// the desired fraction of the position size. A target above the smaller pool is
/// scaled down to exactly that pool, with the sign of the target, and dropped if the
/// pool holds less than one dollar.
pub open spec fn planned_target(
    ctx: FuturesSleeveContext,
    intent: InstrumentRiskIntent,
    h: Headroom,
) -> Option<Fixed> {
    let env = ctx.risk_envelope;
    let target = intent.desired_risk_frac.sat_mul(env.max_position_size_usd);
    let allowed = h.exposure.min(h.margin);
    if intent.signal.final_signal.direction == 0 || intent.signal.final_signal.conviction.raw <= 0
        || intent.desired_risk_frac.raw == 0 {
        None
    } else if h.exposure.raw <= 0 || h.margin.raw <= 0 {
        None
    } else if ctx.position(intent.instrument) == 0 && h.used_slots
        >= env.max_concurrent_positions {
        None
    } else if target.sat_abs().raw < SCALE {
        None
    } else if target.sat_abs().raw <= allowed.raw {
        Some(target)
    } else if allowed.raw < SCALE {
        None
    } else if target.raw > 0 {
        Some(allowed)
    } else {
        Some(allowed.sat_neg())
    }
}

/// The headroom after an intent for which `target` was planned.
pub open spec fn headroom_after(
    ctx: FuturesSleeveContext,
    intent: InstrumentRiskIntent,
    h: Headroom,
    target: Option<Fixed>,
) -> Headroom {
    match target {
        None => h,
        Some(t) => Headroom {
            exposure: h.exposure.sat_sub(t.sat_abs()).max(Fixed::zero()),
            margin: h.margin.sat_sub(t.sat_abs()).max(Fixed::zero()),
            used_slots: if ctx.position(intent.instrument) == 0 && h.used_slots < u32::MAX {
                (h.used_slots + 1) as u32
            } else {
                h.used_slots
            },
        },
    }
}

/// The positions planned for the intents from place `start` on under the headroom `h`.
pub open spec fn positions_from(
    ctx: FuturesSleeveContext,
    intents: Seq<InstrumentRiskIntent>,
    start: int,
    h: Headroom,
) -> Seq<FuturesPlannedPosition>
    decreases intents.len() - start,
{
    if start < 0 || start >= intents.len() {
        Seq::empty()
    } else {
        let target = planned_target(ctx, intents[start], h);
        (match target {
            Some(t) => seq![
                FuturesPlannedPosition {
                    instrument: intents[start].instrument,
                    target_direction: intents[start].signal.final_signal.direction,
                    target_notional_usd: t,
                },
            ],
            None => Seq::empty(),
        }) + positions_from(
            ctx,
            intents,
            start + 1,
            headroom_after(ctx, intents[start], h, target),
        )
    }
}

/// The positions planned on a heartbeat: none while planning is suppressed, else what
/// the walk over the intents of the heartbeat gives.
pub open spec fn planned_positions(cfg: MacroFuturesSleeveConfig, ctx: FuturesSleeveContext)
    -> Seq<FuturesPlannedPosition> {
    if planning_suppressed(ctx) {
        Seq::empty()
    } else {
        positions_from(ctx, intents_of(cfg, ctx), 0, initial_headroom(ctx))
    }
}

/// A planned notional is at least one dollar and at most the smaller pool of the
/// headroom it was planned under.
pub proof fn lemma_target_within_headroom(
    ctx: FuturesSleeveContext,
    intent: InstrumentRiskIntent,
    h: Headroom,
)
    ensures
        planned_target(ctx, intent, h) matches Some(t) ==> {
            &&& SCALE <= t.sat_abs().raw <= h.exposure.min(h.margin).raw
            &&& intent.signal.final_signal.direction != 0
        },
{
}

/// The positions planned from any place on are each within the headroom at that
/// place and carry the direction of their intent.
pub proof fn lemma_positions_within_headroom(
    ctx: FuturesSleeveContext,
    intents: Seq<InstrumentRiskIntent>,
    start: int,
    h: Headroom,
)
    requires
        0 <= start <= intents.len(),
        forall|i: int|
            0 <= i < intents.len() ==> -1 <= (
            #[trigger] intents[i]).signal.final_signal.direction <= 1,
        0 <= h.exposure.raw,
        0 <= h.margin.raw,
    ensures
        forall|k: int|
            0 <= k < positions_from(ctx, intents, start, h).len() ==> {
                let p = #[trigger] positions_from(ctx, intents, start, h)[k];
                &&& SCALE <= p.target_notional_usd.sat_abs().raw <= h.exposure.min(h.margin).raw
                &&& (p.target_direction == 1 || p.target_direction == -1)
            },
    decreases intents.len() - start,
{
    if start < intents.len() {
        let target = planned_target(ctx, intents[start], h);
        let next = headroom_after(ctx, intents[start], h, target);
        lemma_target_within_headroom(ctx, intents[start], h);
        lemma_positions_within_headroom(ctx, intents, start + 1, next);
        let head: Seq<FuturesPlannedPosition> = match target {
            Some(t) => seq![
                FuturesPlannedPosition {
                    instrument: intents[start].instrument,
                    target_direction: intents[start].signal.final_signal.direction,
                    target_notional_usd: t,
                },
            ],
            None => Seq::empty(),
        };
        let rest = positions_from(ctx, intents, start + 1, next);
        assert(positions_from(ctx, intents, start, h) == head + rest);
        assert forall|k: int| 0 <= k < (head + rest).len() implies {
            let p = #[trigger] (head + rest)[k];
            &&& SCALE <= p.target_notional_usd.sat_abs().raw <= h.exposure.min(h.margin).raw
            &&& (p.target_direction == 1 || p.target_direction == -1)
        } by {
            if k >= head.len() {
                assert((head + rest)[k] == rest[k - head.len()]);
            }
        }
    }
}

/// The intents of a heartbeat carry directions of -1, 0 or +1.
pub proof fn lemma_intent_directions(cfg: MacroFuturesSleeveConfig, ctx: FuturesSleeveContext)
    ensures
        forall|i: int|
            0 <= i < intents_of(cfg, ctx).len() ==> -1 <= (#[trigger] intents_of(
                cfg,
                ctx,
            )[i]).signal.final_signal.direction <= 1,
{
    lemma_signal_directions(cfg, ctx, 0);
}

proof fn lemma_signal_directions(
    cfg: MacroFuturesSleeveConfig,
    ctx: FuturesSleeveContext,
    start: int,
)
    requires
        0 <= start,
    ensures
        forall|i: int|
            0 <= i < signals_from(cfg, ctx.histories, ctx.macro_scalars, start).len() ==> -1 <= (
            #[trigger] signals_from(
                cfg,
                ctx.histories,
                ctx.macro_scalars,
                start,
            )[i]).final_signal.direction <= 1,
    decreases 3 - start,
{
    if start < 3 {
        let inst = FutureInstrument::order()[start];
        lemma_signal_directions(cfg, ctx, start + 1);
        match ctx.histories.entry(inst) {
            Some(hist) => {
                lemma_signal_shape(cfg, inst, hist.bars@, ctx.macro_scalars);
            },
            None => {},
        }
    }
}

/// Every position planned on a heartbeat is at least one dollar, at most the smaller
/// of the envelope's two headrooms, and long or short.
pub proof fn lemma_planned_within_envelope(cfg: MacroFuturesSleeveConfig, ctx: FuturesSleeveContext)
    ensures
        forall|k: int|
            0 <= k < planned_positions(cfg, ctx).len() ==> {
                let p = #[trigger] planned_positions(cfg, ctx)[k];
                &&& SCALE <= p.target_notional_usd.sat_abs().raw
                &&& p.target_notional_usd.sat_abs().raw
                    <= ctx.risk_envelope.exposure_remaining_usd.raw
                &&& p.target_notional_usd.sat_abs().raw
                    <= ctx.risk_envelope.margin_remaining_usd.raw
                &&& (p.target_direction == 1 || p.target_direction == -1)
            },
{
    if !planning_suppressed(ctx) {
        lemma_intent_directions(cfg, ctx);
        lemma_positions_within_headroom(ctx, intents_of(cfg, ctx), 0, initial_headroom(ctx));
    }
}

/// There is at most one planned position for each intent from place `start` on.
pub proof fn lemma_position_count(
    ctx: FuturesSleeveContext,
    intents: Seq<InstrumentRiskIntent>,
    start: int,
    h: Headroom,
)
    requires
        0 <= start <= intents.len(),
    ensures
        positions_from(ctx, intents, start, h).len() <= intents.len() - start,
    decreases intents.len() - start,
{
    if start < intents.len() {
        lemma_position_count(
            ctx,
            intents,
            start + 1,
            headroom_after(ctx, intents[start], h, planned_target(ctx, intents[start], h)),
        );
    }
}

/// At most one position is planned for each instrument.
pub proof fn lemma_planned_count(cfg: MacroFuturesSleeveConfig, ctx: FuturesSleeveContext)
    ensures
        planned_positions(cfg, ctx).len() <= INSTRUMENT_COUNT,
{
    lemma_signal_count(cfg, ctx.histories, ctx.macro_scalars, 0);
    if !planning_suppressed(ctx) {
        lemma_position_count(ctx, intents_of(cfg, ctx), 0, initial_headroom(ctx));
    }
}

/// Where the intents come in the fixed order of the instruments, so do the positions
/// planned for them.
pub proof fn lemma_positions_ascending(
    ctx: FuturesSleeveContext,
    intents: Seq<InstrumentRiskIntent>,
    start: int,
    h: Headroom,
)
    requires
        0 <= start <= intents.len(),
        forall|j: int, k: int|
            0 <= j < k < intents.len() ==> (#[trigger] intents[j]).instrument.rank() < (
            #[trigger] intents[k]).instrument.rank(),
    ensures
        forall|k: int|
            0 <= k < positions_from(ctx, intents, start, h).len() ==> start < intents.len() && (
            #[trigger] positions_from(ctx, intents, start, h)[k]).instrument.rank()
                >= intents[start].instrument.rank(),
        forall|j: int, k: int|
            0 <= j < k < positions_from(ctx, intents, start, h).len() ==> (
            #[trigger] positions_from(ctx, intents, start, h)[j]).instrument.rank() < (
            #[trigger] positions_from(ctx, intents, start, h)[k]).instrument.rank(),
    decreases intents.len() - start,
{
    if start < intents.len() {
        let target = planned_target(ctx, intents[start], h);
        let next = headroom_after(ctx, intents[start], h, target);
        lemma_positions_ascending(ctx, intents, start + 1, next);
        let rest = positions_from(ctx, intents, start + 1, next);
        let head: Seq<FuturesPlannedPosition> = match target {
            Some(t) => seq![
                FuturesPlannedPosition {
                    instrument: intents[start].instrument,
                    target_direction: intents[start].signal.final_signal.direction,
                    target_notional_usd: t,
                },
            ],
            None => Seq::empty(),
        };
        let all = positions_from(ctx, intents, start, h);
        assert(all == head + rest);
        assert forall|k: int| 0 <= k < all.len() implies (#[trigger] all[k]).instrument.rank()
            >= intents[start].instrument.rank() by {
            if k >= head.len() {
                assert(all[k] == rest[k - head.len()]);
            }
        }
        assert forall|j: int, k: int| 0 <= j < k < all.len() implies (
        #[trigger] all[j]).instrument.rank() < (#[trigger] all[k]).instrument.rank() by {
            assert(all[k] == rest[k - head.len()]);
            if j >= head.len() {
                assert(all[j] == rest[j - head.len()]);
            }
        }
    }
}

/// The positions planned on a heartbeat come in the fixed order of the instruments,
/// each instrument at most once.
pub proof fn lemma_planned_ascending(cfg: MacroFuturesSleeveConfig, ctx: FuturesSleeveContext)
    ensures
        forall|j: int, k: int|
            0 <= j < k < planned_positions(cfg, ctx).len() ==> (#[trigger] planned_positions(
                cfg,
                ctx,
            )[j]).instrument.rank() < (#[trigger] planned_positions(cfg, ctx)[k]).instrument.rank(),
{
    if !planning_suppressed(ctx) {
        lemma_signals_ascending(cfg, ctx.histories, ctx.macro_scalars, 0);
        lemma_positions_ascending(ctx, intents_of(cfg, ctx), 0, initial_headroom(ctx));
    }
}

/// The notionals of `positions` together, each by its magnitude, in millionths.
pub open spec fn total_notional(positions: Seq<FuturesPlannedPosition>) -> int
    decreases positions.len(),
{
    if positions.len() == 0 {
        0
    } else {
        total_notional(positions.drop_last()) + positions.last().target_notional_usd.sat_abs().raw
    }
}

/// Number of `positions` on instruments in which nothing is held.
pub open spec fn opened_instruments(
    ctx: FuturesSleeveContext,
    positions: Seq<FuturesPlannedPosition>,
) -> int
    decreases positions.len(),
{
    if positions.len() == 0 {
        0
    } else {
        opened_instruments(ctx, positions.drop_last()) + if ctx.position(
            positions.last().instrument,
        ) == 0 {
            1int
        } else {
            0int
        }
    }
}

proof fn lemma_totals_of_one_more(
    ctx: FuturesSleeveContext,
    head: Seq<FuturesPlannedPosition>,
    rest: Seq<FuturesPlannedPosition>,
)
    requires
        head.len() <= 1,
    ensures
        total_notional(head + rest) == total_notional(head) + total_notional(rest),
        opened_instruments(ctx, head + rest) == opened_instruments(ctx, head) + opened_instruments(
            ctx,
            rest,
        ),
    decreases rest.len(),
{
    if rest.len() == 0 {
        assert(head + rest =~= head);
    } else {
        assert((head + rest).drop_last() =~= head + rest.drop_last());
        assert((head + rest).last() == rest.last());
        lemma_totals_of_one_more(ctx, head, rest.drop_last());
    }
}

proof fn lemma_walk_within_pools(
    ctx: FuturesSleeveContext,
    intents: Seq<InstrumentRiskIntent>,
    start: int,
    h: Headroom,
)
    requires
        0 <= start <= intents.len(),
        0 <= h.exposure.raw,
        0 <= h.margin.raw,
        h.used_slots <= ctx.risk_envelope.max_concurrent_positions,
    ensures
        total_notional(positions_from(ctx, intents, start, h)) <= h.exposure.min(h.margin).raw,
        h.used_slots + opened_instruments(ctx, positions_from(ctx, intents, start, h))
            <= ctx.risk_envelope.max_concurrent_positions,
    decreases intents.len() - start,
{
    if start < intents.len() {
        let target = planned_target(ctx, intents[start], h);
        let next = headroom_after(ctx, intents[start], h, target);
        lemma_target_within_headroom(ctx, intents[start], h);
        lemma_walk_within_pools(ctx, intents, start + 1, next);
        let head: Seq<FuturesPlannedPosition> = match target {
            Some(t) => seq![
                FuturesPlannedPosition {
                    instrument: intents[start].instrument,
                    target_direction: intents[start].signal.final_signal.direction,
                    target_notional_usd: t,
                },
            ],
            None => Seq::empty(),
        };
        let rest = positions_from(ctx, intents, start + 1, next);
        assert(positions_from(ctx, intents, start, h) == head + rest);
        lemma_totals_of_one_more(ctx, head, rest);
        let none = Seq::<FuturesPlannedPosition>::empty();
        assert(total_notional(none) == 0 && opened_instruments(ctx, none) == 0);
        if target is Some {
            assert(head.drop_last() =~= none);
            assert(head.last() == head[0]);
            assert(total_notional(head) == total_notional(head.drop_last())
                + head.last().target_notional_usd.sat_abs().raw);
            assert(opened_instruments(ctx, head) == opened_instruments(ctx, head.drop_last())
                + if ctx.position(head.last().instrument) == 0 {
                1int
            } else {
                0int
            });
        } else {
            assert(head =~= none);
        }
    }
}

/// The positions planned on a heartbeat together take no more than the smaller of the
/// envelope's two headrooms, and together with the instruments that hold a position
/// they open no more instruments than the concurrency ceiling allows.
pub proof fn lemma_plan_within_capacity(cfg: MacroFuturesSleeveConfig, ctx: FuturesSleeveContext)
    ensures
        total_notional(planned_positions(cfg, ctx)) <= ctx.risk_envelope.exposure_remaining_usd.max(
            Fixed::zero(),
        ).raw,
        total_notional(planned_positions(cfg, ctx)) <= ctx.risk_envelope.margin_remaining_usd.max(
            Fixed::zero(),
        ).raw,
        opened_instruments(ctx, planned_positions(cfg, ctx))
            <= ctx.risk_envelope.max_concurrent_positions,
        open_instruments(ctx) <= ctx.risk_envelope.max_concurrent_positions ==> open_instruments(
            ctx,
        ) + opened_instruments(ctx, planned_positions(cfg, ctx))
            <= ctx.risk_envelope.max_concurrent_positions,
{
    if !planning_suppressed(ctx) {
        lemma_walk_within_pools(ctx, intents_of(cfg, ctx), 0, initial_headroom(ctx));
    }
}

impl MacroFuturesSleeve {
    /// Plans a signed notional per instrument under the envelope of the context.
    pub fn plan_positions(&self, ctx: &FuturesSleeveContext, risk_budget: &FuturesRiskBudget)
        -> (out: Vec<FuturesPlannedPosition>)
        ensures
            out@ == planned_positions(self.cfg, *ctx),
            planning_suppressed(*ctx) ==> out@.len() == 0,
            forall|k: int|
                0 <= k < out@.len() ==> {
                    let p = #[trigger] out@[k];
                    &&& SCALE <= p.target_notional_usd.sat_abs().raw
                    &&& p.target_notional_usd.sat_abs().raw
                        <= ctx.risk_envelope.exposure_remaining_usd.raw
                    &&& p.target_notional_usd.sat_abs().raw
                        <= ctx.risk_envelope.margin_remaining_usd.raw
                    &&& (p.target_direction == 1 || p.target_direction == -1)
                },
            total_notional(out@) <= ctx.risk_envelope.exposure_remaining_usd.max(Fixed::zero()).raw,
            total_notional(out@) <= ctx.risk_envelope.margin_remaining_usd.max(Fixed::zero()).raw,
            opened_instruments(*ctx, out@) <= ctx.risk_envelope.max_concurrent_positions,
            out@.len() <= INSTRUMENT_COUNT,
    {
        proof {
            lemma_planned_within_envelope(self.cfg, *ctx);
            lemma_plan_within_capacity(self.cfg, *ctx);
            lemma_planned_count(self.cfg, *ctx);
        }
        let env = &ctx.risk_envelope;
        if env.portfolio_halt.is_active() || env.sleeve_halt.is_active()
            || env.max_position_size_usd.raw <= 0 || env.max_concurrent_positions == 0 {
            return Vec::new();
        }
        if let EngineHealth::Degraded = ctx.engine_health {
            return Vec::new();
        }
        let intents = self.evaluate_risk_intents(ctx, risk_budget);
        let max_slots = env.max_concurrent_positions;
        let mut current_open: u32 = 0;
        if ctx.position(FutureInstrument::Mes) != 0 {
            current_open = current_open + 1;
        }
        if ctx.position(FutureInstrument::Mnq) != 0 {
            current_open = current_open + 1;
        }
        if ctx.position(FutureInstrument::SixE) != 0 {
            current_open = current_open + 1;
        }
        let mut h = Headroom {
            exposure: env.exposure_remaining_usd.max(Fixed::zero()),
            margin: env.margin_remaining_usd.max(Fixed::zero()),
            used_slots: if current_open <= max_slots {
                current_open
            } else {
                max_slots
            },
        };
        let mut out: Vec<FuturesPlannedPosition> = Vec::new();
        let mut i: usize = 0;
        while i < intents.len()
            invariant
                i <= intents.len(),
                !planning_suppressed(*ctx),
                intents@ == intents_of(self.cfg, *ctx),
                out@ + positions_from(*ctx, intents@, i as int, h) == planned_positions(
                    self.cfg,
                    *ctx,
                ),
            decreases intents.len() - i,
        {
            let intent = intents[i];
            let ghost before = out@;
            let ghost h_before = h;
            let planned = self.plan_one(ctx, &intent, &h);
            match planned {
                Some(t) => {
                    let abs_target = t.sat_abs();
                    h.exposure = h.exposure.sat_sub(abs_target).max(Fixed::zero());
                    h.margin = h.margin.sat_sub(abs_target).max(Fixed::zero());
                    if ctx.position(intent.instrument) == 0 && h.used_slots < u32::MAX {
                        h.used_slots = h.used_slots + 1;
                    }
                    out.push(
                        FuturesPlannedPosition {
                            instrument: intent.instrument,
                            target_direction: intent.signal.final_signal.direction,
                            target_notional_usd: t,
                        },
                    );
                },
                None => {},
            }
            assert(h == headroom_after(*ctx, intent, h_before, planned));
            assert(out@ + positions_from(*ctx, intents@, i + 1, h) =~= before + positions_from(
                *ctx,
                intents@,
                i as int,
                h_before,
            ));
            i = i + 1;
        }
        assert(out@ + Seq::<FuturesPlannedPosition>::empty() =~= out@);
        out
    }

    /// The notional planned for one intent under the headroom `h`, if any.
    pub fn plan_one(&self, ctx: &FuturesSleeveContext, intent: &InstrumentRiskIntent, h: &Headroom)
        -> (planned: Option<Fixed>)
        ensures
            planned == planned_target(*ctx, *intent, *h),
    {
        let env = &ctx.risk_envelope;
        let dir = intent.signal.final_signal.direction;
        let conv = intent.signal.final_signal.conviction;
        let frac = intent.desired_risk_frac;
        if dir == 0 || conv.raw <= 0 || frac.raw == 0 {
            return None;
        }
        if h.exposure.raw <= 0 || h.margin.raw <= 0 {
            return None;
        }
        let is_new_instrument = ctx.position(intent.instrument) == 0;
        if is_new_instrument && h.used_slots >= env.max_concurrent_positions {
            return None;
        }
        let mut target_notional = frac.sat_mul(env.max_position_size_usd);
        let abs_target = target_notional.sat_abs();
        if abs_target.raw < SCALE {
            return None;
        }
        let allowed_notional = h.exposure.min(h.margin);
        if abs_target.raw > allowed_notional.raw {
            if allowed_notional.raw < SCALE {
                return None;
            }
            target_notional = if target_notional.raw > 0 {
                allowed_notional
            } else {
                allowed_notional.sat_neg()
            };
        }
        Some(target_notional)
    }
}

} // verus!
