//! From target contracts to order intents and orders.
//!
//! An instrument with a target is moved by the difference between target and
//! position. An instrument with a position and no target is flattened; when
//! planning is suppressed, this is what closes the sleeve's risk.
use super::contracts::{contracts_plan, lemma_contracts_ascending};
use super::instruments::{instrument_metadata, metadata_of, FutureInstrument, INSTRUMENT_COUNT};
use super::model::{
    EngineOrder, EngineOrderSide, FuturesOrderIntent, FuturesPlannedContracts, FuturesRiskBudget,
    FuturesSleeveContext, MacroFuturesHeartbeatOutput, MacroFuturesSleeve,
    MacroFuturesSleeveConfig,
};
use super::positions::{planned_positions, planning_suppressed};
use crate::execution::EngineHealth;
use crate::risk::SleeveId;
use vstd::prelude::*;

verus! {

/// A change of position as a signed contract count: `x` itself where it is in the
/// range of `i32`, else the end of the range nearest to it.
pub open spec fn clamp_delta(x: int) -> i32 {
    if x > i32::MAX {
        i32::MAX
    } else if x < i32::MIN {
        i32::MIN
    } else {
        x as i32
    }
}

/// The intents for the targets from place `start` on: target minus position, where
/// that is not zero.
pub open spec fn deltas_from(
    ctx: FuturesSleeveContext,
    planned: Seq<FuturesPlannedContracts>,
    start: int,
) -> Seq<FuturesOrderIntent>
    decreases planned.len() - start,
{
    if start < 0 || start >= planned.len() {
        Seq::empty()
    } else {
        let delta = clamp_delta(
            planned[start].target_contracts - ctx.position(planned[start].instrument),
        );
        (if delta != 0 {
            seq![
                FuturesOrderIntent {
                    instrument: planned[start].instrument,
                    delta_contracts: delta,
                },
            ]
        } else {
            Seq::empty()
        }) + deltas_from(ctx, planned, start + 1)
    }
}

/// Whether `inst` has a target.
pub open spec fn has_target(planned: Seq<FuturesPlannedContracts>, inst: FutureInstrument) -> bool {
    exists|i: int| 0 <= i < planned.len() && (#[trigger] planned[i]).instrument == inst
}

/// Whether `inst` is to be flattened: it holds a position and has no target.
pub open spec fn to_flatten(
    ctx: FuturesSleeveContext,
    planned: Seq<FuturesPlannedContracts>,
    inst: FutureInstrument,
) -> bool {
    ctx.position(inst) != 0 && !has_target(planned, inst)
}

/// The intents that flatten the instruments from place `start` of the fixed order on.
pub open spec fn flattens_from(
    ctx: FuturesSleeveContext,
    planned: Seq<FuturesPlannedContracts>,
    start: int,
) -> Seq<FuturesOrderIntent>
    decreases INSTRUMENT_COUNT - start,
{
    if start < 0 || start >= INSTRUMENT_COUNT {
        Seq::empty()
    } else {
        let inst = FutureInstrument::order()[start];
        (if to_flatten(ctx, planned, inst) {
            seq![
                FuturesOrderIntent {
                    instrument: inst,
                    delta_contracts: clamp_delta(-ctx.position(inst)),
                },
            ]
        } else {
            Seq::empty()
        }) + flattens_from(ctx, planned, start + 1)
    }
}

/// The order intents that reconcile the positions of `ctx` with the targets
/// `planned`: first the moves toward the targets, in the order of the targets, then
/// the flattens, in the fixed order of the instruments.
pub open spec fn order_intents_for(ctx: FuturesSleeveContext, planned: Seq<FuturesPlannedContracts>)
    -> Seq<FuturesOrderIntent> {
    deltas_from(ctx, planned, 0) + flattens_from(ctx, planned, 0)
}

/// The order intents of a heartbeat.
pub open spec fn order_intents(
    cfg: MacroFuturesSleeveConfig,
    ctx: FuturesSleeveContext,
    risk_budget: FuturesRiskBudget,
) -> Seq<FuturesOrderIntent> {
    order_intents_for(ctx, contracts_plan(cfg, ctx, risk_budget))
}

/// Whether an intent becomes an order: it moves the position, by a count whose
/// magnitude fits.
pub open spec fn tradable(intent: FuturesOrderIntent) -> bool {
    intent.delta_contracts != 0 && intent.delta_contracts != i32::MIN
}

/// The intents from place `start` on that become orders.
pub open spec fn tradable_from(intents: Seq<FuturesOrderIntent>, start: int) -> Seq<
    FuturesOrderIntent,
>
    decreases intents.len() - start,
{
    if start < 0 || start >= intents.len() {
        Seq::empty()
    } else {
        (if tradable(intents[start]) {
            seq![intents[start]]
        } else {
            Seq::empty()
        }) + tradable_from(intents, start + 1)
    }
}

/// Whether `order` is the order of `intent` for the sleeve `sleeve_id`: a buy for a
/// positive delta and a sell for a negative one, of as many contracts as the delta
/// counts, under the instrument's symbol and venue.
pub open spec fn is_order_for(order: EngineOrder, sleeve_id: SleeveId, intent: FuturesOrderIntent)
    -> bool {
    &&& order.sleeve_id == sleeve_id
    &&& order.instrument == intent.instrument
    &&& (order.symbol@, order.venue@) == metadata_of(intent.instrument)
    &&& order.side == if intent.delta_contracts > 0 {
        EngineOrderSide::Buy
    } else {
        EngineOrderSide::Sell
    }
    &&& order.quantity > 0
    &&& order.quantity == if intent.delta_contracts > 0 {
        intent.delta_contracts as int
    } else {
        -(intent.delta_contracts as int)
    }
}

/// Whether the targets come in the fixed order of the instruments, each instrument at
/// most once.
pub open spec fn ascending(planned: Seq<FuturesPlannedContracts>) -> bool {
    forall|j: int, k: int|
        0 <= j < k < planned.len() ==> (#[trigger] planned[j]).instrument.rank() < (
        #[trigger] planned[k]).instrument.rank()
}

/// The target of `inst`: its planned contracts, and zero where it has none.
pub open spec fn target_of(planned: Seq<FuturesPlannedContracts>, inst: FutureInstrument) -> int {
    if has_target(planned, inst) {
        planned[choose|i: int|
            0 <= i < planned.len() && (#[trigger] planned[i]).instrument == inst].target_contracts
            as int
    } else {
        0
    }
}

/// The change of position that takes `inst` from what it holds to its target.
pub open spec fn wanted_delta(
    ctx: FuturesSleeveContext,
    planned: Seq<FuturesPlannedContracts>,
    inst: FutureInstrument,
) -> i32 {
    clamp_delta(target_of(planned, inst) - ctx.position(inst))
}

proof fn lemma_target_of_entry(planned: Seq<FuturesPlannedContracts>, i: int)
    requires
        ascending(planned),
        0 <= i < planned.len(),
    ensures
        has_target(planned, planned[i].instrument),
        target_of(planned, planned[i].instrument) == planned[i].target_contracts,
{
    let inst = planned[i].instrument;
    let chosen = choose|c: int|
        0 <= c < planned.len() && (#[trigger] planned[c]).instrument == inst;
    assert(planned[chosen].instrument == inst);
    if chosen < i {
        assert(planned[chosen].instrument.rank() < planned[i].instrument.rank());
    }
    if i < chosen {
        assert(planned[i].instrument.rank() < planned[chosen].instrument.rank());
    }
}

proof fn lemma_deltas_reach_targets(
    ctx: FuturesSleeveContext,
    planned: Seq<FuturesPlannedContracts>,
    start: int,
)
    requires
        ascending(planned),
        0 <= start <= planned.len(),
    ensures
        forall|k: int|
            0 <= k < deltas_from(ctx, planned, start).len() ==> {
                let d = #[trigger] deltas_from(ctx, planned, start)[k];
                &&& start < planned.len()
                &&& d.instrument.rank() >= planned[start].instrument.rank()
                &&& has_target(planned, d.instrument)
                &&& d.delta_contracts != 0
                &&& d.delta_contracts == wanted_delta(ctx, planned, d.instrument)
            },
        forall|j: int, k: int|
            0 <= j < k < deltas_from(ctx, planned, start).len() ==> (#[trigger] deltas_from(
                ctx,
                planned,
                start,
            )[j]).instrument.rank() < (#[trigger] deltas_from(
                ctx,
                planned,
                start,
            )[k]).instrument.rank(),
        forall|i: int|
            start <= i < planned.len() && wanted_delta(
                ctx,
                planned,
                (#[trigger] planned[i]).instrument,
            ) != 0 ==> exists|k: int|
                0 <= k < deltas_from(ctx, planned, start).len() && (#[trigger] deltas_from(
                    ctx,
                    planned,
                    start,
                )[k]).instrument == planned[i].instrument,
    decreases planned.len() - start,
{
    if start < planned.len() {
        lemma_deltas_reach_targets(ctx, planned, start + 1);
        lemma_target_of_entry(planned, start);
        let inst = planned[start].instrument;
        let delta = clamp_delta(planned[start].target_contracts - ctx.position(inst));
        assert(delta == wanted_delta(ctx, planned, inst));
        let head: Seq<FuturesOrderIntent> = if delta != 0 {
            seq![FuturesOrderIntent { instrument: inst, delta_contracts: delta }]
        } else {
            Seq::empty()
        };
        let rest = deltas_from(ctx, planned, start + 1);
        let all = deltas_from(ctx, planned, start);
        assert(all == head + rest);
        assert forall|k: int| 0 <= k < all.len() implies {
            let d = #[trigger] all[k];
            &&& d.instrument.rank() >= planned[start].instrument.rank()
            &&& has_target(planned, d.instrument)
            &&& d.delta_contracts != 0
            &&& d.delta_contracts == wanted_delta(ctx, planned, d.instrument)
        } by {
            if k >= head.len() {
                assert(all[k] == rest[k - head.len()]);
                assert(planned[start].instrument.rank() < planned[start + 1].instrument.rank());
            }
        }
        assert forall|j: int, k: int| 0 <= j < k < all.len() implies (
        #[trigger] all[j]).instrument.rank() < (#[trigger] all[k]).instrument.rank() by {
            assert(all[k] == rest[k - head.len()]);
            assert(planned[start].instrument.rank() < planned[start + 1].instrument.rank());
            if j >= head.len() {
                assert(all[j] == rest[j - head.len()]);
            }
        }
        assert forall|i: int|
            start <= i < planned.len() && wanted_delta(
                ctx,
                planned,
                (#[trigger] planned[i]).instrument,
            ) != 0 implies exists|k: int|
            0 <= k < all.len() && (#[trigger] all[k]).instrument == planned[i].instrument by {
            if i == start {
                assert(all[0] == head[0]);
            } else {
                let k0 = choose|k: int|
                    0 <= k < rest.len() && (#[trigger] rest[k]).instrument == planned[i].instrument;
                assert(all[k0 + head.len()] == rest[k0]);
            }
        }
    }
}

proof fn lemma_flattens_reach_targets(
    ctx: FuturesSleeveContext,
    planned: Seq<FuturesPlannedContracts>,
    start: int,
)
    requires
        0 <= start <= INSTRUMENT_COUNT,
    ensures
        forall|k: int|
            0 <= k < flattens_from(ctx, planned, start).len() ==> {
                let f = #[trigger] flattens_from(ctx, planned, start)[k];
                &&& f.instrument.rank() >= start
                &&& !has_target(planned, f.instrument)
                &&& f.delta_contracts != 0
                &&& f.delta_contracts == wanted_delta(ctx, planned, f.instrument)
            },
        forall|j: int, k: int|
            0 <= j < k < flattens_from(ctx, planned, start).len() ==> (#[trigger] flattens_from(
                ctx,
                planned,
                start,
            )[j]).instrument.rank() < (#[trigger] flattens_from(
                ctx,
                planned,
                start,
            )[k]).instrument.rank(),
        forall|inst: FutureInstrument|
            inst.rank() >= start && #[trigger] to_flatten(ctx, planned, inst) ==> exists|k: int|
                0 <= k < flattens_from(ctx, planned, start).len() && (#[trigger] flattens_from(
                    ctx,
                    planned,
                    start,
                )[k]).instrument == inst,
    decreases INSTRUMENT_COUNT - start,
{
    if start < INSTRUMENT_COUNT {
        lemma_flattens_reach_targets(ctx, planned, start + 1);
        let here = FutureInstrument::order()[start];
        assert(here.rank() == start);
        let head: Seq<FuturesOrderIntent> = if to_flatten(ctx, planned, here) {
            seq![
                FuturesOrderIntent {
                    instrument: here,
                    delta_contracts: clamp_delta(-ctx.position(here)),
                },
            ]
        } else {
            Seq::empty()
        };
        let rest = flattens_from(ctx, planned, start + 1);
        let all = flattens_from(ctx, planned, start);
        assert(all == head + rest);
        assert forall|k: int| 0 <= k < all.len() implies {
            let f = #[trigger] all[k];
            &&& f.instrument.rank() >= start
            &&& !has_target(planned, f.instrument)
            &&& f.delta_contracts != 0
            &&& f.delta_contracts == wanted_delta(ctx, planned, f.instrument)
        } by {
            if k >= head.len() {
                assert(all[k] == rest[k - head.len()]);
            }
        }
        assert forall|j: int, k: int| 0 <= j < k < all.len() implies (
        #[trigger] all[j]).instrument.rank() < (#[trigger] all[k]).instrument.rank() by {
            assert(all[k] == rest[k - head.len()]);
            if j >= head.len() {
                assert(all[j] == rest[j - head.len()]);
            }
        }
        assert forall|inst: FutureInstrument|
            inst.rank() >= start && #[trigger] to_flatten(ctx, planned, inst) implies exists|k: int|
            0 <= k < all.len() && (#[trigger] all[k]).instrument == inst by {
            if inst.rank() == start {
                assert(inst == here);
                assert(all[0] == head[0]);
            } else {
                let k0 = choose|k: int|
                    0 <= k < rest.len() && (#[trigger] rest[k]).instrument == inst;
                assert(all[k0 + head.len()] == rest[k0]);
            }
        }
    }
}

/// Reconciliation reaches the targets. For targets that name each instrument at most
/// once, in the fixed order, every intent carries the target of its instrument less
/// the position held in it, that difference is not zero, and it is brought into the
/// range of `i32` only where it leaves it; every instrument whose target differs from
/// its position has an intent; and no instrument has two.
pub proof fn lemma_intents_reach_targets(
    ctx: FuturesSleeveContext,
    planned: Seq<FuturesPlannedContracts>,
)
    requires
        ascending(planned),
    ensures
        forall|k: int|
            0 <= k < order_intents_for(ctx, planned).len() ==> {
                let intent = #[trigger] order_intents_for(ctx, planned)[k];
                &&& intent.delta_contracts != 0
                &&& intent.delta_contracts == wanted_delta(ctx, planned, intent.instrument)
            },
        forall|inst: FutureInstrument|
            #[trigger] wanted_delta(ctx, planned, inst) != 0 ==> exists|k: int|
                0 <= k < order_intents_for(ctx, planned).len() && (#[trigger] order_intents_for(
                    ctx,
                    planned,
                )[k]).instrument == inst,
        forall|j: int, k: int|
            0 <= j < k < order_intents_for(ctx, planned).len() ==> (#[trigger] order_intents_for(
                ctx,
                planned,
            )[j]).instrument != (#[trigger] order_intents_for(ctx, planned)[k]).instrument,
{
    lemma_deltas_reach_targets(ctx, planned, 0);
    lemma_flattens_reach_targets(ctx, planned, 0);
    let moves = deltas_from(ctx, planned, 0);
    let flats = flattens_from(ctx, planned, 0);
    let all = order_intents_for(ctx, planned);
    assert(all == moves + flats);
    assert forall|k: int| 0 <= k < all.len() implies {
        let intent = #[trigger] all[k];
        &&& intent.delta_contracts != 0
        &&& intent.delta_contracts == wanted_delta(ctx, planned, intent.instrument)
    } by {
        if k < moves.len() {
            assert(all[k] == moves[k]);
        } else {
            assert(all[k] == flats[k - moves.len()]);
        }
    }
    assert forall|inst: FutureInstrument| #[trigger]
        wanted_delta(ctx, planned, inst) != 0 implies exists|k: int|
        0 <= k < all.len() && (#[trigger] all[k]).instrument == inst by {
        if has_target(planned, inst) {
            let i = choose|i: int|
                0 <= i < planned.len() && (#[trigger] planned[i]).instrument == inst;
            assert(planned[i].instrument == inst);
            let k0 = choose|k: int|
                0 <= k < moves.len() && (#[trigger] moves[k]).instrument == inst;
            assert(all[k0] == moves[k0]);
        } else {
            assert(to_flatten(ctx, planned, inst));
            let k0 = choose|k: int|
                0 <= k < flats.len() && (#[trigger] flats[k]).instrument == inst;
            assert(all[k0 + moves.len()] == flats[k0]);
        }
    }
    assert forall|j: int, k: int| 0 <= j < k < all.len() implies (#[trigger] all[j]).instrument != (
    #[trigger] all[k]).instrument by {
        if k < moves.len() {
            assert(all[j] == moves[j] && all[k] == moves[k]);
        } else if j >= moves.len() {
            assert(all[j] == flats[j - moves.len()] && all[k] == flats[k - moves.len()]);
        } else {
            assert(all[j] == moves[j] && all[k] == flats[k - moves.len()]);
        }
    }
}

/// The order intents of a heartbeat reach its targets: each carries the target of its
/// instrument less the position held in it, every instrument whose target differs
/// from its position has one, and none has two.
pub proof fn lemma_heartbeat_intents_reach_targets(
    cfg: MacroFuturesSleeveConfig,
    ctx: FuturesSleeveContext,
    risk_budget: FuturesRiskBudget,
)
    ensures
        ascending(contracts_plan(cfg, ctx, risk_budget)),
        forall|k: int|
            0 <= k < order_intents(cfg, ctx, risk_budget).len() ==> {
                let intent = #[trigger] order_intents(cfg, ctx, risk_budget)[k];
                &&& intent.delta_contracts != 0
                &&& intent.delta_contracts == wanted_delta(
                    ctx,
                    contracts_plan(cfg, ctx, risk_budget),
                    intent.instrument,
                )
            },
        forall|inst: FutureInstrument|
            #[trigger] wanted_delta(ctx, contracts_plan(cfg, ctx, risk_budget), inst) != 0
                ==> exists|k: int|
                0 <= k < order_intents(cfg, ctx, risk_budget).len() && (#[trigger] order_intents(
                    cfg,
                    ctx,
                    risk_budget,
                )[k]).instrument == inst,
        forall|j: int, k: int|
            0 <= j < k < order_intents(cfg, ctx, risk_budget).len() ==> (#[trigger] order_intents(
                cfg,
                ctx,
                risk_budget,
            )[j]).instrument != (#[trigger] order_intents(cfg, ctx, risk_budget)[k]).instrument,
{
    lemma_contracts_ascending(cfg, ctx, risk_budget);
    lemma_intents_reach_targets(ctx, contracts_plan(cfg, ctx, risk_budget));
}

/// Without targets, the flattens from any place on are exactly one per instrument
/// that holds a position, each of the negated position.
proof fn lemma_flattens_without_targets(ctx: FuturesSleeveContext, start: int)
    requires
        0 <= start <= INSTRUMENT_COUNT,
    ensures
        ({
            let intents = flattens_from(ctx, Seq::empty(), start);
            &&& forall|k: int|
                0 <= k < intents.len() ==> {
                    let held = ctx.position((#[trigger] intents[k]).instrument);
                    &&& held != 0
                    &&& intents[k].delta_contracts == clamp_delta(-held)
                }
            &&& forall|j: int|
                start <= j < INSTRUMENT_COUNT && ctx.position(
                    #[trigger] FutureInstrument::order()[j],
                ) != 0 ==> exists|k: int|
                    0 <= k < intents.len() && #[trigger] intents[k] == (FuturesOrderIntent {
                        instrument: FutureInstrument::order()[j],
                        delta_contracts: clamp_delta(-ctx.position(FutureInstrument::order()[j])),
                    })
        }),
    decreases INSTRUMENT_COUNT - start,
{
    let planned = Seq::<FuturesPlannedContracts>::empty();
    let intents = flattens_from(ctx, planned, start);
    if start < INSTRUMENT_COUNT {
        lemma_flattens_without_targets(ctx, start + 1);
        let inst = FutureInstrument::order()[start];
        let rest = flattens_from(ctx, planned, start + 1);
        let head: Seq<FuturesOrderIntent> = if to_flatten(ctx, planned, inst) {
            seq![
                FuturesOrderIntent {
                    instrument: inst,
                    delta_contracts: clamp_delta(-ctx.position(inst)),
                },
            ]
        } else {
            Seq::empty()
        };
        assert(intents == head + rest);
        assert forall|k: int| 0 <= k < intents.len() implies {
            let held = ctx.position((#[trigger] intents[k]).instrument);
            &&& held != 0
            &&& intents[k].delta_contracts == clamp_delta(-held)
        } by {
            if k >= head.len() {
                assert(intents[k] == rest[k - head.len()]);
            }
        }
        assert forall|j: int|
            start <= j < INSTRUMENT_COUNT && ctx.position(#[trigger] FutureInstrument::order()[j])
                != 0 implies exists|k: int|
            0 <= k < intents.len() && #[trigger] intents[k] == (FuturesOrderIntent {
                instrument: FutureInstrument::order()[j],
                delta_contracts: clamp_delta(-ctx.position(FutureInstrument::order()[j])),
            }) by {
            if j == start {
                assert(to_flatten(ctx, planned, inst));
                assert(intents[0] == head[0]);
            } else {
                let k0 = choose|k: int|
                    0 <= k < rest.len() && #[trigger] rest[k] == (FuturesOrderIntent {
                        instrument: FutureInstrument::order()[j],
                        delta_contracts: clamp_delta(-ctx.position(FutureInstrument::order()[j])),
                    });
                assert(intents[k0 + head.len()] == rest[k0]);
            }
        }
    }
}

/// Flatten completeness. While the engine is degraded or a halt or kill is active,
/// the order intents of a heartbeat are exactly the flattens: every instrument that
/// holds a position gets an intent of the negated position, and no intent goes to an
/// instrument that holds none. (A position of `i32::MIN` has no negation; its intent
/// is `i32::MAX`.)
pub proof fn lemma_flatten_completeness(
    cfg: MacroFuturesSleeveConfig,
    ctx: FuturesSleeveContext,
    risk_budget: FuturesRiskBudget,
)
    requires
        ctx.engine_health == EngineHealth::Degraded || ctx.risk_envelope.portfolio_halt.is_active()
            || ctx.risk_envelope.sleeve_halt.is_active(),
    ensures
        contracts_plan(cfg, ctx, risk_budget).len() == 0,
        forall|inst: FutureInstrument|
            ctx.position(inst) != 0 ==> exists|k: int|
                0 <= k < order_intents(cfg, ctx, risk_budget).len() && #[trigger] order_intents(
                    cfg,
                    ctx,
                    risk_budget,
                )[k] == (FuturesOrderIntent {
                    instrument: inst,
                    delta_contracts: clamp_delta(-ctx.position(inst)),
                }),
        forall|inst: FutureInstrument|
            ctx.position(inst) != 0 && ctx.position(inst) != i32::MIN ==> clamp_delta(
                -#[trigger] ctx.position(inst),
            ) == -ctx.position(inst),
        forall|k: int|
            0 <= k < order_intents(cfg, ctx, risk_budget).len() ==> {
                let intent = #[trigger] order_intents(cfg, ctx, risk_budget)[k];
                &&& ctx.position(intent.instrument) != 0
                &&& intent.delta_contracts == clamp_delta(-ctx.position(intent.instrument))
            },
{
    let planned = contracts_plan(cfg, ctx, risk_budget);
    assert(planning_suppressed(ctx));
    assert(planned_positions(cfg, ctx) =~= Seq::empty());
    assert(planned =~= Seq::empty());
    lemma_flattens_without_targets(ctx, 0);
    assert(order_intents(cfg, ctx, risk_budget) =~= flattens_from(ctx, Seq::empty(), 0));
    assert forall|inst: FutureInstrument| ctx.position(inst) != 0 implies exists|k: int|
        0 <= k < order_intents(cfg, ctx, risk_budget).len() && #[trigger] order_intents(
            cfg,
            ctx,
            risk_budget,
        )[k] == (FuturesOrderIntent {
            instrument: inst,
            delta_contracts: clamp_delta(-ctx.position(inst)),
        }) by {
        let j: int = match inst {
            FutureInstrument::Mes => 0,
            FutureInstrument::Mnq => 1,
            FutureInstrument::SixE => 2,
        };
        assert(FutureInstrument::order()[j] == inst);
    }
}

impl MacroFuturesSleeve {
    /// The order intents of this heartbeat: what takes the positions held to the
    /// target contracts, and flat where there is no target.
    pub fn plan_order_intents(&self, ctx: &FuturesSleeveContext, risk_budget: &FuturesRiskBudget)
        -> (out: Vec<FuturesOrderIntent>)
        ensures
            out@ == order_intents(self.cfg, *ctx, *risk_budget),
            ctx.engine_health == EngineHealth::Degraded
                || ctx.risk_envelope.portfolio_halt.is_active()
                || ctx.risk_envelope.sleeve_halt.is_active() ==> {
                &&& forall|inst: FutureInstrument|
                    ctx.position(inst) != 0 ==> exists|k: int|
                        0 <= k < out@.len() && #[trigger] out@[k] == (FuturesOrderIntent {
                            instrument: inst,
                            delta_contracts: clamp_delta(-ctx.position(inst)),
                        })
                &&& forall|k: int|
                    0 <= k < out@.len() ==> ctx.position((#[trigger] out@[k]).instrument) != 0
            },
            forall|k: int|
                0 <= k < out@.len() ==> (#[trigger] out@[k]).delta_contracts == wanted_delta(
                    *ctx,
                    contracts_plan(self.cfg, *ctx, *risk_budget),
                    out@[k].instrument,
                ) && out@[k].delta_contracts != 0,
            forall|inst: FutureInstrument|
                #[trigger] wanted_delta(*ctx, contracts_plan(self.cfg, *ctx, *risk_budget), inst)
                    != 0 ==> exists|k: int|
                    0 <= k < out@.len() && (#[trigger] out@[k]).instrument == inst,
            forall|j: int, k: int|
                0 <= j < k < out@.len() ==> (#[trigger] out@[j]).instrument != (
                #[trigger] out@[k]).instrument,
    {
        proof {
            lemma_heartbeat_intents_reach_targets(self.cfg, *ctx, *risk_budget);
            if ctx.engine_health == EngineHealth::Degraded
                || ctx.risk_envelope.portfolio_halt.is_active()
                || ctx.risk_envelope.sleeve_halt.is_active() {
                lemma_flatten_completeness(self.cfg, *ctx, *risk_budget);
            }
        }
        let planned_contracts = self.plan_contracts(ctx, risk_budget);
        reconcile(ctx, &planned_contracts)
    }

    /// The orders of a heartbeat's intents for the sleeve `sleeve_id`: one for each
    /// intent that moves the position, in the order of the intents.
    pub fn map_heartbeat_to_engine_orders(
        &self,
        sleeve_id: SleeveId,
        hb: &MacroFuturesHeartbeatOutput,
    ) -> (out: Vec<EngineOrder>)
        ensures
            out@.len() == tradable_from(hb.order_intents@, 0).len(),
            forall|k: int|
                0 <= k < out@.len() ==> is_order_for(
                    #[trigger] out@[k],
                    sleeve_id,
                    tradable_from(hb.order_intents@, 0)[k],
                ),
    {
        let mut out: Vec<EngineOrder> = Vec::new();
        let mut i: usize = 0;
        let ghost all = tradable_from(hb.order_intents@, 0);
        while i < hb.order_intents.len()
            invariant
                i <= hb.order_intents.len(),
                all == tradable_from(hb.order_intents@, 0),
                out@.len() + tradable_from(hb.order_intents@, i as int).len() == all.len(),
                forall|k: int|
                    0 <= k < tradable_from(hb.order_intents@, i as int).len() ==> all[out@.len()
                        + k] == #[trigger] tradable_from(hb.order_intents@, i as int)[k],
                forall|k: int|
                    0 <= k < out@.len() ==> is_order_for(#[trigger] out@[k], sleeve_id, all[k]),
            decreases hb.order_intents.len() - i,
        {
            let oi = hb.order_intents[i];
            let delta = oi.delta_contracts;
            let ghost here = tradable_from(hb.order_intents@, i as int);
            let ghost rest = tradable_from(hb.order_intents@, i + 1);
            if delta != 0 && delta != i32::MIN {
                let side = if delta > 0 {
                    EngineOrderSide::Buy
                } else {
                    EngineOrderSide::Sell
                };
                let quantity = if delta > 0 {
                    delta
                } else {
                    -delta
                };
                let (symbol, venue) = instrument_metadata(oi.instrument);
                proof {
                    assert(here =~= seq![oi] + rest);
                    assert(all[out@.len() as int] == here[0]);
                    assert forall|k: int| 0 <= k < rest.len() implies all[out@.len() + 1 + k]
                        == #[trigger] rest[k] by {
                        assert(here[k + 1] == rest[k]);
                    }
                }
                out.push(
                    EngineOrder {
                        sleeve_id,
                        instrument: oi.instrument,
                        symbol,
                        venue,
                        side,
                        quantity,
                    },
                );
            } else {
                proof {
                    assert(here =~= rest);
                }
            }
            i = i + 1;
        }
        out
    }
}

/// Whether `inst` has a target in `planned`.
pub fn targets_instrument(planned: &Vec<FuturesPlannedContracts>, inst: FutureInstrument) -> (r:
    bool)
    ensures
        r == has_target(planned@, inst),
{
    let mut i: usize = 0;
    while i < planned.len()
        invariant
            i <= planned.len(),
            forall|j: int| 0 <= j < i ==> (#[trigger] planned@[j]).instrument != inst,
        decreases planned.len() - i,
    {
        if planned[i].instrument == inst {
            return true;
        }
        i = i + 1;
    }
    false
}

/// `target - held` as a change of position.
pub fn delta_between(target: i32, held: i32) -> (d: i32)
    ensures
        d == clamp_delta(target - held),
{
    let wide: i64 = target as i64 - held as i64;
    if wide > i32::MAX as i64 {
        i32::MAX
    } else if wide < i32::MIN as i64 {
        i32::MIN
    } else {
        wide as i32
    }
}

/// The order intents that reconcile the positions of `ctx` with the targets
/// `planned`.
pub fn reconcile(ctx: &FuturesSleeveContext, planned: &Vec<FuturesPlannedContracts>) -> (out: Vec<
    FuturesOrderIntent,
>)
    ensures
        out@ == order_intents_for(*ctx, planned@),
{
    let mut out: Vec<FuturesOrderIntent> = Vec::new();
    let mut i: usize = 0;
    while i < planned.len()
        invariant
            i <= planned.len(),
            out@ + deltas_from(*ctx, planned@, i as int) == deltas_from(*ctx, planned@, 0),
        decreases planned.len() - i,
    {
        let p = planned[i];
        let ghost before = out@;
        let delta = delta_between(p.target_contracts, ctx.position(p.instrument));
        if delta != 0 {
            out.push(FuturesOrderIntent { instrument: p.instrument, delta_contracts: delta });
        }
        assert(out@ + deltas_from(*ctx, planned@, i + 1) =~= before + deltas_from(
            *ctx,
            planned@,
            i as int,
        ));
        i = i + 1;
    }
    assert(out@ + Seq::<FuturesOrderIntent>::empty() =~= out@);
    let ghost moves = out@;
    let mut j: usize = 0;
    while j < INSTRUMENT_COUNT
        invariant
            j <= INSTRUMENT_COUNT,
            moves == deltas_from(*ctx, planned@, 0),
            out@ + flattens_from(*ctx, planned@, j as int) == moves + flattens_from(
                *ctx,
                planned@,
                0,
            ),
        decreases INSTRUMENT_COUNT - j,
    {
        let inst = FutureInstrument::at(j);
        let ghost before = out@;
        let held = ctx.position(inst);
        if held != 0 && !targets_instrument(planned, inst) {
            out.push(
                FuturesOrderIntent { instrument: inst, delta_contracts: delta_between(0, held) },
            );
        }
        assert(out@ + flattens_from(*ctx, planned@, j + 1) =~= before + flattens_from(
            *ctx,
            planned@,
            j as int,
        ));
        j = j + 1;
    }
    assert(out@ + Seq::<FuturesOrderIntent>::empty() =~= out@);
    out
}

} // verus!
