//! The sleeve's plan of a heartbeat: contracts, risk, their totals and the check of
//! the total risk against the sleeve's cap.
use super::contracts::{
    contract_cap, contracts_plan, lemma_sized_within_budget, remaining_after, risk_report, sized,
    sizing_from,
};
use super::model::{
    FuturesPlannedContracts, FuturesPlannedPosition, FuturesPlannedRisk, FuturesRiskBudget,
    FuturesSleeveAggregate, FuturesSleeveContext, FuturesSleevePlan,
    MacroFuturesHeartbeatOutput, MacroFuturesSleeve, MacroFuturesSleeveConfig, SleeveRiskSanity,
};
use super::orders::order_intents;
use super::instruments::INSTRUMENT_COUNT;
use super::positions::{lemma_planned_count, planned_positions};
use crate::fixed::Fixed;
use vstd::prelude::*;

verus! {

/// Running totals over a risk report.
pub struct Totals {
    pub signed: int,
    pub abs: int,
    pub risk: Fixed,
    pub notional: Fixed,
    pub count: nat,
}

/// The totals of a risk report, added up entry by entry from the first. Entries
/// without contracts count for nothing. The notional of an entry is its risk in
/// euros over the euros per dollar.
pub open spec fn totals_of(report: Seq<FuturesPlannedRisk>, eur_per_usd: Fixed) -> Totals
    decreases report.len(),
{
    if report.len() == 0 {
        Totals { signed: 0, abs: 0, risk: Fixed::zero(), notional: Fixed::zero(), count: 0 }
    } else {
        let before = totals_of(report.drop_last(), eur_per_usd);
        let r = report.last();
        if r.target_contracts == 0 {
            before
        } else {
            Totals {
                signed: before.signed + r.target_contracts,
                abs: before.abs + if r.target_contracts >= 0 {
                    r.target_contracts as int
                } else {
                    -(r.target_contracts as int)
                },
                risk: before.risk.sat_add(r.total_risk_eur),
                notional: before.notional.sat_add(r.total_risk_eur.sat_div(eur_per_usd)),
                count: before.count + 1,
            }
        }
    }
}

/// `x` brought into the range of `i32`.
pub open spec fn clamp_i32(x: int) -> i32 {
    if x > i32::MAX {
        i32::MAX
    } else if x < i32::MIN {
        i32::MIN
    } else {
        x as i32
    }
}

/// The aggregate of a risk report.
pub open spec fn aggregate_of(report: Seq<FuturesPlannedRisk>, eur_per_usd: Fixed)
    -> FuturesSleeveAggregate {
    let t = totals_of(report, eur_per_usd);
    FuturesSleeveAggregate {
        total_contracts_signed: clamp_i32(t.signed),
        total_contracts_abs: clamp_i32(t.abs),
        total_risk_eur: t.risk,
        total_notional_usd: t.notional,
        instrument_count: t.count as usize,
    }
}

/// The aggregate of a heartbeat.
pub open spec fn sleeve_aggregate(
    cfg: MacroFuturesSleeveConfig,
    ctx: FuturesSleeveContext,
    risk_budget: FuturesRiskBudget,
) -> FuturesSleeveAggregate {
    aggregate_of(risk_report(cfg, ctx, risk_budget), ctx.eur_per_usd)
}

/// The check of a total risk against a cap; a cap that is not positive is no cap.
pub open spec fn sanity_of(total_risk_eur: Fixed, max_sleeve_risk_eur: Fixed) -> SleeveRiskSanity {
    if max_sleeve_risk_eur.raw <= 0 {
        SleeveRiskSanity::WithinCap
    } else if total_risk_eur.raw > max_sleeve_risk_eur.raw {
        SleeveRiskSanity::ExceedsCap
    } else {
        SleeveRiskSanity::WithinCap
    }
}

proof fn lemma_totals_bounded(report: Seq<FuturesPlannedRisk>, eur_per_usd: Fixed)
    ensures
        ({
            let t = totals_of(report, eur_per_usd);
            &&& 0 <= t.abs <= report.len() * 0x8000_0000
            &&& -t.abs <= t.signed <= t.abs
            &&& t.count <= report.len()
        }),
    decreases report.len(),
{
    if report.len() > 0 {
        lemma_totals_bounded(report.drop_last(), eur_per_usd);
        assert(report.len() * 0x8000_0000 == report.drop_last().len() * 0x8000_0000 + 0x8000_0000)
            by (nonlinear_arith)
            requires
                report.len() == report.drop_last().len() + 1,
        ;
    }
}

proof fn lemma_totals_concat(
    head: Seq<FuturesPlannedRisk>,
    rest: Seq<FuturesPlannedRisk>,
    eur_per_usd: Fixed,
)
    ensures
        totals_of(head + rest, eur_per_usd).abs == totals_of(head, eur_per_usd).abs + totals_of(
            rest,
            eur_per_usd,
        ).abs,
    decreases rest.len(),
{
    if rest.len() == 0 {
        assert(head + rest =~= head);
    } else {
        assert((head + rest).drop_last() =~= head + rest.drop_last());
        assert((head + rest).last() == rest.last());
        lemma_totals_concat(head, rest.drop_last(), eur_per_usd);
    }
}

proof fn lemma_sizing_within_total(
    risk_budget: FuturesRiskBudget,
    base: Fixed,
    planned: Seq<FuturesPlannedPosition>,
    start: int,
    remaining_total: i32,
    eur_per_usd: Fixed,
)
    requires
        0 <= start <= planned.len(),
    ensures
        totals_of(
            sizing_from(risk_budget, base, planned, start, remaining_total).map_values(
                |pair: (FuturesPlannedContracts, FuturesPlannedRisk)| pair.1,
            ),
            eur_per_usd,
        ).abs <= if remaining_total > 0 {
            remaining_total as int
        } else {
            0
        },
        sizing_from(risk_budget, base, planned, start, remaining_total).len() <= planned.len()
            - start,
        forall|k: int|
            0 <= k < sizing_from(risk_budget, base, planned, start, remaining_total).len() ==> {
                let pair = #[trigger] sizing_from(
                    risk_budget,
                    base,
                    planned,
                    start,
                    remaining_total,
                )[k];
                &&& pair.0.target_contracts == pair.1.target_contracts
                &&& pair.0.instrument == pair.1.instrument
                &&& pair.0.target_contracts != 0
                &&& -(risk_budget.of(pair.0.instrument).max_contracts as int)
                    <= pair.0.target_contracts <= risk_budget.of(pair.0.instrument).max_contracts
            },
    decreases planned.len() - start,
{
    let second = |pair: (FuturesPlannedContracts, FuturesPlannedRisk)| pair.1;
    let all = sizing_from(risk_budget, base, planned, start, remaining_total);
    if start < planned.len() {
        let outcome = sized(
            risk_budget.of(planned[start].instrument),
            base,
            planned[start],
            remaining_total,
        );
        let next = remaining_after(remaining_total, outcome);
        lemma_sized_within_budget(
            risk_budget.of(planned[start].instrument),
            base,
            planned[start],
            remaining_total,
        );
        lemma_sizing_within_total(risk_budget, base, planned, start + 1, next, eur_per_usd);
        let rest = sizing_from(risk_budget, base, planned, start + 1, next);
        let head: Seq<(FuturesPlannedContracts, FuturesPlannedRisk)> = match outcome {
            Some(pair) => seq![pair],
            None => Seq::empty(),
        };
        assert(all == head + rest);
        assert(all.map_values(second) =~= head.map_values(second) + rest.map_values(second));
        lemma_totals_concat(head.map_values(second), rest.map_values(second), eur_per_usd);
        let none = Seq::<FuturesPlannedRisk>::empty();
        assert(totals_of(none, eur_per_usd).abs == 0);
        if outcome is Some {
            let one = head.map_values(second);
            assert(one.drop_last() =~= none);
            assert(one.last() == outcome.unwrap().1);
            assert(totals_of(one, eur_per_usd).abs == totals_of(one.drop_last(), eur_per_usd).abs
                + if one.last().target_contracts >= 0 {
                one.last().target_contracts as int
            } else {
                -(one.last().target_contracts as int)
            });
        } else {
            assert(head.map_values(second) =~= none);
        }
        assert forall|k: int| 0 <= k < all.len() implies {
            let pair = #[trigger] all[k];
            &&& pair.0.target_contracts == pair.1.target_contracts
            &&& pair.0.instrument == pair.1.instrument
            &&& pair.0.target_contracts != 0
            &&& -(risk_budget.of(pair.0.instrument).max_contracts as int)
                <= pair.0.target_contracts <= risk_budget.of(pair.0.instrument).max_contracts
        } by {
            if k >= head.len() {
                assert(all[k] == rest[k - head.len()]);
            }
        }
    } else {
        assert(all.map_values(second) =~= Seq::<FuturesPlannedRisk>::empty());
        assert(totals_of(Seq::<FuturesPlannedRisk>::empty(), eur_per_usd).abs == 0);
    }
}

/// The contracts planned on a heartbeat stay within the budgets: each instrument
/// holds at least one contract and at most its own budget, all instruments together
/// hold at most the sleeve's budget, and the aggregate counts them exactly.
pub proof fn lemma_contracts_within_budget(
    cfg: MacroFuturesSleeveConfig,
    ctx: FuturesSleeveContext,
    risk_budget: FuturesRiskBudget,
)
    ensures
        ({
            let totals = totals_of(risk_report(cfg, ctx, risk_budget), ctx.eur_per_usd);
            let agg = sleeve_aggregate(cfg, ctx, risk_budget);
            &&& 0 <= totals.abs <= risk_budget.max_total_contracts
            &&& agg.total_contracts_abs == totals.abs
            &&& agg.total_contracts_signed == totals.signed
            &&& -agg.total_contracts_abs <= agg.total_contracts_signed <= agg.total_contracts_abs
            &&& agg.instrument_count == totals.count
            &&& agg.instrument_count <= risk_report(cfg, ctx, risk_budget).len()
            &&& risk_report(cfg, ctx, risk_budget).len() <= INSTRUMENT_COUNT
        }),
        risk_report(cfg, ctx, risk_budget).len() == contracts_plan(cfg, ctx, risk_budget).len(),
        forall|k: int|
            0 <= k < contracts_plan(cfg, ctx, risk_budget).len() ==> {
                let c = #[trigger] contracts_plan(cfg, ctx, risk_budget)[k];
                let r = risk_report(cfg, ctx, risk_budget)[k];
                &&& c.target_contracts == r.target_contracts
                &&& c.instrument == r.instrument
                &&& c.target_contracts != 0
                &&& -(risk_budget.of(c.instrument).max_contracts as int) <= c.target_contracts
                    <= risk_budget.of(c.instrument).max_contracts
            },
{
    let report = risk_report(cfg, ctx, risk_budget);
    lemma_totals_bounded(report, ctx.eur_per_usd);
    let base = ctx.risk_envelope.max_position_size_usd;
    lemma_planned_count(cfg, ctx);
    if base.raw <= 0 {
        assert(report =~= Seq::<FuturesPlannedRisk>::empty());
        assert(contracts_plan(cfg, ctx, risk_budget) =~= Seq::<FuturesPlannedContracts>::empty());
        assert(totals_of(Seq::<FuturesPlannedRisk>::empty(), ctx.eur_per_usd).abs == 0);
    }
    if base.raw > 0 {
        lemma_sizing_within_total(
            risk_budget,
            base,
            planned_positions(cfg, ctx),
            0,
            contract_cap(risk_budget.max_total_contracts),
            ctx.eur_per_usd,
        );
        let all = sizing_from(
            risk_budget,
            base,
            planned_positions(cfg, ctx),
            0,
            contract_cap(risk_budget.max_total_contracts),
        );
        assert forall|k: int| 0 <= k < contracts_plan(cfg, ctx, risk_budget).len() implies {
            let c = #[trigger] contracts_plan(cfg, ctx, risk_budget)[k];
            let r = risk_report(cfg, ctx, risk_budget)[k];
            &&& c.target_contracts == r.target_contracts
            &&& c.instrument == r.instrument
            &&& c.target_contracts != 0
            &&& -(risk_budget.of(c.instrument).max_contracts as int) <= c.target_contracts
                <= risk_budget.of(c.instrument).max_contracts
        } by {
            assert(contracts_plan(cfg, ctx, risk_budget)[k] == all[k].0);
            assert(risk_report(cfg, ctx, risk_budget)[k] == all[k].1);
        }
    }
}

/// The aggregate of a risk report.
pub fn aggregate_report(report: &Vec<FuturesPlannedRisk>, eur_per_usd: Fixed) -> (agg:
    FuturesSleeveAggregate)
    ensures
        agg == aggregate_of(report@, eur_per_usd),
{
    let mut total_signed: i128 = 0;
    let mut total_abs: i128 = 0;
    let mut total_risk_eur = Fixed::zero();
    let mut total_notional_usd = Fixed::zero();
    let mut instrument_count: usize = 0;
    let mut i: usize = 0;
    while i < report.len()
        invariant
            i <= report.len(),
            total_signed == totals_of(report@.take(i as int), eur_per_usd).signed,
            total_abs == totals_of(report@.take(i as int), eur_per_usd).abs,
            total_risk_eur == totals_of(report@.take(i as int), eur_per_usd).risk,
            total_notional_usd == totals_of(report@.take(i as int), eur_per_usd).notional,
            instrument_count == totals_of(report@.take(i as int), eur_per_usd).count,
        decreases report.len() - i,
    {
        proof {
            assert(report@.take(i + 1).drop_last() =~= report@.take(i as int));
            lemma_totals_bounded(report@.take(i as int), eur_per_usd);
            lemma_totals_bounded(report@.take(i + 1), eur_per_usd);
            assert(i * 0x8000_0000 <= 0xffff_ffff_ffff_ffff * 0x8000_0000) by (nonlinear_arith)
                requires
                    i <= 0xffff_ffff_ffff_ffff,
            ;
        }
        let r = report[i];
        if r.target_contracts != 0 {
            total_signed = total_signed + r.target_contracts as i128;
            total_abs = total_abs + if r.target_contracts >= 0 {
                r.target_contracts as i128
            } else {
                -(r.target_contracts as i128)
            };
            total_risk_eur = total_risk_eur.sat_add(r.total_risk_eur);
            total_notional_usd = total_notional_usd.sat_add(r.total_risk_eur.sat_div(eur_per_usd));
            instrument_count = instrument_count + 1;
        }
        i = i + 1;
    }
    proof {
        assert(report@.take(i as int) =~= report@);
    }
    FuturesSleeveAggregate {
        total_contracts_signed: clamp_wide(total_signed),
        total_contracts_abs: clamp_wide(total_abs),
        total_risk_eur,
        total_notional_usd,
        instrument_count,
    }
}

fn clamp_wide(x: i128) -> (r: i32)
    ensures
        r == clamp_i32(x as int),
{
    if x > i32::MAX as i128 {
        i32::MAX
    } else if x < i32::MIN as i128 {
        i32::MIN
    } else {
        x as i32
    }
}

impl MacroFuturesSleeve {
    /// The totals of this heartbeat's risk report.
    pub fn aggregate_sleeve_risk(&self, ctx: &FuturesSleeveContext, risk_budget: &FuturesRiskBudget)
        -> (agg: FuturesSleeveAggregate)
        ensures
            agg == sleeve_aggregate(self.cfg, *ctx, *risk_budget),
            0 <= agg.total_contracts_abs <= risk_budget.max_total_contracts,
            -agg.total_contracts_abs <= agg.total_contracts_signed <= agg.total_contracts_abs,
            agg.instrument_count <= INSTRUMENT_COUNT,
    {
        proof {
            lemma_contracts_within_budget(self.cfg, *ctx, *risk_budget);
        }
        let report = self.plan_risk_report(ctx, risk_budget);
        aggregate_report(&report, ctx.eur_per_usd)
    }

    /// Checks the total risk of this heartbeat against the sleeve's cap; a cap that
    /// is not positive is no cap.
    pub fn check_sleeve_risk_sanity(
        &self,
        ctx: &FuturesSleeveContext,
        risk_budget: &FuturesRiskBudget,
        max_sleeve_risk_eur: Fixed,
    ) -> (sanity: SleeveRiskSanity)
        ensures
            sanity == sanity_of(
                sleeve_aggregate(self.cfg, *ctx, *risk_budget).total_risk_eur,
                max_sleeve_risk_eur,
            ),
    {
        if max_sleeve_risk_eur.raw <= 0 {
            return SleeveRiskSanity::WithinCap;
        }
        let agg = self.aggregate_sleeve_risk(ctx, risk_budget);
        if agg.total_risk_eur.raw > max_sleeve_risk_eur.raw {
            SleeveRiskSanity::ExceedsCap
        } else {
            SleeveRiskSanity::WithinCap
        }
    }

    /// The whole plan of this heartbeat: contracts, risk, totals and the check
    /// against the sleeve's cap.
    pub fn plan_sleeve(
        &self,
        ctx: &FuturesSleeveContext,
        risk_budget: &FuturesRiskBudget,
        max_sleeve_risk_eur: Fixed,
    ) -> (plan: FuturesSleevePlan)
        ensures
            plan.planned_contracts@ == contracts_plan(self.cfg, *ctx, *risk_budget),
            plan.risk_report@ == risk_report(self.cfg, *ctx, *risk_budget),
            plan.aggregate == sleeve_aggregate(self.cfg, *ctx, *risk_budget),
            plan.sanity == sanity_of(plan.aggregate.total_risk_eur, max_sleeve_risk_eur),
    {
        let planned_contracts = self.plan_contracts(ctx, risk_budget);
        let risk_report = self.plan_risk_report(ctx, risk_budget);
        let aggregate = self.aggregate_sleeve_risk(ctx, risk_budget);
        let sanity = self.check_sleeve_risk_sanity(ctx, risk_budget, max_sleeve_risk_eur);
        FuturesSleevePlan { planned_contracts, risk_report, aggregate, sanity }
    }

    /// One heartbeat of the sleeve: its plan and the order intents that lead to it.
    pub fn run_heartbeat(
        &self,
        ctx: &FuturesSleeveContext,
        risk_budget: &FuturesRiskBudget,
        max_sleeve_risk_eur: Fixed,
    ) -> (hb: MacroFuturesHeartbeatOutput)
        ensures
            hb.sleeve_plan.planned_contracts@ == contracts_plan(self.cfg, *ctx, *risk_budget),
            hb.sleeve_plan.risk_report@ == risk_report(self.cfg, *ctx, *risk_budget),
            hb.sleeve_plan.aggregate == sleeve_aggregate(self.cfg, *ctx, *risk_budget),
            hb.sleeve_plan.sanity == sanity_of(
                hb.sleeve_plan.aggregate.total_risk_eur,
                max_sleeve_risk_eur,
            ),
            hb.order_intents@ == order_intents(self.cfg, *ctx, *risk_budget),
    {
        let sleeve_plan = self.plan_sleeve(ctx, risk_budget, max_sleeve_risk_eur);
        let order_intents = self.plan_order_intents(ctx, risk_budget);
        MacroFuturesHeartbeatOutput { sleeve_plan, order_intents }
    }
}

} // verus!
