//! From planned notionals to contracts and their risk.
//!
//! Each planned position becomes a whole number of contracts: the share of the
//! position size that it asks for, applied to the instrument's contract budget,
//! at least one contract, and capped by the instrument's budget and by what is
//! left of the sleeve's budget after the instruments before it.
use super::model::{
    FuturesPlannedContracts, FuturesPlannedPosition, FuturesPlannedRisk, FuturesRiskBudget,
    FuturesSleeveContext, InstrumentRiskBudget, MacroFuturesSleeve, MacroFuturesSleeveConfig,
};
use super::positions::{lemma_planned_ascending, planned_positions};
use crate::fixed::{round_div, Fixed, SCALE};
use vstd::prelude::*;

verus! {

/// The sleeve's contract budget as a signed count: what is left of it is counted in
/// an `i32`, so a budget above `i32::MAX` counts as `i32::MAX`.
pub open spec fn contract_cap(max_contracts: u32) -> i32 {
    if max_contracts > i32::MAX {
        i32::MAX
    } else {
        max_contracts as i32
    }
}

/// Share of the position size that a target asks for, between zero and one.
pub open spec fn abs_fraction(target: Fixed, base: Fixed) -> Fixed {
    target.sat_abs().sat_div(base).clamp(Fixed::zero(), Fixed::one())
}

/// Contracts that a share of the instrument's contract budget comes to: the budget
/// times the share, rounded to the nearest whole, and at least one.
pub open spec fn wanted_contracts(max_contracts: u32, abs_frac: Fixed) -> int {
    let rounded = round_div(max_contracts * abs_frac.raw, SCALE as int);
    if rounded <= 0 {
        1
    } else {
        rounded
    }
}

/// Contracts of a planned position: what its share of the instrument's budget comes
/// to, and at most the instrument's budget, `i32::MAX` and what is left of the
/// sleeve's budget; zero where nothing can be held.
pub open spec fn sized_contracts(
    budget: InstrumentRiskBudget,
    base: Fixed,
    p: FuturesPlannedPosition,
    remaining_total: i32,
) -> int {
    let abs_frac = abs_fraction(p.target_notional_usd, base);
    let wanted = wanted_contracts(budget.max_contracts, abs_frac);
    if remaining_total <= 0 || budget.max_contracts == 0 || abs_frac.raw <= 0 || p.target_direction
        == 0 {
        0
    } else if wanted <= budget.max_contracts && wanted <= remaining_total {
        wanted
    } else if budget.max_contracts <= remaining_total {
        budget.max_contracts as int
    } else {
        remaining_total as int
    }
}

/// Risk of one contract: the instrument's risk budget over its contract budget.
pub open spec fn risk_per_contract(budget: InstrumentRiskBudget) -> Fixed {
    budget.max_risk_per_position_eur.sat_div(Fixed::from_int(budget.max_contracts as i64))
}

/// Contracts and risk of a planned position, if it gets any contract and a contract
/// carries a positive risk.
pub open spec fn sized(
    budget: InstrumentRiskBudget,
    base: Fixed,
    p: FuturesPlannedPosition,
    remaining_total: i32,
) -> Option<(FuturesPlannedContracts, FuturesPlannedRisk)> {
    let n = sized_contracts(budget, base, p, remaining_total);
    let signed = if p.target_direction > 0 {
        n as i32
    } else {
        (-n) as i32
    };
    if n <= 0 || risk_per_contract(budget).raw <= 0 {
        None
    } else {
        Some(
            (
                FuturesPlannedContracts { instrument: p.instrument, target_contracts: signed },
                FuturesPlannedRisk {
                    instrument: p.instrument,
                    target_contracts: signed,
                    risk_per_contract_eur: risk_per_contract(budget),
                    total_risk_eur: risk_per_contract(budget).sat_mul(Fixed::from_int(n as i64)),
                },
            ),
        )
    }
}

/// What is left of the sleeve's contract budget after a position was sized.
pub open spec fn remaining_after(
    remaining_total: i32,
    outcome: Option<(FuturesPlannedContracts, FuturesPlannedRisk)>,
) -> i32 {
    match outcome {
        Some((c, _)) => if c.target_contracts >= 0 {
            (remaining_total - c.target_contracts) as i32
        } else {
            (remaining_total + c.target_contracts) as i32
        },
        None => remaining_total,
    }
}

/// The sized positions from place `start` of the planned positions on, with
/// `remaining_total` contracts left to the sleeve.
pub open spec fn sizing_from(
    risk_budget: FuturesRiskBudget,
    base: Fixed,
    planned: Seq<FuturesPlannedPosition>,
    start: int,
    remaining_total: i32,
) -> Seq<(FuturesPlannedContracts, FuturesPlannedRisk)>
    decreases planned.len() - start,
{
    if start < 0 || start >= planned.len() {
        Seq::empty()
    } else {
        let outcome = sized(
            risk_budget.of(planned[start].instrument),
            base,
            planned[start],
            remaining_total,
        );
        (match outcome {
            Some(pair) => seq![pair],
            None => Seq::empty(),
        }) + sizing_from(
            risk_budget,
            base,
            planned,
            start + 1,
            remaining_after(remaining_total, outcome),
        )
    }
}

/// Contracts and risk of every position planned on a heartbeat, in the order of the
/// instruments.
pub open spec fn sized_plan(
    cfg: MacroFuturesSleeveConfig,
    ctx: FuturesSleeveContext,
    risk_budget: FuturesRiskBudget,
) -> Seq<(FuturesPlannedContracts, FuturesPlannedRisk)> {
    if ctx.risk_envelope.max_position_size_usd.raw <= 0 {
        Seq::empty()
    } else {
        sizing_from(
            risk_budget,
            ctx.risk_envelope.max_position_size_usd,
            planned_positions(cfg, ctx),
            0,
            contract_cap(risk_budget.max_total_contracts),
        )
    }
}

/// The target contracts of a heartbeat.
pub open spec fn contracts_plan(
    cfg: MacroFuturesSleeveConfig,
    ctx: FuturesSleeveContext,
    risk_budget: FuturesRiskBudget,
) -> Seq<FuturesPlannedContracts> {
    sized_plan(cfg, ctx, risk_budget).map_values(
        |pair: (FuturesPlannedContracts, FuturesPlannedRisk)| pair.0,
    )
}

/// The risk report of a heartbeat.
pub open spec fn risk_report(
    cfg: MacroFuturesSleeveConfig,
    ctx: FuturesSleeveContext,
    risk_budget: FuturesRiskBudget,
) -> Seq<FuturesPlannedRisk> {
    sized_plan(cfg, ctx, risk_budget).map_values(
        |pair: (FuturesPlannedContracts, FuturesPlannedRisk)| pair.1,
    )
}

/// A sized position holds at least one contract and at most the instrument's budget
/// and what was left of the sleeve's, in the direction planned, and its risk is
/// that of its contracts.
pub proof fn lemma_sized_within_budget(
    budget: InstrumentRiskBudget,
    base: Fixed,
    p: FuturesPlannedPosition,
    remaining_total: i32,
)
    ensures
        sized(budget, base, p, remaining_total) matches Some((c, r)) ==> {
            &&& c.instrument == p.instrument
            &&& r.instrument == p.instrument
            &&& r.target_contracts == c.target_contracts
            &&& c.target_contracts != 0
            &&& (p.target_direction > 0 <==> c.target_contracts > 0)
            &&& -(budget.max_contracts as int) <= c.target_contracts <= budget.max_contracts
            &&& -(remaining_total as int) <= c.target_contracts <= remaining_total
            &&& 0 <= remaining_after(remaining_total, Some((c, r))) < remaining_total
            &&& r.risk_per_contract_eur.raw > 0
        },
{
}

/// Where the planned positions come in the fixed order of the instruments, so do the
/// contracts sized for them.
pub proof fn lemma_sizing_ascending(
    risk_budget: FuturesRiskBudget,
    base: Fixed,
    planned: Seq<FuturesPlannedPosition>,
    start: int,
    remaining_total: i32,
)
    requires
        0 <= start <= planned.len(),
        forall|j: int, k: int|
            0 <= j < k < planned.len() ==> (#[trigger] planned[j]).instrument.rank() < (
            #[trigger] planned[k]).instrument.rank(),
    ensures
        forall|k: int|
            0 <= k < sizing_from(risk_budget, base, planned, start, remaining_total).len()
                ==> start < planned.len() && (#[trigger] sizing_from(
                risk_budget,
                base,
                planned,
                start,
                remaining_total,
            )[k]).0.instrument.rank() >= planned[start].instrument.rank(),
        forall|j: int, k: int|
            0 <= j < k < sizing_from(risk_budget, base, planned, start, remaining_total).len() ==> (
            #[trigger] sizing_from(
                risk_budget,
                base,
                planned,
                start,
                remaining_total,
            )[j]).0.instrument.rank() < (#[trigger] sizing_from(
                risk_budget,
                base,
                planned,
                start,
                remaining_total,
            )[k]).0.instrument.rank(),
    decreases planned.len() - start,
{
    if start < planned.len() {
        let outcome = sized(
            risk_budget.of(planned[start].instrument),
            base,
            planned[start],
            remaining_total,
        );
        let next = remaining_after(remaining_total, outcome);
        lemma_sizing_ascending(risk_budget, base, planned, start + 1, next);
        let rest = sizing_from(risk_budget, base, planned, start + 1, next);
        let head: Seq<(FuturesPlannedContracts, FuturesPlannedRisk)> = match outcome {
            Some(pair) => seq![pair],
            None => Seq::empty(),
        };
        let all = sizing_from(risk_budget, base, planned, start, remaining_total);
        assert(all == head + rest);
        assert forall|k: int| 0 <= k < all.len() implies (#[trigger] all[k]).0.instrument.rank()
            >= planned[start].instrument.rank() by {
            if k >= head.len() {
                assert(all[k] == rest[k - head.len()]);
            }
        }
        assert forall|j: int, k: int| 0 <= j < k < all.len() implies (
        #[trigger] all[j]).0.instrument.rank() < (#[trigger] all[k]).0.instrument.rank() by {
            assert(all[k] == rest[k - head.len()]);
            if j >= head.len() {
                assert(all[j] == rest[j - head.len()]);
            }
        }
    }
}

/// The target contracts of a heartbeat come in the fixed order of the instruments,
/// each instrument at most once.
pub proof fn lemma_contracts_ascending(
    cfg: MacroFuturesSleeveConfig,
    ctx: FuturesSleeveContext,
    risk_budget: FuturesRiskBudget,
)
    ensures
        forall|j: int, k: int|
            0 <= j < k < contracts_plan(cfg, ctx, risk_budget).len() ==> (
            #[trigger] contracts_plan(cfg, ctx, risk_budget)[j]).instrument.rank() < (
            #[trigger] contracts_plan(cfg, ctx, risk_budget)[k]).instrument.rank(),
{
    if ctx.risk_envelope.max_position_size_usd.raw > 0 {
        lemma_planned_ascending(cfg, ctx);
        lemma_sizing_ascending(
            risk_budget,
            ctx.risk_envelope.max_position_size_usd,
            planned_positions(cfg, ctx),
            0,
            contract_cap(risk_budget.max_total_contracts),
        );
        let all = sized_plan(cfg, ctx, risk_budget);
        assert forall|j: int, k: int|
            0 <= j < k < contracts_plan(cfg, ctx, risk_budget).len() implies (
        #[trigger] contracts_plan(cfg, ctx, risk_budget)[j]).instrument.rank() < (
        #[trigger] contracts_plan(cfg, ctx, risk_budget)[k]).instrument.rank() by {
            assert(contracts_plan(cfg, ctx, risk_budget)[j] == all[j].0);
            assert(contracts_plan(cfg, ctx, risk_budget)[k] == all[k].0);
        }
    }
}

impl MacroFuturesSleeve {
    /// Contracts and risk of one planned position with `remaining_total` contracts
    /// left to the sleeve.
    pub fn size_one(
        &self,
        inst_budget: &InstrumentRiskBudget,
        base: Fixed,
        p: &FuturesPlannedPosition,
        remaining_total: i32,
    ) -> (outcome: Option<(FuturesPlannedContracts, FuturesPlannedRisk)>)
        ensures
            outcome == sized(*inst_budget, base, *p, remaining_total),
    {
        if remaining_total <= 0 {
            return None;
        }
        let inst_max_contracts: i64 = inst_budget.max_contracts as i64;
        if inst_max_contracts == 0 {
            return None;
        }
        let abs_frac = p.target_notional_usd.sat_abs().sat_div(base).clamp(
            Fixed::zero(),
            Fixed::one(),
        );
        if abs_frac.raw <= 0 {
            return None;
        }
        if p.target_direction == 0 {
            return None;
        }
        assert(0 <= inst_max_contracts * abs_frac.raw <= 0xffff_ffff * 1_000_000)
            by (nonlinear_arith)
            requires
                0 < inst_max_contracts <= 0xffff_ffff,
                0 < abs_frac.raw <= 1_000_000,
        ;
        let scaled: i64 = inst_max_contracts * abs_frac.raw;
        let rounded: i64 = (2 * scaled + 1_000_000) / 2_000_000;
        let mut abs_contracts: i64 = if rounded <= 0 {
            1
        } else {
            rounded
        };
        if abs_contracts > inst_max_contracts {
            abs_contracts = inst_max_contracts;
        }
        if abs_contracts > remaining_total as i64 {
            abs_contracts = remaining_total as i64;
        }
        let final_target: i32 = if p.target_direction > 0 {
            abs_contracts as i32
        } else {
            -(abs_contracts as i32)
        };
        let risk_per_contract_eur = inst_budget.max_risk_per_position_eur.sat_div(
            Fixed::from_int(inst_max_contracts),
        );
        if risk_per_contract_eur.raw <= 0 {
            return None;
        }
        let total_risk_eur = risk_per_contract_eur.sat_mul(Fixed::from_int(abs_contracts));
        Some(
            (
                FuturesPlannedContracts {
                    instrument: p.instrument,
                    target_contracts: final_target,
                },
                FuturesPlannedRisk {
                    instrument: p.instrument,
                    target_contracts: final_target,
                    risk_per_contract_eur,
                    total_risk_eur,
                },
            ),
        )
    }

    /// Contracts and risk of every position planned on this heartbeat.
    pub fn plan_contracts_with_risk_internal(
        &self,
        ctx: &FuturesSleeveContext,
        risk_budget: &FuturesRiskBudget,
    ) -> (out: Vec<(FuturesPlannedContracts, FuturesPlannedRisk)>)
        ensures
            out@ == sized_plan(self.cfg, *ctx, *risk_budget),
    {
        let planned = self.plan_positions(ctx, risk_budget);
        let base = ctx.risk_envelope.max_position_size_usd;
        if base.raw <= 0 {
            return Vec::new();
        }
        let mut remaining_total: i32 = if risk_budget.max_total_contracts > i32::MAX as u32 {
            i32::MAX
        } else {
            risk_budget.max_total_contracts as i32
        };
        let mut out: Vec<(FuturesPlannedContracts, FuturesPlannedRisk)> = Vec::new();
        let mut i: usize = 0;
        while i < planned.len()
            invariant
                i <= planned.len(),
                base.raw > 0,
                base == ctx.risk_envelope.max_position_size_usd,
                planned@ == planned_positions(self.cfg, *ctx),
                out@ + sizing_from(*risk_budget, base, planned@, i as int, remaining_total)
                    == sized_plan(self.cfg, *ctx, *risk_budget),
            decreases planned.len() - i,
        {
            let p = planned[i];
            let ghost before = out@;
            let ghost remaining_before = remaining_total;
            let inst_budget = risk_budget.of(p.instrument);
            let outcome = self.size_one(&inst_budget, base, &p, remaining_total);
            proof {
                lemma_sized_within_budget(inst_budget, base, p, remaining_total);
            }
            match outcome {
                Some(pair) => {
                    if pair.0.target_contracts >= 0 {
                        remaining_total = remaining_total - pair.0.target_contracts;
                    } else {
                        remaining_total = remaining_total + pair.0.target_contracts;
                    }
                    out.push(pair);
                },
                None => {},
            }
            assert(remaining_total == remaining_after(remaining_before, outcome));
            assert(out@ + sizing_from(*risk_budget, base, planned@, i + 1, remaining_total)
                =~= before + sizing_from(
                *risk_budget,
                base,
                planned@,
                i as int,
                remaining_before,
            ));
            i = i + 1;
        }
        assert(out@ + Seq::<(FuturesPlannedContracts, FuturesPlannedRisk)>::empty() =~= out@);
        out
    }

    /// The target contracts per instrument of this heartbeat.
    pub fn plan_contracts(&self, ctx: &FuturesSleeveContext, risk_budget: &FuturesRiskBudget)
        -> (out: Vec<FuturesPlannedContracts>)
        ensures
            out@ == contracts_plan(self.cfg, *ctx, *risk_budget),
    {
        let pairs = self.plan_contracts_with_risk_internal(ctx, risk_budget);
        let mut out: Vec<FuturesPlannedContracts> = Vec::new();
        let mut i: usize = 0;
        while i < pairs.len()
            invariant
                i <= pairs.len(),
                out@.len() == i,
                forall|j: int| 0 <= j < i ==> #[trigger] out@[j] == pairs@[j].0,
            decreases pairs.len() - i,
        {
            out.push(pairs[i].0);
            i = i + 1;
        }
        assert(out@ =~= pairs@.map_values(
            |pair: (FuturesPlannedContracts, FuturesPlannedRisk)| pair.0,
        ));
        out
    }

    /// The risk per instrument of this heartbeat.
    pub fn plan_risk_report(&self, ctx: &FuturesSleeveContext, risk_budget: &FuturesRiskBudget)
        -> (out: Vec<FuturesPlannedRisk>)
        ensures
            out@ == risk_report(self.cfg, *ctx, *risk_budget),
    {
        let pairs = self.plan_contracts_with_risk_internal(ctx, risk_budget);
        let mut out: Vec<FuturesPlannedRisk> = Vec::new();
        let mut i: usize = 0;
        while i < pairs.len()
            invariant
                i <= pairs.len(),
                out@.len() == i,
                forall|j: int| 0 <= j < i ==> #[trigger] out@[j] == pairs@[j].1,
            decreases pairs.len() - i,
        {
            out.push(pairs[i].1);
            i = i + 1;
        }
        assert(out@ =~= pairs@.map_values(
            |pair: (FuturesPlannedContracts, FuturesPlannedRisk)| pair.1,
        ));
        out
    }
}

} // verus!
