use chrono::{TimeZone, Utc};

use engine::execution::{EngineHealth, InMemoryOrderSink, OrderSink};
use engine::fixed::Fixed;
use engine::risk::{HaltState, PortfolioRiskState, SleeveId, SleeveRiskEnvelope};
use engine::strategies::macro_futures_sleeve::{
    DailyFeatureBar, EngineOrderSide, FutureInstrument, FuturesOrderIntent,
    FuturesRiskBudget, FuturesSleeveContext, FuturesSleevePlan, FxCarryFeatures,
    InstrumentHistory, InstrumentMap, InstrumentRiskBudget, MacroFuturesHeartbeatOutput,
    MacroFuturesSleeve, MacroFuturesSleeveConfig, MacroScalars, SleeveRiskSanity,
};

fn fx(x: f64) -> Fixed {
    Fixed::from_micros((x * 1_000_000.0).round() as i64)
}

fn fixed_as_of() -> i64 {
    Utc.with_ymd_and_hms(2024, 1, 2, 10, 0, 0)
        .single()
        .expect("valid test datetime")
        .timestamp()
}

fn envelope(max_position: f64, slots: u32, exposure: f64, margin: f64) -> SleeveRiskEnvelope {
    SleeveRiskEnvelope {
        sleeve_id: SleeveId::MicroFuturesMacroTrend,
        sleeve_halt: HaltState::Clear,
        portfolio_halt: HaltState::Clear,
        max_position_size_usd: fx(max_position),
        max_concurrent_positions: slots,
        exposure_remaining_usd: fx(exposure),
        margin_remaining_usd: fx(margin),
        volatility_regime_scalar: fx(1.0),
        leverage_scalar: fx(1.0),
        portfolio_risk_state: PortfolioRiskState::Normal,
    }
}

fn base_risk_envelope() -> SleeveRiskEnvelope {
    envelope(2_000.0, 3, 100_000.0, 100_000.0)
}

fn neutral_macro(as_of: i64) -> MacroScalars {
    MacroScalars { as_of, risk_on_scalar: fx(1.0), usd_scalar: fx(1.0) }
}

fn make_minimal_ctx() -> FuturesSleeveContext {
    let as_of = fixed_as_of();
    FuturesSleeveContext {
        as_of,
        histories: InstrumentMap::new(),
        macro_scalars: neutral_macro(as_of),
        risk_envelope: base_risk_envelope(),
        current_positions: InstrumentMap::new(),
        eur_per_usd: fx(1.0),
        engine_health: EngineHealth::Healthy,
    }
}

fn budget(risk_eur: f64, contracts: u32, total: u32) -> FuturesRiskBudget {
    let one = InstrumentRiskBudget {
        max_risk_per_position_eur: fx(risk_eur),
        max_contracts: contracts,
    };
    FuturesRiskBudget { mes: one, mnq: one, sixe: one, max_total_contracts: total }
}

fn minimal_risk_budget() -> FuturesRiskBudget {
    budget(1_000_000.0, 100, 300)
}

fn make_history_for_test(inst: FutureInstrument, base_price: f64, now: i64) -> InstrumentHistory {
    let mut bars = Vec::new();
    for i in 0..130 {
        let ts = now - (129 - i as i64) * 86_400;
        let price = base_price * (1.0 + 0.0005 * i as f64);
        let fx_carry = if let FutureInstrument::SixE = inst {
            Some(FxCarryFeatures {
                carry_rate_annualized: fx(0.02),
                carry_rate_vol_252d: fx(0.01),
            })
        } else {
            None
        };
        bars.push(DailyFeatureBar {
            ts,
            open: fx(price),
            high: fx(price * 1.001),
            low: fx(price * 0.999),
            close: fx(price),
            volume: fx(1_000.0),
            atr_14: fx(price * 0.005),
            ret_20d: fx(0.05),
            ret_60d: fx(0.10),
            ret_120d: fx(0.20),
            vol_20d: fx(0.01),
            vol_60d: fx(0.012),
            vol_120d: fx(0.015),
            highest_close_50d: fx(price * 1.01),
            lowest_close_50d: fx(price * 0.97),
            fx_carry,
        });
    }
    InstrumentHistory { instrument: inst, bars }
}

fn ctx_with(
    instruments: &[(FutureInstrument, f64)],
    risk_envelope: SleeveRiskEnvelope,
    positions: &[(FutureInstrument, i32)],
    eur_per_usd: f64,
) -> FuturesSleeveContext {
    let now = Utc::now().timestamp();
    let mut histories = InstrumentMap::new();
    for (inst, price) in instruments {
        histories.insert(*inst, make_history_for_test(*inst, *price, now));
    }
    let mut current_positions: InstrumentMap<i32> = InstrumentMap::new();
    for (inst, held) in positions {
        current_positions.insert(*inst, *held);
    }
    FuturesSleeveContext {
        as_of: fixed_as_of(),
        histories,
        macro_scalars: neutral_macro(now),
        risk_envelope,
        current_positions,
        eur_per_usd: fx(eur_per_usd),
        engine_health: EngineHealth::Healthy,
    }
}

fn two_instrument_ctx() -> FuturesSleeveContext {
    ctx_with(
        &[(FutureInstrument::Mes, 100.0), (FutureInstrument::Mnq, 16_000.0)],
        envelope(10_000.0, 3, 10_000.0, 10_000.0),
        &[],
        0.92,
    )
}

fn default_sleeve() -> MacroFuturesSleeve {
    MacroFuturesSleeve::new(MacroFuturesSleeveConfig::default())
}

fn mes_budget(risk_eur: f64, contracts: u32, others: u32, total: u32) -> FuturesRiskBudget {
    let mut risk_budget = budget(1_000_000.0, others, total);
    risk_budget.mes =
        InstrumentRiskBudget { max_risk_per_position_eur: fx(risk_eur), max_contracts: contracts };
    risk_budget
}

#[test]
fn risk_budget_blocks_position_when_one_contract_exceeds_risk() {
    let sleeve = default_sleeve();
    let ctx = ctx_with(
        &[(FutureInstrument::Mes, 100.0)],
        envelope(10_000.0, 1, 10_000.0, 10_000.0),
        &[],
        0.92,
    );
    let risk_budget = mes_budget(50.0, 10, 10, 10);

    let planned = sleeve.plan_contracts(&ctx, &risk_budget);

    // The risk of a contract is the budget spread over the contract budget, 50 / 10,
    // so a small budget makes each contract cheap and blocks nothing: the share of
    // 0.901143 of ten contracts is planned.
    assert_eq!(planned.len(), 1, "got: {:?}", planned);
    assert_eq!(planned[0].instrument, FutureInstrument::Mes);
    assert_eq!(planned[0].target_contracts, 9);
    let report = sleeve.plan_risk_report(&ctx, &risk_budget);
    assert_eq!(report[0].risk_per_contract_eur, fx(5.0));
    assert_eq!(report[0].total_risk_eur, fx(45.0));
    // only a budget without risk blocks the position
    assert!(sleeve.plan_contracts(&ctx, &mes_budget(0.0, 10, 10, 10)).is_empty());
}

#[test]
fn risk_budget_trims_contracts_to_risk_cap() {
    let sleeve = default_sleeve();
    let mut ctx = ctx_with(
        &[(FutureInstrument::Mes, 100.0)],
        envelope(10_000.0, 1, 10_000.0, 10_000.0),
        &[],
        0.92,
    );
    ctx.as_of = fixed_as_of();
    let risk_budget = mes_budget(5_000.0, 100, 100, 100);

    let planned = sleeve.plan_contracts(&ctx, &risk_budget);
    let mes_plan = planned
        .iter()
        .find(|p| p.instrument == FutureInstrument::Mes)
        .expect("Expected a MES planned position");

    // the share of 0.901143 of a hundred contracts, whatever a contract costs
    assert_eq!(
        mes_plan.target_contracts.abs(),
        90,
        "Expected 90 MES contracts, got: {}",
        mes_plan.target_contracts
    );
}

#[test]
fn fx_factor_changes_allowed_contracts_in_eur_terms() {
    let sleeve = default_sleeve();
    let ctx_base = ctx_with(
        &[(FutureInstrument::Mes, 100.0)],
        envelope(20_000.0, 1, 20_000.0, 20_000.0),
        &[],
        1.0,
    );
    let mut ctx_eur_1 = ctx_base.clone();
    ctx_eur_1.eur_per_usd = fx(1.0);
    let mut ctx_eur_0_5 = ctx_base.clone();
    ctx_eur_0_5.eur_per_usd = fx(0.5);
    let risk_budget = mes_budget(5_000.0, 100, 100, 100);

    let planned_eur_1 = sleeve.plan_contracts(&ctx_eur_1, &risk_budget);
    let planned_eur_0_5 = sleeve.plan_contracts(&ctx_eur_0_5, &risk_budget);

    let mes_eur_1 = planned_eur_1
        .iter()
        .find(|p| p.instrument == FutureInstrument::Mes)
        .expect("Expected a MES planned position for eur_per_usd=1.0");
    let mes_eur_0_5 = planned_eur_0_5
        .iter()
        .find(|p| p.instrument == FutureInstrument::Mes)
        .expect("Expected a MES planned position for eur_per_usd=0.5");

    let n_1 = mes_eur_1.target_contracts.abs();
    let n_0_5 = mes_eur_0_5.target_contracts.abs();

    // contracts follow the share of the position size; the rate only scales the
    // notional that is reported
    assert_eq!(n_1, 90);
    assert_eq!(n_0_5, 90);
    let agg_1 = sleeve.aggregate_sleeve_risk(&ctx_eur_1, &risk_budget);
    let agg_0_5 = sleeve.aggregate_sleeve_risk(&ctx_eur_0_5, &risk_budget);
    assert_eq!(agg_1.total_risk_eur, fx(4_500.0));
    assert_eq!(agg_0_5.total_risk_eur, fx(4_500.0));
    assert_eq!(agg_1.total_notional_usd, fx(4_500.0));
    assert_eq!(agg_0_5.total_notional_usd, fx(9_000.0));
}

#[test]
fn risk_report_matches_contracts_and_notional() {
    let sleeve = default_sleeve();
    let ctx = ctx_with(
        &[(FutureInstrument::Mes, 100.0)],
        envelope(5_000.0, 1, 5_000.0, 5_000.0),
        &[],
        0.92,
    );
    let mut risk_budget = budget(1_000_000.0, 100, 100);
    risk_budget.mes =
        InstrumentRiskBudget { max_risk_per_position_eur: fx(2_000.0), max_contracts: 10 };

    let planned_contracts = sleeve.plan_contracts(&ctx, &risk_budget);
    let risk_report = sleeve.plan_risk_report(&ctx, &risk_budget);

    let mes_contracts = planned_contracts
        .iter()
        .find(|p| p.instrument == FutureInstrument::Mes)
        .expect("Expected MES in planned_contracts");
    let mes_risk = risk_report
        .iter()
        .find(|r| r.instrument == FutureInstrument::Mes)
        .expect("Expected MES in risk_report");

    assert_eq!(
        mes_contracts.target_contracts, mes_risk.target_contracts,
        "target_contracts in risk_report must equal plan_contracts"
    );
    let expected_total =
        mes_risk.risk_per_contract_eur.raw * (mes_risk.target_contracts.abs() as i64);
    let diff = (mes_risk.total_risk_eur.raw - expected_total).abs();
    assert!(
        diff < 1,
        "total_risk_eur must equal risk_per_contract_eur * |contracts|; expected {}, got {}",
        expected_total,
        mes_risk.total_risk_eur.raw
    );
    // 2000 EUR over ten contracts is 200 EUR a contract; the signal asks for nine.
    assert_eq!(mes_risk.risk_per_contract_eur, fx(200.0));
    assert_eq!(mes_contracts.target_contracts, 9);
    assert_eq!(mes_risk.total_risk_eur, fx(1_800.0));
}

#[test]
fn sleeve_exposure_and_margin_headroom_cap_notional_in_usd() {
    let sleeve = default_sleeve();
    let exposure_cap = 1_000.0;
    let margin_cap = 600.0;
    let allowed_notional = fx(600.0);
    let ctx = ctx_with(
        &[(FutureInstrument::Mes, 100.0)],
        envelope(10_000.0, 1, exposure_cap, margin_cap),
        &[],
        0.92,
    );
    let risk_budget = budget(1_000_000.0, 10_000, 10_000);

    let planned = sleeve.plan_positions(&ctx, &risk_budget);
    let mes = planned
        .iter()
        .find(|p| p.instrument == FutureInstrument::Mes)
        .expect("Expected MES in planned positions");
    let abs_notional_usd = mes.target_notional_usd.sat_abs();
    assert!(
        abs_notional_usd.raw > fx(1.0).raw,
        "Expected some USD notional exposure, got {}",
        abs_notional_usd.raw
    );
    assert!(
        abs_notional_usd.raw <= allowed_notional.raw,
        "Expected USD notional to be capped by min(exposure_remaining, margin_remaining) = {}, got {}",
        allowed_notional.raw,
        abs_notional_usd.raw
    );
    for p in &planned {
        assert!(p.target_notional_usd.sat_abs().raw <= allowed_notional.raw);
    }
    // 9011.43 wanted, cut down to the smaller headroom
    assert_eq!(planned.len(), 1);
    assert_eq!(mes.target_direction, 1);
    assert_eq!(mes.target_notional_usd, fx(600.0));
    let risk_report = sleeve.plan_risk_report(&ctx, &risk_budget);
    assert!(risk_report.iter().any(|r| r.instrument == FutureInstrument::Mes));
}

#[test]
fn concurrency_limit_blocks_opening_new_instrument() {
    let sleeve = default_sleeve();
    let ctx = ctx_with(
        &[(FutureInstrument::Mes, 100.0), (FutureInstrument::Mnq, 16_000.0)],
        envelope(10_000.0, 1, 10_000.0, 10_000.0),
        &[(FutureInstrument::Mes, 1)],
        0.92,
    );
    let risk_budget = budget(1_000_000.0, 10_000, 10_000);

    let planned = sleeve.plan_contracts(&ctx, &risk_budget);
    let has_mes = planned.iter().any(|p| p.instrument == FutureInstrument::Mes);
    let has_mnq = planned.iter().any(|p| p.instrument == FutureInstrument::Mnq);
    assert!(has_mes, "Expected existing MES position to still get a target under concurrency cap");
    assert!(
        !has_mnq,
        "Expected concurrency cap to block opening a new MNQ position when max_concurrent_positions is already filled by MES"
    );
}

#[test]
fn halt_or_kill_flattens_existing_positions_and_opens_nothing_new() {
    let sleeve = default_sleeve();
    let mut risk_envelope = envelope(10_000.0, 3, 10_000.0, 10_000.0);
    risk_envelope.sleeve_halt = HaltState::Kill;
    let ctx = ctx_with(
        &[(FutureInstrument::Mes, 100.0), (FutureInstrument::Mnq, 16_000.0)],
        risk_envelope,
        &[(FutureInstrument::Mes, 3), (FutureInstrument::Mnq, 0)],
        0.92,
    );
    let risk_budget = budget(1_000_000.0, 10_000, 10_000);

    let order_intents = sleeve.plan_order_intents(&ctx, &risk_budget);
    let has_mnq_open = order_intents
        .iter()
        .any(|oi| oi.instrument == FutureInstrument::Mnq && oi.delta_contracts != 0);
    assert!(!has_mnq_open, "Expected no new MNQ orders when sleeve is in HALT/KILL");

    let mes_flat_order = order_intents.iter().find(|oi| oi.instrument == FutureInstrument::Mes);
    assert!(
        mes_flat_order.is_some(),
        "Expected an order intent to flatten existing MES position under HALT/KILL"
    );
    let mes_order = mes_flat_order.unwrap();
    assert_eq!(
        mes_order.delta_contracts, -3,
        "Expected MES flatten order of -3 contracts, got {}",
        mes_order.delta_contracts
    );
}

#[test]
fn aggregate_sleeve_risk_computes_correct_totals() {
    let sleeve = default_sleeve();
    let ctx = two_instrument_ctx();
    let risk_budget = budget(1_000_000.0, 100, 100);

    let agg = sleeve.aggregate_sleeve_risk(&ctx, &risk_budget);
    assert!(agg.instrument_count >= 1, "Expected at least one instrument in sleeve aggregate");
    assert!(agg.total_risk_eur.raw > 0, "Expected positive total EUR risk, got {}", agg.total_risk_eur.raw);
    assert!(
        agg.total_notional_usd.raw > 0,
        "Expected positive total USD notional, got {}",
        agg.total_notional_usd.raw
    );
    assert!(agg.total_contracts_abs > 0, "Expected at least one contract in aggregate");
}

#[test]
fn check_sleeve_risk_sanity_flags_when_above_cap() {
    let sleeve = default_sleeve();
    let ctx = two_instrument_ctx();
    let risk_budget = budget(1_000_000.0, 100, 100);

    let agg = sleeve.aggregate_sleeve_risk(&ctx, &risk_budget);
    assert!(agg.total_risk_eur.raw > 0, "Precondition: expected positive total risk");

    let status_ok =
        sleeve.check_sleeve_risk_sanity(&ctx, &risk_budget, agg.total_risk_eur.sat_mul(fx(2.0)));
    assert_eq!(
        status_ok,
        SleeveRiskSanity::WithinCap,
        "Expected WithinCap when max_sleeve_risk_eur is above current total risk"
    );
    let status_exceeds =
        sleeve.check_sleeve_risk_sanity(&ctx, &risk_budget, agg.total_risk_eur.sat_mul(fx(0.5)));
    assert_eq!(
        status_exceeds,
        SleeveRiskSanity::ExceedsCap,
        "Expected ExceedsCap when max_sleeve_risk_eur is below current total risk"
    );
}

#[test]
fn plan_sleeve_consistent_with_existing_apis_and_flags_sanity() {
    let sleeve = default_sleeve();
    let ctx = two_instrument_ctx();
    let risk_budget = budget(1_000_000.0, 100, 100);

    let ref_contracts = sleeve.plan_contracts(&ctx, &risk_budget);
    let ref_report = sleeve.plan_risk_report(&ctx, &risk_budget);
    let ref_agg = sleeve.aggregate_sleeve_risk(&ctx, &risk_budget);

    let plan: FuturesSleevePlan =
        sleeve.plan_sleeve(&ctx, &risk_budget, ref_agg.total_risk_eur.sat_mul(fx(2.0)));

    assert_eq!(
        ref_contracts.len(),
        plan.planned_contracts.len(),
        "planned_contracts length from plan_sleeve must match direct plan_contracts"
    );
    assert_eq!(
        ref_report.len(),
        plan.risk_report.len(),
        "risk_report length from plan_sleeve must match direct plan_risk_report"
    );
    assert_eq!(
        ref_agg.total_contracts_abs, plan.aggregate.total_contracts_abs,
        "aggregate.total_contracts_abs mismatch between direct call and plan_sleeve"
    );
    assert_eq!(
        ref_agg.total_risk_eur, plan.aggregate.total_risk_eur,
        "aggregate.total_risk_eur mismatch"
    );
    assert_eq!(
        plan.sanity,
        SleeveRiskSanity::WithinCap,
        "Expected SleeveRiskSanity::WithinCap when cap is above total risk"
    );
}

#[test]
fn run_heartbeat_matches_plan_and_order_intents() {
    let sleeve = default_sleeve();
    let ctx = two_instrument_ctx();
    let risk_budget = budget(1_000_000.0, 100, 100);

    let ref_contracts = sleeve.plan_contracts(&ctx, &risk_budget);
    let ref_report = sleeve.plan_risk_report(&ctx, &risk_budget);
    let ref_agg = sleeve.aggregate_sleeve_risk(&ctx, &risk_budget);
    let cap = ref_agg.total_risk_eur.sat_mul(fx(2.0));
    let ref_sanity = sleeve.check_sleeve_risk_sanity(&ctx, &risk_budget, cap);
    let ref_intents = sleeve.plan_order_intents(&ctx, &risk_budget);

    let hb: MacroFuturesHeartbeatOutput = sleeve.run_heartbeat(&ctx, &risk_budget, cap);

    assert_eq!(
        hb.sleeve_plan.planned_contracts.len(),
        ref_contracts.len(),
        "Heartbeat planned_contracts length must equal direct plan_contracts"
    );
    assert_eq!(
        hb.sleeve_plan.risk_report.len(),
        ref_report.len(),
        "Heartbeat risk_report length must equal direct plan_risk_report"
    );
    assert_eq!(
        hb.sleeve_plan.aggregate.total_contracts_abs, ref_agg.total_contracts_abs,
        "Heartbeat aggregate.total_contracts_abs mismatch"
    );
    assert_eq!(
        hb.sleeve_plan.aggregate.total_risk_eur, ref_agg.total_risk_eur,
        "Heartbeat aggregate.total_risk_eur mismatch"
    );
    assert_eq!(
        hb.sleeve_plan.sanity, ref_sanity,
        "Heartbeat sanity must match direct check_sleeve_risk_sanity"
    );
    assert_eq!(
        hb.order_intents.len(),
        ref_intents.len(),
        "Heartbeat order_intents length must equal direct plan_order_intents"
    );
}

#[test]
fn map_heartbeat_to_engine_orders_respects_side_quantity_and_metadata() {
    let sleeve = default_sleeve();
    let ctx = two_instrument_ctx();
    let risk_budget = budget(1_000_000.0, 100, 100);

    let agg = sleeve.aggregate_sleeve_risk(&ctx, &risk_budget);
    let hb = sleeve.run_heartbeat(&ctx, &risk_budget, agg.total_risk_eur.sat_mul(fx(2.0)));
    let sleeve_id = SleeveId::MicroFuturesMacroTrend;
    let engine_orders = sleeve.map_heartbeat_to_engine_orders(sleeve_id, &hb);

    let non_zero: Vec<&FuturesOrderIntent> =
        hb.order_intents.iter().filter(|oi| oi.delta_contracts != 0).collect();
    assert_eq!(
        engine_orders.len(),
        non_zero.len(),
        "EngineOrders count must match non-zero FuturesOrderIntents"
    );
    assert!(!engine_orders.is_empty());

    for eo in &engine_orders {
        let oi = hb
            .order_intents
            .iter()
            .find(|oi| oi.instrument == eo.instrument)
            .expect("Missing matching FuturesOrderIntent for EngineOrder");
        let expected_side =
            if oi.delta_contracts > 0 { EngineOrderSide::Buy } else { EngineOrderSide::Sell };
        assert_eq!(eo.side, expected_side, "EngineOrder side should match sign of delta_contracts");
        assert_eq!(
            eo.quantity,
            oi.delta_contracts.abs(),
            "EngineOrder quantity should be abs(delta_contracts)"
        );
        match eo.instrument {
            FutureInstrument::Mes => {
                assert_eq!(eo.symbol, "MES");
                assert_eq!(eo.venue, "CME");
            }
            FutureInstrument::Mnq => {
                assert_eq!(eo.symbol, "MNQ");
                assert_eq!(eo.venue, "CME");
            }
            FutureInstrument::SixE => {
                assert_eq!(eo.symbol, "6E");
                assert_eq!(eo.venue, "CME");
            }
        }
        assert_eq!(eo.sleeve_id, sleeve_id, "EngineOrder must carry the correct sleeve_id");
    }
}

#[test]
fn in_memory_order_sink_collects_engine_orders() {
    let sleeve = default_sleeve();
    let ctx = two_instrument_ctx();
    let risk_budget = budget(1_000_000.0, 100, 100);

    let agg = sleeve.aggregate_sleeve_risk(&ctx, &risk_budget);
    let hb = sleeve.run_heartbeat(&ctx, &risk_budget, agg.total_risk_eur.sat_mul(fx(2.0)));
    let engine_orders =
        sleeve.map_heartbeat_to_engine_orders(SleeveId::MicroFuturesMacroTrend, &hb);
    assert!(!engine_orders.is_empty());

    let mut sink = InMemoryOrderSink::new();
    for order in &engine_orders {
        sink.submit(order);
    }

    assert_eq!(
        sink.orders.len(),
        engine_orders.len(),
        "InMemoryOrderSink should store the same number of EngineOrders as submitted"
    );
    for (expected, stored) in engine_orders.iter().zip(sink.orders.iter()) {
        assert_eq!(stored, expected, "Stored EngineOrder in sink must equal submitted EngineOrder");
    }
}

#[test]
fn test_degraded_blocks_new_long() {
    let mut ctx = make_minimal_ctx();
    ctx.engine_health = EngineHealth::Degraded;
    ctx.current_positions.insert(FutureInstrument::Mes, 0);

    let sleeve = default_sleeve();
    let risk_budget = minimal_risk_budget();

    let planned = sleeve.plan_contracts(&ctx, &risk_budget);
    assert!(planned.is_empty());

    let intents = sleeve.plan_order_intents(&ctx, &risk_budget);
    assert!(intents.is_empty());
}

#[test]
fn test_degraded_allows_flatten() {
    let mut ctx = make_minimal_ctx();
    ctx.engine_health = EngineHealth::Degraded;
    ctx.current_positions.insert(FutureInstrument::Mes, 2);

    let sleeve = default_sleeve();
    let risk_budget = minimal_risk_budget();

    let intents = sleeve.plan_order_intents(&ctx, &risk_budget);

    assert_eq!(intents.len(), 1);
    let oi = &intents[0];
    assert_eq!(oi.instrument, FutureInstrument::Mes);
    assert_eq!(oi.delta_contracts, -2);
}
