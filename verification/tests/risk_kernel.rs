use chrono::Utc;

use engine::execution::EngineHealth;
use engine::fixed::Fixed;
use engine::risk::kernel::{
    classify_drawdown, compute_drawdown, derive_leverage_scalar, derive_volatility_scalar,
    find_sleeve_config, sum_open_positions,
};
use engine::risk::{
    evaluate_new_position_risk, GlobalRiskKernel, GlobalRiskKernelConfig, HaltState, MarginState,
    PortfolioRiskConfig, PortfolioRiskState, PortfolioState, RiskDecisionReason, SleeveId,
    SleeveRiskConfig, SleeveRiskEnvelope, SleeveState, VolatilityRegime,
};
use engine::strategies::macro_futures_sleeve::{
    DailyFeatureBar, FutureInstrument, FuturesRiskBudget, FuturesSleeveContext, FxCarryFeatures,
    InstrumentHistory, InstrumentMap, InstrumentRiskBudget, MacroFuturesSleeve,
    MacroFuturesSleeveConfig, MacroScalars, SleeveRiskSanity,
};

fn fx(x: f64) -> Fixed {
    Fixed::from_micros((x * 1_000_000.0).round() as i64)
}

fn portfolio_cfg(max_global_positions: u32) -> PortfolioRiskConfig {
    PortfolioRiskConfig {
        initial_equity_usd: fx(10_000.0),
        halt_dd_frac: fx(-0.08),
        kill_dd_frac: fx(-0.12),
        max_leverage: fx(1.5),
        rebalance_drift_frac: fx(0.15),
        max_global_positions,
    }
}

fn sleeve_cfg(id: SleeveId, max_concurrent_positions: u32) -> SleeveRiskConfig {
    SleeveRiskConfig {
        sleeve_id: id,
        capital_alloc_usd: fx(2_000.0),
        max_single_pos_risk_frac: fx(0.01),
        halt_dd_frac: fx(-0.10),
        kill_dd_frac: fx(-0.15),
        max_concurrent_positions,
    }
}

fn sleeve_state(id: SleeveId, equity: f64, peak: f64, open_positions: u32) -> SleeveState {
    SleeveState {
        sleeve_id: id,
        equity_usd: fx(equity),
        realized_pnl_usd: fx(0.0),
        unrealized_pnl_usd: fx(0.0),
        peak_equity_usd: fx(peak),
        open_positions,
    }
}

fn portfolio(cash: f64, exposure: f64, leverage: f64) -> PortfolioState {
    PortfolioState {
        cash_usd: fx(cash),
        open_pnl_usd: fx(0.0),
        accrued_interest_usd: fx(0.0),
        peak_equity_usd: fx(cash),
        total_notional_exposure: fx(exposure),
        current_leverage: fx(leverage),
    }
}

fn margin(internal: f64, broker: f64) -> MarginState {
    MarginState {
        internal_margin_req_usd: fx(internal),
        broker_margin_req_usd: fx(broker),
        equity_usd: fx(10_000.0),
    }
}

fn vol(rv: f64, vix: f64, slope: f64) -> VolatilityRegime {
    VolatilityRegime {
        rv10_annualized: fx(rv),
        vix_level: fx(vix),
        vix_term_slope: fx(slope),
        regime_scalar: fx(1.0),
    }
}

fn calm() -> VolatilityRegime {
    vol(12.0, 18.0, 0.3)
}

fn single_sleeve_kernel() -> GlobalRiskKernel {
    GlobalRiskKernel::new(GlobalRiskKernelConfig {
        portfolio: portfolio_cfg(10),
        sleeves: vec![sleeve_cfg(SleeveId::MicroFuturesMacroTrend, 3)],
    })
}

fn make_history_for_test(inst: FutureInstrument, base_price: f64, now: i64) -> InstrumentHistory {
    let mut bars = Vec::new();
    for i in 0..130 {
        let ts = now - (129 - i as i64) * 86_400;
        let price = base_price * (1.0 + 0.0005 * i as f64);
        let fx_carry = if let FutureInstrument::SixE = inst {
            Some(FxCarryFeatures {
                carry_rate_annualized: fx(0.02),
                carry_rate_vol_252d: fx(0.01),
            })
        } else {
            None
        };
        bars.push(DailyFeatureBar {
            ts,
            open: fx(price),
            high: fx(price * 1.001),
            low: fx(price * 0.999),
            close: fx(price),
            volume: fx(1_000.0),
            atr_14: fx(price * 0.005),
            ret_20d: fx(0.05),
            ret_60d: fx(0.10),
            ret_120d: fx(0.20),
            vol_20d: fx(0.01),
            vol_60d: fx(0.012),
            vol_120d: fx(0.015),
            highest_close_50d: fx(price * 1.01),
            lowest_close_50d: fx(price * 0.97),
            fx_carry,
        });
    }
    InstrumentHistory { instrument: inst, bars }
}

#[test]
fn global_risk_kernel_and_macro_futures_sleeve_integrate_consistently() {
    let now = Utc::now().timestamp();
    let mut kernel = single_sleeve_kernel();
    let portfolio_state = portfolio(10_000.0, 0.0, 0.0);
    let mut sleeves_state =
        vec![sleeve_state(SleeveId::MicroFuturesMacroTrend, 2_000.0, 2_000.0, 0)];
    let margin_state = margin(0.0, 0.0);
    let vol_regime = calm();

    assert!(kernel.has_config_for_all(&sleeves_state));
    let envelopes =
        kernel.evaluate(now, &portfolio_state, &mut sleeves_state, &margin_state, &vol_regime);
    let env = envelopes
        .iter()
        .find(|e| e.sleeve_id == SleeveId::MicroFuturesMacroTrend)
        .expect("Expected envelope for MicroFuturesMacroTrend");
    assert!(
        env.max_position_size_usd.raw > 0,
        "Precondition: expected positive max_position_size_usd from kernel"
    );
    assert!(
        env.exposure_remaining_usd.raw > 0,
        "Precondition: expected positive exposure_remaining_usd from kernel"
    );

    let sleeve = MacroFuturesSleeve::new(MacroFuturesSleeveConfig::default());
    let mut histories = InstrumentMap::new();
    histories.insert(FutureInstrument::Mes, make_history_for_test(FutureInstrument::Mes, 100.0, now));
    histories
        .insert(FutureInstrument::Mnq, make_history_for_test(FutureInstrument::Mnq, 16_000.0, now));
    histories.insert(FutureInstrument::SixE, make_history_for_test(FutureInstrument::SixE, 1.10, now));
    let risk_envelope = SleeveRiskEnvelope {
        sleeve_id: SleeveId::MicroFuturesMacroTrend,
        sleeve_halt: HaltState::Clear,
        portfolio_halt: HaltState::Clear,
        max_position_size_usd: fx(2_000.0),
        max_concurrent_positions: 3,
        exposure_remaining_usd: fx(100_000.0),
        margin_remaining_usd: fx(100_000.0),
        volatility_regime_scalar: fx(1.0),
        leverage_scalar: fx(1.0),
        portfolio_risk_state: PortfolioRiskState::Normal,
    };
    let ctx = FuturesSleeveContext {
        as_of: now,
        histories,
        macro_scalars: MacroScalars { as_of: now, risk_on_scalar: fx(1.0), usd_scalar: fx(1.0) },
        risk_envelope,
        current_positions: InstrumentMap::new(),
        eur_per_usd: fx(0.92),
        engine_health: EngineHealth::Healthy,
    };
    let one = InstrumentRiskBudget { max_risk_per_position_eur: fx(1_000.0), max_contracts: 10 };
    let risk_budget = FuturesRiskBudget { mes: one, mnq: one, sixe: one, max_total_contracts: 10 };
    let max_sleeve_risk_eur = fx(2_000.0).sat_mul(fx(2.0));

    let plan = sleeve.plan_sleeve(&ctx, &risk_budget, max_sleeve_risk_eur);
    assert_eq!(
        plan.sanity,
        SleeveRiskSanity::WithinCap,
        "Expected sanity WithinCap when max_sleeve_risk_eur >> actual total risk"
    );
    assert!(
        plan.aggregate.total_notional_usd.raw <= env.exposure_remaining_usd.raw,
        "Sleeve aggregate notional {} must not exceed exposure_remaining_usd {} from the kernel",
        plan.aggregate.total_notional_usd.raw,
        env.exposure_remaining_usd.raw
    );
    assert!(
        (plan.aggregate.instrument_count as u32) <= env.max_concurrent_positions,
        "Instrument count {} must not exceed max_concurrent_positions {} from the kernel",
        plan.aggregate.instrument_count,
        env.max_concurrent_positions
    );
    // Nine contracts to the first instrument, the one that is left to the second.
    assert_eq!(plan.planned_contracts.len(), 2);
    assert_eq!(plan.planned_contracts[0].instrument, FutureInstrument::Mes);
    assert_eq!(plan.planned_contracts[0].target_contracts, 9);
    assert_eq!(plan.planned_contracts[1].instrument, FutureInstrument::Mnq);
    assert_eq!(plan.planned_contracts[1].target_contracts, 1);
    assert_eq!(plan.aggregate.total_contracts_signed, 10);
    assert_eq!(plan.aggregate.total_contracts_abs, 10);
    assert_eq!(plan.aggregate.total_risk_eur, fx(1_000.0));
    assert_eq!(plan.aggregate.instrument_count, 2);
}

#[test]
fn envelope_of_a_calm_tick_has_exact_figures() {
    let mut kernel = single_sleeve_kernel();
    let mut sleeves = vec![sleeve_state(SleeveId::MicroFuturesMacroTrend, 2_000.0, 2_000.0, 1)];
    let envelopes =
        kernel.evaluate(0, &portfolio(10_000.0, 3_000.0, 0.3), &mut sleeves, &margin(500.0, 800.0), &calm());
    assert_eq!(envelopes.len(), 1);
    let env = envelopes[0];
    assert_eq!(env.sleeve_id, SleeveId::MicroFuturesMacroTrend);
    assert_eq!(env.portfolio_halt, HaltState::Clear);
    assert_eq!(env.sleeve_halt, HaltState::Clear);
    assert_eq!(env.portfolio_risk_state, PortfolioRiskState::Normal);
    // 1.5 * 10000 - 3000
    assert_eq!(env.exposure_remaining_usd, fx(12_000.0));
    // 10000 - max(500, 800)
    assert_eq!(env.margin_remaining_usd, fx(9_200.0));
    assert_eq!(env.volatility_regime_scalar, fx(1.0));
    // x = 0.3 / 1.5 = 0.2, scalar = 1.10 - 0.25 * 0.2
    assert_eq!(env.leverage_scalar, fx(1.05));
    // 2000 * 0.01 * 1.00 * 1.05
    assert_eq!(env.max_position_size_usd, fx(21.0));
    // nine slots left for one sleeve: min(3, 1 + 9)
    assert_eq!(env.max_concurrent_positions, 3);
}

#[test]
fn peak_equity_rises_and_never_falls_without_a_reset() {
    let mut kernel = single_sleeve_kernel();
    let mut sleeves = vec![sleeve_state(SleeveId::MicroFuturesMacroTrend, 2_100.0, 2_000.0, 0)];
    let equities = [10_500.0, 9_900.0, 10_200.0, 11_000.0, 8_000.0];
    let mut last_peak = kernel.internal_portfolio_peak_equity;
    for equity in equities {
        kernel.evaluate(0, &portfolio(equity, 0.0, 0.0), &mut sleeves, &margin(0.0, 0.0), &calm());
        assert!(kernel.internal_portfolio_peak_equity.raw >= last_peak.raw);
        assert!(kernel.internal_portfolio_peak_equity.raw >= fx(equity).raw);
        last_peak = kernel.internal_portfolio_peak_equity;
    }
    assert_eq!(kernel.internal_portfolio_peak_equity, fx(11_000.0));
    assert_eq!(sleeves[0].peak_equity_usd, fx(2_100.0));
    sleeves[0].equity_usd = fx(1_900.0);
    kernel.evaluate(0, &portfolio(8_000.0, 0.0, 0.0), &mut sleeves, &margin(0.0, 0.0), &calm());
    assert_eq!(sleeves[0].peak_equity_usd, fx(2_100.0));
}

#[test]
fn drawdown_maps_to_halt_and_kill() {
    let mut kernel = single_sleeve_kernel();
    // -7.9 %: clear; -8 %: halt; -12 %: kill (portfolio limits -8 % and -12 %)
    for (equity, halt, state) in [
        (9_210.0, HaltState::Clear, PortfolioRiskState::Normal),
        (9_200.0, HaltState::Halt, PortfolioRiskState::Caution),
        (8_801.0, HaltState::Halt, PortfolioRiskState::Caution),
        (8_800.0, HaltState::Kill, PortfolioRiskState::Stress),
        (100.0, HaltState::Kill, PortfolioRiskState::Stress),
    ] {
        let mut sleeves = vec![sleeve_state(SleeveId::MicroFuturesMacroTrend, 2_000.0, 2_000.0, 0)];
        let envs =
            kernel.evaluate(0, &portfolio(equity, 0.0, 0.0), &mut sleeves, &margin(0.0, 0.0), &calm());
        assert_eq!(envs[0].portfolio_halt, halt, "equity {}", equity);
        assert_eq!(envs[0].portfolio_risk_state, state);
        if halt != HaltState::Clear {
            assert_eq!(envs[0].max_position_size_usd, Fixed::zero());
        } else {
            assert!(envs[0].max_position_size_usd.raw > 0);
        }
    }
    // the sleeve's own limits are -10 % and -15 %
    for (equity, halt) in [
        (1_801.0, HaltState::Clear),
        (1_800.0, HaltState::Halt),
        (1_700.0, HaltState::Kill),
    ] {
        let mut kernel = single_sleeve_kernel();
        let mut sleeves = vec![sleeve_state(SleeveId::MicroFuturesMacroTrend, equity, 2_000.0, 0)];
        let envs =
            kernel.evaluate(0, &portfolio(10_000.0, 0.0, 0.0), &mut sleeves, &margin(0.0, 0.0), &calm());
        assert_eq!(envs[0].sleeve_halt, halt, "equity {}", equity);
        assert_eq!(envs[0].portfolio_halt, HaltState::Clear);
        assert_eq!(envs[0].max_position_size_usd.raw == 0, halt != HaltState::Clear);
    }
}

#[test]
fn kill_implies_the_halt_condition() {
    let halt = fx(-0.08);
    let kill = fx(-0.12);
    for dd in [-0.5, -0.13, -0.12, -0.1199, -0.08, -0.0799, 0.0, 0.3] {
        let state = classify_drawdown(fx(dd), halt, kill);
        if state == HaltState::Kill {
            assert!(fx(dd).raw <= halt.raw);
        }
        assert_eq!(state != HaltState::Clear, fx(dd).raw <= halt.raw);
    }
    assert_eq!(compute_drawdown(fx(90.0), fx(100.0)), fx(-0.1));
    assert_eq!(compute_drawdown(fx(90.0), fx(0.0)), Fixed::zero());
    assert_eq!(compute_drawdown(fx(90.0), fx(-5.0)), Fixed::zero());
    assert_eq!(compute_drawdown(fx(100.0), fx(100.0)), Fixed::zero());
}

#[test]
fn headroom_is_never_negative() {
    let mut kernel = single_sleeve_kernel();
    let mut sleeves = vec![sleeve_state(SleeveId::MicroFuturesMacroTrend, 2_000.0, 2_000.0, 0)];
    let envs = kernel.evaluate(
        0,
        &portfolio(10_000.0, 50_000.0, 5.0),
        &mut sleeves,
        &margin(20_000.0, 100.0),
        &calm(),
    );
    assert_eq!(envs[0].exposure_remaining_usd, Fixed::zero());
    assert_eq!(envs[0].margin_remaining_usd, Fixed::zero());
    assert_eq!(envs[0].max_position_size_usd, Fixed::zero());
    let extreme = PortfolioState {
        cash_usd: Fixed::from_micros(i64::MIN),
        open_pnl_usd: Fixed::from_micros(i64::MIN),
        accrued_interest_usd: Fixed::from_micros(i64::MIN),
        peak_equity_usd: Fixed::zero(),
        total_notional_exposure: Fixed::from_micros(i64::MAX),
        current_leverage: Fixed::from_micros(i64::MAX),
    };
    let envs = kernel.evaluate(0, &extreme, &mut sleeves, &margin(0.0, 0.0), &calm());
    assert!(envs[0].exposure_remaining_usd.raw >= 0);
    assert!(envs[0].margin_remaining_usd.raw >= 0);
}

#[test]
fn volatility_scalar_follows_the_regime() {
    assert_eq!(derive_volatility_scalar(&vol(10.0, 35.0, 0.3)), fx(0.55));
    assert_eq!(derive_volatility_scalar(&vol(30.0, 10.0, 0.3)), fx(0.55));
    assert_eq!(derive_volatility_scalar(&vol(10.0, 10.0, -0.000001)), fx(0.55));
    assert_eq!(derive_volatility_scalar(&vol(10.0, 25.0, 0.3)), fx(0.80));
    assert_eq!(derive_volatility_scalar(&vol(20.0, 10.0, 0.3)), fx(0.80));
    assert_eq!(derive_volatility_scalar(&vol(11.9, 14.9, 0.51)), fx(1.25));
    assert_eq!(derive_volatility_scalar(&vol(11.9, 14.9, 0.5)), fx(1.0));
    assert_eq!(derive_volatility_scalar(&vol(12.0, 14.9, 0.6)), fx(1.0));
    assert_eq!(derive_volatility_scalar(&vol(12.0, 18.0, 0.0)), fx(1.0));
}

#[test]
fn leverage_scalar_follows_its_profile() {
    let pcfg = portfolio_cfg(10);
    let at = |leverage: f64| derive_leverage_scalar(&portfolio(10_000.0, 0.0, leverage), &pcfg);
    assert_eq!(at(0.0), fx(1.10));
    assert_eq!(at(-3.0), fx(1.10));
    // x = 0.3: 1.10 - 0.25 * 0.3
    assert_eq!(at(0.45), fx(1.025));
    // x = 0.5: 1.03 - 0.20 * 0.2
    assert_eq!(at(0.75), fx(0.99));
    // x = 0.7: 1.03 - 0.20 * 0.4
    assert_eq!(at(1.05), fx(0.95));
    // x = 0.9: 0.95 - 2.17 * 0.2
    assert_eq!(at(1.35), fx(0.516));
    assert_eq!(at(1.5), Fixed::zero());
    assert_eq!(at(9.0), Fixed::zero());
    // an allowance under 0.1 counts as 0.1
    let tight = PortfolioRiskConfig { max_leverage: fx(0.0), ..pcfg };
    assert_eq!(derive_leverage_scalar(&portfolio(10_000.0, 0.0, 0.05), &tight), fx(0.99));
    assert_eq!(derive_leverage_scalar(&portfolio(10_000.0, 0.0, 0.1), &tight), Fixed::zero());
}

#[test]
fn concurrency_ceilings_share_the_remaining_slots() {
    let ids = [
        SleeveId::EquityLongShort,
        SleeveId::StatArbResidual,
        SleeveId::MicroFuturesMacroTrend,
    ];
    let mut kernel = GlobalRiskKernel::new(GlobalRiskKernelConfig {
        portfolio: portfolio_cfg(10),
        sleeves: ids.iter().map(|id| sleeve_cfg(*id, 5)).collect(),
    });
    let mut sleeves = vec![
        sleeve_state(ids[0], 2_000.0, 2_000.0, 1),
        sleeve_state(ids[1], 2_000.0, 2_000.0, 2),
        sleeve_state(ids[2], 2_000.0, 2_000.0, 0),
    ];
    assert_eq!(sum_open_positions(&sleeves), 3);
    let envs = kernel.evaluate(0, &portfolio(10_000.0, 0.0, 0.0), &mut sleeves, &margin(0.0, 0.0), &calm());
    // seven slots left, two more for each of the three sleeves
    let ceilings: Vec<u32> = envs.iter().map(|e| e.max_concurrent_positions).collect();
    assert_eq!(ceilings, vec![3, 4, 2]);
    assert!(ceilings.iter().sum::<u32>() <= 10);

    // no slots left: every sleeve is held at what it has open
    let mut full = vec![
        sleeve_state(ids[0], 2_000.0, 2_000.0, 6),
        sleeve_state(ids[1], 2_000.0, 2_000.0, 4),
        sleeve_state(ids[2], 2_000.0, 2_000.0, 0),
    ];
    let envs = kernel.evaluate(0, &portfolio(10_000.0, 0.0, 0.0), &mut full, &margin(0.0, 0.0), &calm());
    let ceilings: Vec<u32> = envs.iter().map(|e| e.max_concurrent_positions).collect();
    assert_eq!(ceilings, vec![6, 4, 0]);

    // the configured ceiling binds
    let mut kernel = GlobalRiskKernel::new(GlobalRiskKernelConfig {
        portfolio: portfolio_cfg(40),
        sleeves: ids.iter().map(|id| sleeve_cfg(*id, 5)).collect(),
    });
    let envs = kernel.evaluate(0, &portfolio(10_000.0, 0.0, 0.0), &mut sleeves, &margin(0.0, 0.0), &calm());
    let ceilings: Vec<u32> = envs.iter().map(|e| e.max_concurrent_positions).collect();
    assert_eq!(ceilings, vec![5, 5, 5]);
}

#[test]
fn evaluate_of_no_sleeves_gives_no_envelopes() {
    let mut kernel = single_sleeve_kernel();
    let mut sleeves: Vec<SleeveState> = Vec::new();
    let envs = kernel.evaluate(0, &portfolio(12_000.0, 0.0, 0.0), &mut sleeves, &margin(0.0, 0.0), &calm());
    assert!(envs.is_empty());
    assert_eq!(kernel.internal_portfolio_peak_equity, fx(12_000.0));
}

#[test]
fn missing_configuration_is_found_before_evaluating() {
    let kernel = single_sleeve_kernel();
    let known = vec![sleeve_state(SleeveId::MicroFuturesMacroTrend, 1.0, 1.0, 0)];
    let unknown = vec![
        sleeve_state(SleeveId::MicroFuturesMacroTrend, 1.0, 1.0, 0),
        sleeve_state(SleeveId::OptionsVolPremium, 1.0, 1.0, 0),
    ];
    assert!(kernel.has_config_for_all(&known));
    assert!(!kernel.has_config_for_all(&unknown));
    assert!(kernel.has_config_for_all(&Vec::new()));
    let configs = vec![
        sleeve_cfg(SleeveId::OptionsVolPremium, 1),
        sleeve_cfg(SleeveId::MicroFuturesMacroTrend, 2),
        sleeve_cfg(SleeveId::MicroFuturesMacroTrend, 3),
    ];
    assert_eq!(
        find_sleeve_config(&configs, SleeveId::MicroFuturesMacroTrend).map(|c| c.max_concurrent_positions),
        Some(2)
    );
    assert_eq!(find_sleeve_config(&configs, SleeveId::EquityLongShort), None);
    assert_eq!(kernel.config().sleeves.len(), 1);
}

#[test]
fn cashflow_of_a_fifth_resets_the_peak() {
    let mut kernel = single_sleeve_kernel();
    kernel.apply_cashflow_reset(fx(10_000.0), fx(11_999.0));
    assert_eq!(kernel.internal_portfolio_peak_equity, fx(10_000.0));
    kernel.apply_cashflow_reset(fx(10_000.0), fx(12_000.0));
    assert_eq!(kernel.internal_portfolio_peak_equity, fx(12_000.0));
    kernel.apply_cashflow_reset(fx(12_000.0), fx(9_000.0));
    assert_eq!(kernel.internal_portfolio_peak_equity, fx(9_000.0));
    kernel.apply_cashflow_reset(fx(9_000.0), fx(8_000.0));
    assert_eq!(kernel.internal_portfolio_peak_equity, fx(9_000.0));
    kernel.apply_cashflow_reset(fx(0.0), fx(5.0));
    assert_eq!(kernel.internal_portfolio_peak_equity, fx(5.0));
    kernel.apply_cashflow_reset(fx(-1.0), fx(700.0));
    assert_eq!(kernel.internal_portfolio_peak_equity, fx(700.0));
}

fn open_envelope() -> SleeveRiskEnvelope {
    SleeveRiskEnvelope {
        sleeve_id: SleeveId::MicroFuturesMacroTrend,
        sleeve_halt: HaltState::Clear,
        portfolio_halt: HaltState::Clear,
        max_position_size_usd: fx(500.0),
        max_concurrent_positions: 3,
        exposure_remaining_usd: fx(1_000.0),
        margin_remaining_usd: fx(1_000.0),
        volatility_regime_scalar: fx(1.0),
        leverage_scalar: fx(1.0),
        portfolio_risk_state: PortfolioRiskState::Normal,
    }
}

#[test]
fn new_position_risk_names_the_first_failing_reason() {
    let state = sleeve_state(SleeveId::MicroFuturesMacroTrend, 2_000.0, 2_000.0, 1);
    let allowed = evaluate_new_position_risk(&state, &open_envelope());
    assert!(allowed.allow_new_position);
    assert_eq!(allowed.max_new_positions, 2);
    assert_eq!(allowed.max_order_notional_usd, fx(500.0));
    assert_eq!(allowed.reason, RiskDecisionReason::Allowed);

    let everything_wrong = SleeveRiskEnvelope {
        portfolio_halt: HaltState::Halt,
        sleeve_halt: HaltState::Kill,
        margin_remaining_usd: fx(0.0),
        exposure_remaining_usd: fx(0.0),
        max_position_size_usd: fx(0.0),
        max_concurrent_positions: 1,
        ..open_envelope()
    };
    let mut env = everything_wrong;
    let expected = [
        RiskDecisionReason::PortfolioHalt,
        RiskDecisionReason::SleeveHalt,
        RiskDecisionReason::NoMarginHeadroom,
        RiskDecisionReason::NoExposureHeadroom,
        RiskDecisionReason::PositionSizeZero,
        RiskDecisionReason::ConcurrencyLimit,
    ];
    for (step, reason) in expected.iter().enumerate() {
        let d = evaluate_new_position_risk(&state, &env);
        assert!(!d.allow_new_position);
        assert_eq!(d.max_new_positions, 0);
        assert_eq!(d.max_order_notional_usd, Fixed::zero());
        assert_eq!(d.reason, *reason);
        match step {
            0 => env.portfolio_halt = HaltState::Clear,
            1 => env.sleeve_halt = HaltState::Clear,
            2 => env.margin_remaining_usd = fx(10.0),
            3 => env.exposure_remaining_usd = fx(10.0),
            4 => env.max_position_size_usd = fx(10.0),
            _ => env.max_concurrent_positions = 2,
        }
    }
    assert!(evaluate_new_position_risk(&state, &env).allow_new_position);
    assert!(HaltState::Kill.is_active() && HaltState::Halt.is_active() && !HaltState::Clear.is_active());
}
