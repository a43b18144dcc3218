//! The data that the sleeve reads and hands out.
use super::instruments::{FutureInstrument, InstrumentMap};
use crate::execution::EngineHealth;
use crate::fixed::Fixed;
use crate::risk::{SleeveId, SleeveRiskEnvelope};
use vstd::prelude::*;

verus! {

/// Outcome of the check of the total risk against the sleeve's cap.
#[derive(Debug, Clone, Copy, PartialEq, Eq, Structural)]
pub enum SleeveRiskSanity {
    /// The aggregate risk is within the cap, or there is no cap.
    WithinCap,
    ExceedsCap,
}

/// Carry features of the currency future.
#[derive(Debug, Clone, Copy, PartialEq, Eq, Structural)]
pub struct FxCarryFeatures {
    /// Interest differential, annualized.
    pub carry_rate_annualized: Fixed,
    /// Volatility of the differential over a year of days.
    pub carry_rate_vol_252d: Fixed,
}

/// One day of features of one instrument.
#[derive(Debug, Clone, Copy, PartialEq, Eq, Structural)]
pub struct DailyFeatureBar {
    /// Time of the bar, in seconds.
    pub ts: i64,
    pub open: Fixed,
    pub high: Fixed,
    pub low: Fixed,
    pub close: Fixed,
    pub volume: Fixed,
    pub atr_14: Fixed,
    pub ret_20d: Fixed,
    pub ret_60d: Fixed,
    pub ret_120d: Fixed,
    pub vol_20d: Fixed,
    pub vol_60d: Fixed,
    pub vol_120d: Fixed,
    pub highest_close_50d: Fixed,
    pub lowest_close_50d: Fixed,
    /// Present for the currency future only.
    pub fx_carry: Option<FxCarryFeatures>,
}

/// Totals over the risk report of a heartbeat.
#[derive(Debug, Clone, Copy, PartialEq, Eq, Structural)]
pub struct FuturesSleeveAggregate {
    pub total_contracts_signed: i32,
    pub total_contracts_abs: i32,
    pub total_risk_eur: Fixed,
    pub total_notional_usd: Fixed,
    pub instrument_count: usize,
}

/// The plan of a heartbeat.
#[derive(Debug, Clone)]
pub struct FuturesSleevePlan {
    pub planned_contracts: Vec<FuturesPlannedContracts>,
    pub risk_report: Vec<FuturesPlannedRisk>,
    pub aggregate: FuturesSleeveAggregate,
    pub sanity: SleeveRiskSanity,
}

/// The daily bars of one instrument.
#[derive(Debug, Clone)]
pub struct InstrumentHistory {
    pub instrument: FutureInstrument,
    /// In order of time; the last bar is the most recent.
    pub bars: Vec<DailyFeatureBar>,
}

/// Scalars of the macro regime, supplied from outside.
#[derive(Debug, Clone, Copy, PartialEq, Eq, Structural)]
pub struct MacroScalars {
    /// Time of the scalars, in seconds.
    pub as_of: i64,
    pub risk_on_scalar: Fixed,
    pub usd_scalar: Fixed,
}

/// Risk and contract budget of one instrument.
#[derive(Debug, Clone, Copy, PartialEq, Eq, Structural)]
pub struct InstrumentRiskBudget {
    pub max_risk_per_position_eur: Fixed,
    pub max_contracts: u32,
}

/// Budgets of the instruments and of the sleeve as a whole.
#[derive(Debug, Clone, Copy, PartialEq, Eq, Structural)]
pub struct FuturesRiskBudget {
    pub mes: InstrumentRiskBudget,
    pub mnq: InstrumentRiskBudget,
    pub sixe: InstrumentRiskBudget,
    /// Contracts that the sleeve may hold over all instruments.
    pub max_total_contracts: u32,
}

impl FuturesRiskBudget {
    /// The budget of one instrument.
    pub open spec fn spec_of(&self, inst: FutureInstrument) -> InstrumentRiskBudget {
        match inst {
            FutureInstrument::Mes => self.mes,
            FutureInstrument::Mnq => self.mnq,
            FutureInstrument::SixE => self.sixe,
        }
    }

    /// The budget of one instrument.
    #[verifier::when_used_as_spec(spec_of)]
    pub fn of(&self, inst: FutureInstrument) -> (b: InstrumentRiskBudget)
        ensures
            b == self.spec_of(inst),
    {
        match inst {
            FutureInstrument::Mes => self.mes,
            FutureInstrument::Mnq => self.mnq,
            FutureInstrument::SixE => self.sixe,
        }
    }
}

/// Why a signal is what it is.
#[derive(Debug, Clone, Copy, PartialEq, Eq, Structural)]
pub enum SignalReason {
    Normal,
    InsufficientHistory,
    InvalidData,
    BelowThreshold,
}

/// Scores before the macro adjustment.
#[derive(Debug, Clone, Copy, PartialEq, Eq, Structural)]
pub struct RawSignal {
    pub trend_score: Fixed,
    pub carry_score: Fixed,
}

/// Scores after the macro adjustment.
#[derive(Debug, Clone, Copy, PartialEq, Eq, Structural)]
pub struct MacroAdjustedSignal {
    pub trend_macro_adjusted: Fixed,
    pub carry_macro_adjusted: Fixed,
}

/// Direction and conviction of a signal.
#[derive(Debug, Clone, Copy, PartialEq, Eq, Structural)]
pub struct FinalTradeSignal {
    /// -1, 0 or +1.
    pub direction: i8,
    /// Between zero and one.
    pub conviction: Fixed,
    pub effective_score: Fixed,
}

/// The signal of one instrument with all that led to it.
#[derive(Debug, Clone, Copy, PartialEq, Eq, Structural)]
pub struct InstrumentSignal {
    pub instrument: FutureInstrument,
    pub final_signal: FinalTradeSignal,
    pub raw: RawSignal,
    pub macro_adj: MacroAdjustedSignal,
    pub reason: SignalReason,
}

/// A planned notional for one instrument.
#[derive(Debug, Clone, Copy, PartialEq, Eq, Structural)]
pub struct FuturesPlannedPosition {
    pub instrument: FutureInstrument,
    /// -1, 0 or +1.
    pub target_direction: i8,
    /// Signed: positive is long.
    pub target_notional_usd: Fixed,
}

/// All that one heartbeat of the sleeve reads.
#[derive(Debug, Clone)]
pub struct FuturesSleeveContext {
    /// Time of the heartbeat, in seconds.
    pub as_of: i64,
    pub histories: InstrumentMap<InstrumentHistory>,
    pub macro_scalars: MacroScalars,
    pub risk_envelope: SleeveRiskEnvelope,
    /// Signed contracts held per instrument; a missing entry is a flat position.
    pub current_positions: InstrumentMap<i32>,
    pub eur_per_usd: Fixed,
    pub engine_health: EngineHealth,
}

impl FuturesSleeveContext {
    /// Signed contracts held in `inst`.
    pub open spec fn spec_position(&self, inst: FutureInstrument) -> i32 {
        match self.current_positions.entry(inst) {
            Some(held) => held,
            None => 0,
        }
    }

    /// Signed contracts held in `inst`.
    #[verifier::when_used_as_spec(spec_position)]
    pub fn position(&self, inst: FutureInstrument) -> (held: i32)
        ensures
            held == self.spec_position(inst),
    {
        match self.current_positions.get(&inst) {
            Some(held) => *held,
            None => 0,
        }
    }
}

/// What one heartbeat of the sleeve gives.
#[derive(Debug, Clone)]
pub struct MacroFuturesHeartbeatOutput {
    pub sleeve_plan: FuturesSleevePlan,
    pub order_intents: Vec<FuturesOrderIntent>,
}

/// The share of the position size that a signal asks for.
#[derive(Debug, Clone, Copy, PartialEq, Eq, Structural)]
pub struct InstrumentRiskIntent {
    pub instrument: FutureInstrument,
    /// Share of the position size to use, signed: direction times conviction.
    pub desired_risk_frac: Fixed,
    pub signal: InstrumentSignal,
}

/// Target contracts of one instrument.
#[derive(Debug, Clone, Copy, PartialEq, Eq, Structural)]
pub struct FuturesPlannedContracts {
    pub instrument: FutureInstrument,
    /// Signed: positive is long.
    pub target_contracts: i32,
}

/// Target contracts of one instrument and their risk in euros.
#[derive(Debug, Clone, Copy, PartialEq, Eq, Structural)]
pub struct FuturesPlannedRisk {
    pub instrument: FutureInstrument,
    pub target_contracts: i32,
    pub risk_per_contract_eur: Fixed,
    pub total_risk_eur: Fixed,
}

/// The change of position that one instrument needs.
#[derive(Debug, Clone, Copy, PartialEq, Eq, Structural)]
pub struct FuturesOrderIntent {
    pub instrument: FutureInstrument,
    /// Signed: positive buys.
    pub delta_contracts: i32,
}

/// Side of an order.
#[derive(Debug, Clone, Copy, PartialEq, Eq, Structural)]
pub enum EngineOrderSide {
    Buy,
    Sell,
}

/// An order as it is handed to a sink.
#[derive(Debug, Clone, Copy, PartialEq, Eq)]
pub struct EngineOrder {
    pub sleeve_id: SleeveId,
    pub instrument: FutureInstrument,
    pub symbol: &'static str,
    pub venue: &'static str,
    pub side: EngineOrderSide,
    /// Number of contracts, always positive.
    pub quantity: i32,
}

/// Weights, clips and thresholds of the signal pipeline.
#[derive(Debug, Clone, Copy, PartialEq, Eq, Structural)]
pub struct MacroFuturesSleeveConfig {
    pub trend_weight_20d: Fixed,
    pub trend_weight_60d: Fixed,
    pub trend_weight_120d: Fixed,
    pub breakout_weight: Fixed,
    pub trend_score_clip: Fixed,
    pub carry_score_clip: Fixed,
    pub carry_vol_floor: Fixed,
    pub carry_weight_6e: Fixed,
    pub effective_score_clip: Fixed,
    pub logistic_k: Fixed,
    pub logistic_m: Fixed,
    pub min_effective_score: Fixed,
    pub min_conviction: Fixed,
    /// Carried for later use; sizing does not read the two stop multiples.
    pub atr_stop_multiple_index: Fixed,
    pub atr_stop_multiple_fx: Fixed,
}

impl MacroFuturesSleeveConfig {
    /// The configuration that [`Default`] gives.
    pub open spec fn standard() -> MacroFuturesSleeveConfig {
        MacroFuturesSleeveConfig {
            trend_weight_20d: Fixed::from_micros(450_000),
            trend_weight_60d: Fixed::from_micros(300_000),
            trend_weight_120d: Fixed::from_micros(150_000),
            breakout_weight: Fixed::from_micros(100_000),
            trend_score_clip: Fixed::from_micros(3_000_000),
            carry_score_clip: Fixed::from_micros(2_000_000),
            carry_vol_floor: Fixed::from_micros(250_000),
            carry_weight_6e: Fixed::from_micros(500_000),
            effective_score_clip: Fixed::from_micros(5_000_000),
            logistic_k: Fixed::from_micros(1_300_000),
            logistic_m: Fixed::from_micros(1_300_000),
            min_effective_score: Fixed::from_micros(1_000_000),
            min_conviction: Fixed::from_micros(300_000),
            atr_stop_multiple_index: Fixed::from_micros(250_000),
            atr_stop_multiple_fx: Fixed::from_micros(500_000),
        }
    }
}

impl Default for MacroFuturesSleeveConfig {
    fn default() -> (cfg: Self)
        ensures
            cfg == Self::standard(),
    {
        MacroFuturesSleeveConfig {
            trend_weight_20d: Fixed::from_micros(450_000),
            trend_weight_60d: Fixed::from_micros(300_000),
            trend_weight_120d: Fixed::from_micros(150_000),
            breakout_weight: Fixed::from_micros(100_000),
            trend_score_clip: Fixed::from_micros(3_000_000),
            carry_score_clip: Fixed::from_micros(2_000_000),
            carry_vol_floor: Fixed::from_micros(250_000),
            carry_weight_6e: Fixed::from_micros(500_000),
            effective_score_clip: Fixed::from_micros(5_000_000),
            logistic_k: Fixed::from_micros(1_300_000),
            logistic_m: Fixed::from_micros(1_300_000),
            min_effective_score: Fixed::from_micros(1_000_000),
            min_conviction: Fixed::from_micros(300_000),
            atr_stop_multiple_index: Fixed::from_micros(250_000),
            atr_stop_multiple_fx: Fixed::from_micros(500_000),
        }
    }
}

/// The sleeve: a configuration to score and plan with.
#[derive(Debug, Clone, Copy, PartialEq, Eq, Structural)]
pub struct MacroFuturesSleeve {
    pub cfg: MacroFuturesSleeveConfig,
}

} // verus!
