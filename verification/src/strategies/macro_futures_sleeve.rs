//! The macro futures sleeve: a trend and carry strategy on three micro futures.
//!
//! Each heartbeat the sleeve scores every instrument from its recent daily bars,
//! turns the scores into sized targets under the kernel's risk envelope, and
//! reconciles the targets with the positions it holds.
pub mod contracts;
pub mod instruments;
pub mod model;
pub mod orders;
pub mod plan;
pub mod positions;
pub mod signals;

pub use instruments::{instrument_metadata, FutureInstrument, InstrumentMap};
pub use model::{
    DailyFeatureBar, EngineOrder, EngineOrderSide, FinalTradeSignal, FuturesOrderIntent,
    FuturesPlannedContracts, FuturesPlannedPosition, FuturesPlannedRisk, FuturesRiskBudget,
    FuturesSleeveAggregate, FuturesSleeveContext, FuturesSleevePlan, FxCarryFeatures,
    InstrumentHistory, InstrumentRiskBudget, InstrumentRiskIntent, InstrumentSignal,
    MacroAdjustedSignal, MacroFuturesHeartbeatOutput, MacroFuturesSleeve,
    MacroFuturesSleeveConfig, MacroScalars, RawSignal, SignalReason, SleeveRiskSanity,
};
