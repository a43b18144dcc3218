//! Risk and sizing core of a multi-strategy trading engine.
//!
//! On every heartbeat the [`risk`] kernel turns the state of the portfolio into one
//! risk envelope per capital sleeve, and the macro futures sleeve under [`strategies`]
//! turns market history and its envelope into signals, target contracts and order
//! intents. [`execution`] runs the two one after the other and holds the health
//! supervisor, the sinks and the log records.
//!
//! All amounts are [`fixed::Fixed`] decimals; nothing in the core can fail or
//! overflow.
pub mod execution;
pub mod fixed;
pub mod json;
pub mod logistic;
pub mod risk;
pub mod strategies;
pub mod text;
