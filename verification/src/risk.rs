//! The global risk kernel and its ready-made profiles.
pub mod kernel;
pub mod profiles;

pub use kernel::{
    evaluate_new_position_risk, GlobalRiskKernel, GlobalRiskKernelConfig, HaltState,
    MarginState, PortfolioRiskConfig, PortfolioRiskState, PortfolioState, RiskDecision,
    RiskDecisionReason, SleeveId, SleeveRiskConfig, SleeveRiskEnvelope, SleeveState,
    VolatilityRegime,
};
pub use profiles::{
    aggressive_25k_global_risk_kernel_config, aggressive_kernel_25k,
    default_global_risk_kernel_config_usd_10k, default_kernel_10k,
    default_portfolio_config_10k, default_sleeve_configs_10k, RiskProfile,
};
