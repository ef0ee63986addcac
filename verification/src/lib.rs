/// The text format in which scenario results are reported, and its laws.
pub mod report;
/// Deterministic derivation of per-trial random seeds from one master seed.
pub mod seed;

pub use report::MontecarloConfig;
