//! Analyses of circuits.
pub mod static_analysis;
pub mod feature_extraction;
pub mod symbolic;
pub mod llm;
