//! Deterministic fixed-point arithmetic for the pricing engine.
pub mod exp2;
pub mod log2;
pub mod logsum;
pub mod scale;
