//! The record of one market and what it is made of.
pub mod identity;
pub mod market;
pub mod outcome;
