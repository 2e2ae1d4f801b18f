//! Index-level logic of a backbone reconstruction pipeline: how a flat
//! predictor vector is laid out, how a chain grows atom by atom, how chains
//! are paired for comparison, how coordinate records are framed, which
//! corpus lines are well formed and which files hold data.
//!
//! Everything here is generic in the scalar and point types, so each
//! contract holds for whatever arithmetic the caller brings.

pub mod error;
pub mod decoder;
pub mod chain;
pub mod records;
pub mod pairing;
pub mod codes;
pub mod files;
