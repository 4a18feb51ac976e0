//! Watches frames for a known visual marker and gates automated actions.
//!
//! The library holds the verified core of a screen-watching automation tool:
//! a multi-scale template matcher over grayscale pixel grids (scores are
//! fixed-point integers in millionths of the normalized correlation), a
//! cooldown gate that decides when a qualifying detection may fire an action,
//! and the decision functions of the polling worker loop. Frame capture,
//! pointer synthesis, configuration persistence and the user interface live
//! outside the library and talk to it through plain values.

pub mod config;
pub mod gate;
pub mod grid;
pub mod detect;
pub mod ncc;
pub mod template;
pub mod textfmt;
pub mod worker;

use vstd::prelude::*;

verus! {

/// Score unit: one million corresponds to a normalized correlation of 1.0.
pub const SCORE_ONE: i64 = 1_000_000;

} // verus!
