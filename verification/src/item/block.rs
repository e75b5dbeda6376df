//! What blocks share.
use vstd::prelude::*;

pub mod fluid;

verus! {

/// Whether interacting with a block did something.
#[derive(Clone, Copy, Debug, PartialEq, Eq, Structural)]
pub enum ActionResult {
    PASS,
    SUCCESS,
}

/// How readily a block catches fire and burns away.
#[derive(Clone, Copy, Debug, PartialEq, Eq, Structural)]
pub struct BurnRate(pub i32, pub i32);

} // verus!
