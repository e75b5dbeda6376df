//! Effects that last on an entity for a while.
pub mod fire;
pub mod poison;
