//! Rewriting of generated conditions.
use vstd::prelude::*;

pub mod optimizer;
pub mod optimize_helpers;

verus! {

/// The kinds of rewriting the optimizer knows.
pub enum OptimizeBlocks {
    StatementBool,
}

} // verus!
