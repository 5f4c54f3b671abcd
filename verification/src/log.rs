//! Kinds of compiler messages.
use vstd::prelude::*;

verus! {

#[derive(PartialEq, Eq, Structural, Copy, Clone, Debug)]
pub enum LogTypes {
    Info,
    Warning,
    Error,
    Help,
}

} // verus!
