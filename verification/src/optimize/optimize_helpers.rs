use vstd::prelude::*;
use crate::text::str_eq;

verus! {

/// The two characters that make up `==` and `!=` once tokenized.
pub open spec fn eq_or_uneq_text(s: Seq<char>) -> bool {
    s == "!"@ || s == "="@
}

pub open spec fn boolean_text(s: Seq<char>) -> bool {
    s == "true"@ || s == "false"@
}

pub fn is_eq_or_uneq(data: &String) -> (b: bool)
    ensures
        b == eq_or_uneq_text(data@),
{
    str_eq(data.as_str(), "!") || str_eq(data.as_str(), "=")
}

pub fn is_boolean(data: &String) -> (b: bool)
    ensures
        b == boolean_text(data@),
{
    str_eq(data.as_str(), "true") || str_eq(data.as_str(), "false")
}

} // verus!
