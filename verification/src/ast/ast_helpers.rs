//! Small text builders used while generating C++.
use vstd::prelude::*;
use crate::text::{copy_str, replace_char_with};

verus! {

/// A fresh `String` holding `data`.
pub fn to(data: &str) -> (res: String)
    ensures
        res@ == data@,
{
    copy_str(data)
}

/// Writes the module separators of `data` the C++ way (`#` becomes `::`).
pub fn from_module(data: &String) -> (res: String)
    ensures
        res@ == crate::ast::cpp_scoped(data@),
{
    replace_char_with(data.as_str(), '#', "::")
}

/// The C++ vector type of `__type`.
pub fn make_vector(__type: &String) -> (res: String)
    ensures
        res@ == "std::vector<"@ + __type@ + "> "@,
{
    let mut res = copy_str("std::vector<");
    res.append(__type.as_str());
    res.append("> ");
    res
}

} // verus!
