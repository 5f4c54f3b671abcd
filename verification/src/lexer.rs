//! From source text to generated C++.
pub mod gretea_lexer;
