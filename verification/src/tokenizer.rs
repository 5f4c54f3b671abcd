//! Splitting source text into tokens.
pub mod gretea_tokenizer;
