//! The tokenizer: bytes of source text in, spanned tokens or lexical errors out.

pub mod ascii;
pub mod chars;
pub mod error;
pub mod laws;
pub mod number;
pub mod retokenize;
pub mod string;
pub mod token;
pub mod token_stream;
pub mod tokenizer;
