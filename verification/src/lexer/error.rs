//! Lexical errors.

use crate::lexer::token::IntWidth;
use crate::span::Span;
use vstd::prelude::*;
use vstd::string::StringExecFns;

verus! {

/// Why a numeric literal is malformed.
#[derive(Clone, Copy, Debug, PartialEq, Eq, Structural)]
pub enum NumericFault {
    /// `0b` or `0B` with no binary digit after it.
    MissingBinaryDigits,
    /// `0o` or `0O` with no octal digit after it.
    MissingOctalDigits,
    /// `0x` or `0X` with no hexadecimal digit after it.
    MissingHexDigits,
    /// A decimal point with no digit after it.
    IncompleteMantissa,
    /// An exponent marker with no digit after it.
    IncompleteExponent,
    /// The value does not fit the width of the literal.
    Overflow(IntWidth),
}

#[derive(Clone, Copy, Debug, PartialEq, Eq, Structural)]
pub enum LexerErrorKind {
    /// A character that starts no token.
    UnrecognisedCharacter,
    /// A backslash in a string literal followed by anything but a known escape.
    UnrecognisedStringEscape,
    /// A string literal that meets the end of its line, or of the input, unclosed.
    UnexpectedEndOfLine,
    InvalidNumericLiteral(NumericFault),
}

impl NumericFault {
    pub open spec fn reason(self) -> Seq<char> {
        match self {
            NumericFault::MissingBinaryDigits => "missing binary literal value"@,
            NumericFault::MissingOctalDigits => "missing octal literal value"@,
            NumericFault::MissingHexDigits => "missing hexadecimal literal value"@,
            NumericFault::IncompleteMantissa => "incomplete float mantissa"@,
            NumericFault::IncompleteExponent => "incomplete float exponent"@,
            NumericFault::Overflow(_) => "number too large to fit in target type"@,
        }
    }
}

impl LexerErrorKind {
    /// The text of the message for each kind of error.
    pub open spec fn message_text(self) -> Seq<char> {
        match self {
            LexerErrorKind::UnrecognisedCharacter => "unexpected character in input"@,
            LexerErrorKind::UnrecognisedStringEscape => "unrecognised escape sequence in string"@,
            LexerErrorKind::UnexpectedEndOfLine => "unexpected line end"@,
            LexerErrorKind::InvalidNumericLiteral(fault) => "failed to parse numeric literal: "@
                + fault.reason(),
        }
    }

    pub fn message(&self) -> (message: String)
        ensures
            message@ == self.message_text(),
    {
        match self {
            LexerErrorKind::UnrecognisedCharacter => String::from_str(
                "unexpected character in input",
            ),
            LexerErrorKind::UnrecognisedStringEscape => String::from_str(
                "unrecognised escape sequence in string",
            ),
            LexerErrorKind::UnexpectedEndOfLine => String::from_str("unexpected line end"),
            LexerErrorKind::InvalidNumericLiteral(fault) => {
                let prefix = String::from_str("failed to parse numeric literal: ");
                match fault {
                    NumericFault::MissingBinaryDigits => prefix.concat(
                        "missing binary literal value",
                    ),
                    NumericFault::MissingOctalDigits => prefix.concat(
                        "missing octal literal value",
                    ),
                    NumericFault::MissingHexDigits => prefix.concat(
                        "missing hexadecimal literal value",
                    ),
                    NumericFault::IncompleteMantissa => prefix.concat("incomplete float mantissa"),
                    NumericFault::IncompleteExponent => prefix.concat("incomplete float exponent"),
                    NumericFault::Overflow(_) => prefix.concat(
                        "number too large to fit in target type",
                    ),
                }
            },
        }
    }
}

/// A lexical error: its kind, the text it was raised on and where that text stands.
#[derive(Clone, Debug, PartialEq, Eq)]
pub struct LexerError {
    pub kind: LexerErrorKind,
    pub raw: Vec<u8>,
    pub span: Span,
}

/// The mathematical value of a [`LexerError`].
pub ghost struct LexerErrorView {
    pub kind: LexerErrorKind,
    pub raw: Seq<u8>,
    pub span: Span,
}

impl View for LexerError {
    type V = LexerErrorView;

    open spec fn view(&self) -> LexerErrorView {
        LexerErrorView { kind: self.kind, raw: self.raw@, span: self.span }
    }
}

} // verus!
