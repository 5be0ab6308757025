//! Tokens and the literal values they carry.

use crate::span::Span;
use vstd::prelude::*;

verus! {

/// The integer types a literal can be given by a width suffix.
#[derive(Clone, Copy, Debug, PartialEq, Eq, Structural)]
pub enum IntWidth {
    I8,
    I16,
    I32,
    I64,
    U8,
    U16,
    U32,
    U64,
    /// No suffix: the literal is held as a 32-bit signed integer.
    Untyped,
}

impl IntWidth {
    /// The largest value a literal of this width can have.
    pub open spec fn max(self) -> int {
        match self {
            IntWidth::I8 => 0x7f,
            IntWidth::I16 => 0x7fff,
            IntWidth::I32 => 0x7fff_ffff,
            IntWidth::I64 => 0x7fff_ffff_ffff_ffff,
            IntWidth::U8 => 0xff,
            IntWidth::U16 => 0xffff,
            IntWidth::U32 => 0xffff_ffff,
            IntWidth::U64 => 0xffff_ffff_ffff_ffff,
            IntWidth::Untyped => 0x7fff_ffff,
        }
    }

    pub fn max_value(self) -> (max: u64)
        ensures
            max == self.max(),
    {
        match self {
            IntWidth::I8 => 0x7f,
            IntWidth::I16 => 0x7fff,
            IntWidth::I32 => 0x7fff_ffff,
            IntWidth::I64 => 0x7fff_ffff_ffff_ffff,
            IntWidth::U8 => 0xff,
            IntWidth::U16 => 0xffff,
            IntWidth::U32 => 0xffff_ffff,
            IntWidth::U64 => 0xffff_ffff_ffff_ffff,
            IntWidth::Untyped => 0x7fff_ffff,
        }
    }
}

/// The value of an integer literal, held in the type its suffix names.
#[derive(Clone, Copy, Debug, PartialEq, Eq, Structural)]
pub enum IntLit {
    I8(i8),
    I16(i16),
    I32(i32),
    I64(i64),
    U8(u8),
    U16(u16),
    U32(u32),
    U64(u64),
    Untyped(i32),
}

impl IntLit {
    /// The number the literal denotes.
    pub open spec fn value(self) -> int {
        match self {
            IntLit::I8(v) => v as int,
            IntLit::I16(v) => v as int,
            IntLit::I32(v) => v as int,
            IntLit::I64(v) => v as int,
            IntLit::U8(v) => v as int,
            IntLit::U16(v) => v as int,
            IntLit::U32(v) => v as int,
            IntLit::U64(v) => v as int,
            IntLit::Untyped(v) => v as int,
        }
    }

    pub open spec fn width(self) -> IntWidth {
        match self {
            IntLit::I8(_) => IntWidth::I8,
            IntLit::I16(_) => IntWidth::I16,
            IntLit::I32(_) => IntWidth::I32,
            IntLit::I64(_) => IntWidth::I64,
            IntLit::U8(_) => IntWidth::U8,
            IntLit::U16(_) => IntWidth::U16,
            IntLit::U32(_) => IntWidth::U32,
            IntLit::U64(_) => IntWidth::U64,
            IntLit::Untyped(_) => IntWidth::Untyped,
        }
    }

    /// The literal of the given width that denotes `value`.
    pub open spec fn of(width: IntWidth, value: int) -> IntLit {
        match width {
            IntWidth::I8 => IntLit::I8(value as i8),
            IntWidth::I16 => IntLit::I16(value as i16),
            IntWidth::I32 => IntLit::I32(value as i32),
            IntWidth::I64 => IntLit::I64(value as i64),
            IntWidth::U8 => IntLit::U8(value as u8),
            IntWidth::U16 => IntLit::U16(value as u16),
            IntWidth::U32 => IntLit::U32(value as u32),
            IntWidth::U64 => IntLit::U64(value as u64),
            IntWidth::Untyped => IntLit::Untyped(value as i32),
        }
    }

    /// Builds the literal of the given width from a value that fits it.
    pub fn from_value(width: IntWidth, value: u64) -> (lit: IntLit)
        requires
            value <= width.max(),
        ensures
            lit == IntLit::of(width, value as int),
            lit.value() == value,
            lit.width() == width,
    {
        match width {
            IntWidth::I8 => IntLit::I8(value as i8),
            IntWidth::I16 => IntLit::I16(value as i16),
            IntWidth::I32 => IntLit::I32(value as i32),
            IntWidth::I64 => IntLit::I64(value as i64),
            IntWidth::U8 => IntLit::U8(value as u8),
            IntWidth::U16 => IntLit::U16(value as u16),
            IntWidth::U32 => IntLit::U32(value as u32),
            IntWidth::U64 => IntLit::U64(value),
            IntWidth::Untyped => IntLit::Untyped(value as i32),
        }
    }
}

/// The floating-point types a literal can be given by a width suffix.
#[derive(Clone, Copy, Debug, PartialEq, Eq, Structural)]
pub enum FloatWidth {
    Single,
    Double,
    /// No suffix: the literal is a double-precision number.
    Untyped,
}

/// What kind of token a lexeme is.
#[derive(Clone, Copy, Debug, PartialEq, Eq, Structural)]
pub enum TokenType {
    Eof,
    InlineComment,
    MultilineComment,
    Identifier,
    StringLit,
    IntLit(IntLit),
    FloatLit(FloatWidth),
    // Keywords.
    True,
    False,
    Fn,
    Extern,
    Struct,
    Use,
    Let,
    If,
    Else,
    While,
    Break,
    Continue,
    Return,
    // Operators.
    Add,
    Sub,
    Mul,
    Div,
    Mod,
    Pow,
    BinaryAnd,
    BinaryOr,
    BinaryXor,
    BinaryNot,
    BinaryShl,
    BinaryShr,
    BoolAnd,
    BoolOr,
    BoolNot,
    Eq,
    NotEq,
    Less,
    LessEq,
    Greater,
    GreaterEq,
    Assign,
    AddAssign,
    SubAssign,
    MulAssign,
    DivAssign,
    ModAssign,
    PowAssign,
    BinaryAndAssign,
    BinaryOrAssign,
    BinaryXorAssign,
    BinaryShlAssign,
    BinaryShrAssign,
    // Punctuation.
    Period,
    Comma,
    Colon,
    DoubleColon,
    Semicolon,
    Arrow,
    LeftParen,
    RightParen,
    LeftBracket,
    RightBracket,
    LeftBrace,
    RightBrace,
}

impl TokenType {
    pub open spec fn is_comment(self) -> bool {
        self == TokenType::InlineComment || self == TokenType::MultilineComment
    }
}

/// One lexeme of the source.
///
/// `raw` is the text of the lexeme as written. `text` is what the lexeme
/// carries: the name of an identifier, the decoded contents of a string
/// literal, the body of a comment, the digits of a float literal with the
/// separators and the suffix taken out; it is empty for every other token.
#[derive(Clone, Debug, PartialEq, Eq)]
pub struct Token {
    pub token_type: TokenType,
    pub raw: Vec<u8>,
    pub text: Vec<u8>,
    pub span: Span,
}

/// The mathematical value of a [`Token`].
pub ghost struct TokenView {
    pub token_type: TokenType,
    pub raw: Seq<u8>,
    pub text: Seq<u8>,
    pub span: Span,
}

impl View for Token {
    type V = TokenView;

    open spec fn view(&self) -> TokenView {
        TokenView { token_type: self.token_type, raw: self.raw@, text: self.text@, span: self.span }
    }
}

} // verus!
