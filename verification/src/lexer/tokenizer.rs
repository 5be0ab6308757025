//! The tokenizer proper: one lexeme per call, from a cursor over the source.

use crate::lexer::ascii;
use crate::lexer::chars::{
    byte_is_decimal_digit, byte_is_ident_start, is_decimal_digit, is_ident_start, lemma_scan, scan,
    scan_class, ByteClass,
};
use crate::lexer::error::{LexerError, LexerErrorKind, LexerErrorView};
use crate::lexer::number::{lemma_lex_number_end, lex_number, matches_at, read_number};
use crate::lexer::string::{
    decode, decode_string, find_string_end, lemma_string_end, string_end, StringEnd,
};
use crate::lexer::token::{Token, TokenType, TokenView};
use crate::span::Span;
use vstd::prelude::*;
use vstd::slice::{slice_subrange, slice_to_vec};
use vstd::string::StringSliceAdditionalSpecFns;

verus! {

/// What stands at a position of the source: the type of the token and the
/// text it carries, or the kind of the lexical error, and where either ends.
pub ghost struct Lexeme {
    pub outcome: Result<(TokenType, Seq<u8>), LexerErrorKind>,
    pub end: int,
}

/// What the tokenizer hands out for one lexeme.
pub type LexView = Result<TokenView, LexerErrorView>;

/// The keyword that `word` spells, if it spells one.
pub open spec fn keyword(word: Seq<u8>) -> Option<TokenType> {
    if word == "true".spec_bytes() {
        Some(TokenType::True)
    } else if word == "false".spec_bytes() {
        Some(TokenType::False)
    } else if word == "fn".spec_bytes() {
        Some(TokenType::Fn)
    } else if word == "extern".spec_bytes() {
        Some(TokenType::Extern)
    } else if word == "struct".spec_bytes() {
        Some(TokenType::Struct)
    } else if word == "use".spec_bytes() {
        Some(TokenType::Use)
    } else if word == "let".spec_bytes() {
        Some(TokenType::Let)
    } else if word == "if".spec_bytes() {
        Some(TokenType::If)
    } else if word == "else".spec_bytes() {
        Some(TokenType::Else)
    } else if word == "while".spec_bytes() {
        Some(TokenType::While)
    } else if word == "break".spec_bytes() {
        Some(TokenType::Break)
    } else if word == "continue".spec_bytes() {
        Some(TokenType::Continue)
    } else if word == "return".spec_bytes() {
        Some(TokenType::Return)
    } else {
        None
    }
}

/// An identifier or a keyword: the longest run of letters, digits and underscores.
pub open spec fn lex_word(input: Seq<u8>, pos: int) -> Lexeme {
    let end = scan(input, pos, ByteClass::IdentContinue);
    let word = input.subrange(pos, end);
    match keyword(word) {
        Some(token_type) => Lexeme { outcome: Ok((token_type, Seq::<u8>::empty())), end },
        None => Lexeme { outcome: Ok((TokenType::Identifier, word)), end },
    }
}

/// A string literal, whose opening quote stands at `pos`.
///
/// A literal that meets the end of its line or of the input before its
/// closing quote is an error that reaches to that end. A closed literal with
/// an unknown escape is an error that spans the whole literal.
pub open spec fn lex_string(input: Seq<u8>, pos: int) -> Lexeme {
    match string_end(input, pos + 1) {
        StringEnd::Unterminated(stop) => Lexeme {
            outcome: Err(LexerErrorKind::UnexpectedEndOfLine),
            end: stop as int,
        },
        StringEnd::Closed(close) => match decode(input, pos + 1, close as int) {
            Some(text) => Lexeme { outcome: Ok((TokenType::StringLit, text)), end: close + 1 },
            None => Lexeme {
                outcome: Err(LexerErrorKind::UnrecognisedStringEscape),
                end: close + 1,
            },
        },
    }
}

/// The byte at `pos`, or 256 where `pos` lies outside the input.
pub open spec fn byte_at(input: Seq<u8>, pos: int) -> int {
    if 0 <= pos < input.len() {
        input[pos] as int
    } else {
        256
    }
}

/// The first position at or after `pos` where `*/` stands.
pub open spec fn comment_close(input: Seq<u8>, pos: int) -> Option<int>
    decreases input.len() - pos,
{
    if pos < 0 || pos + 1 >= input.len() {
        None
    } else if input[pos] == ascii::STAR && input[pos + 1] == ascii::SLASH {
        Some(pos)
    } else {
        comment_close(input, pos + 1)
    }
}

pub proof fn lemma_comment_close(input: Seq<u8>, pos: int)
    requires
        0 <= pos,
    ensures
        comment_close(input, pos) matches Some(close) ==> pos <= close && close + 1 < input.len(),
    decreases input.len() - pos,
{
    if pos + 1 < input.len() && !(input[pos] == ascii::STAR && input[pos + 1] == ascii::SLASH) {
        lemma_comment_close(input, pos + 1);
    }
}

/// The operator or punctuation mark that starts at `pos`, longest first,
/// and its length.
pub open spec fn symbol(input: Seq<u8>, pos: int) -> Option<(TokenType, int)> {
    let first = byte_at(input, pos);
    let second = byte_at(input, pos + 1);
    let third = byte_at(input, pos + 2);
    if first == ascii::PLUS {
        if second == ascii::EQUALS {
            Some((TokenType::AddAssign, 2))
        } else {
            Some((TokenType::Add, 1))
        }
    } else if first == ascii::MINUS {
        if second == ascii::EQUALS {
            Some((TokenType::SubAssign, 2))
        } else if second == ascii::GREATER {
            Some((TokenType::Arrow, 2))
        } else {
            Some((TokenType::Sub, 1))
        }
    } else if first == ascii::STAR {
        if second == ascii::STAR {
            if third == ascii::EQUALS {
                Some((TokenType::PowAssign, 3))
            } else {
                Some((TokenType::Pow, 2))
            }
        } else if second == ascii::EQUALS {
            Some((TokenType::MulAssign, 2))
        } else {
            Some((TokenType::Mul, 1))
        }
    } else if first == ascii::SLASH {
        if second == ascii::EQUALS {
            Some((TokenType::DivAssign, 2))
        } else {
            Some((TokenType::Div, 1))
        }
    } else if first == ascii::PERCENT {
        if second == ascii::EQUALS {
            Some((TokenType::ModAssign, 2))
        } else {
            Some((TokenType::Mod, 1))
        }
    } else if first == ascii::EQUALS {
        if second == ascii::EQUALS {
            Some((TokenType::Eq, 2))
        } else {
            Some((TokenType::Assign, 1))
        }
    } else if first == ascii::BANG {
        if second == ascii::EQUALS {
            Some((TokenType::NotEq, 2))
        } else {
            Some((TokenType::BoolNot, 1))
        }
    } else if first == ascii::LESS {
        if second == ascii::LESS {
            if third == ascii::EQUALS {
                Some((TokenType::BinaryShlAssign, 3))
            } else {
                Some((TokenType::BinaryShl, 2))
            }
        } else if second == ascii::EQUALS {
            Some((TokenType::LessEq, 2))
        } else {
            Some((TokenType::Less, 1))
        }
    } else if first == ascii::GREATER {
        if second == ascii::GREATER {
            if third == ascii::EQUALS {
                Some((TokenType::BinaryShrAssign, 3))
            } else {
                Some((TokenType::BinaryShr, 2))
            }
        } else if second == ascii::EQUALS {
            Some((TokenType::GreaterEq, 2))
        } else {
            Some((TokenType::Greater, 1))
        }
    } else if first == ascii::AMPERSAND {
        if second == ascii::AMPERSAND {
            Some((TokenType::BoolAnd, 2))
        } else if second == ascii::EQUALS {
            Some((TokenType::BinaryAndAssign, 2))
        } else {
            Some((TokenType::BinaryAnd, 1))
        }
    } else if first == ascii::PIPE {
        if second == ascii::PIPE {
            Some((TokenType::BoolOr, 2))
        } else if second == ascii::EQUALS {
            Some((TokenType::BinaryOrAssign, 2))
        } else {
            Some((TokenType::BinaryOr, 1))
        }
    } else if first == ascii::CARET {
        if second == ascii::EQUALS {
            Some((TokenType::BinaryXorAssign, 2))
        } else {
            Some((TokenType::BinaryXor, 1))
        }
    } else if first == ascii::COLON {
        if second == ascii::COLON {
            Some((TokenType::DoubleColon, 2))
        } else {
            Some((TokenType::Colon, 1))
        }
    } else if first == ascii::TILDE {
        Some((TokenType::BinaryNot, 1))
    } else if first == ascii::PERIOD {
        Some((TokenType::Period, 1))
    } else if first == ascii::COMMA {
        Some((TokenType::Comma, 1))
    } else if first == ascii::SEMICOLON {
        Some((TokenType::Semicolon, 1))
    } else if first == ascii::LEFT_PAREN {
        Some((TokenType::LeftParen, 1))
    } else if first == ascii::RIGHT_PAREN {
        Some((TokenType::RightParen, 1))
    } else if first == ascii::LEFT_BRACKET {
        Some((TokenType::LeftBracket, 1))
    } else if first == ascii::RIGHT_BRACKET {
        Some((TokenType::RightBracket, 1))
    } else if first == ascii::LEFT_BRACE {
        Some((TokenType::LeftBrace, 1))
    } else if first == ascii::RIGHT_BRACE {
        Some((TokenType::RightBrace, 1))
    } else {
        None
    }
}

/// An operator or punctuation mark, or the error for a character that
/// starts no token: the error takes the bytes of the whole character.
pub open spec fn lex_symbol(input: Seq<u8>, pos: int) -> Lexeme {
    match symbol(input, pos) {
        Some((token_type, len)) => Lexeme {
            outcome: Ok((token_type, Seq::<u8>::empty())),
            end: pos + len,
        },
        None => Lexeme {
            outcome: Err(LexerErrorKind::UnrecognisedCharacter),
            end: scan(input, pos + 1, ByteClass::Continuation),
        },
    }
}

/// What starts with the slash at `pos`: a comment to the end of the line, a
/// comment to the first `*/`, or, where neither opens or the second never
/// closes, an operator.
pub open spec fn lex_slash(input: Seq<u8>, pos: int) -> Lexeme {
    if byte_at(input, pos + 1) == ascii::SLASH {
        let end = scan(input, pos + 2, ByteClass::NotLineEnd);
        Lexeme { outcome: Ok((TokenType::InlineComment, input.subrange(pos + 2, end))), end }
    } else if byte_at(input, pos + 1) == ascii::STAR {
        match comment_close(input, pos + 2) {
            Some(close) => Lexeme {
                outcome: Ok((TokenType::MultilineComment, input.subrange(pos + 2, close))),
                end: close + 2,
            },
            None => lex_symbol(input, pos),
        }
    } else {
        lex_symbol(input, pos)
    }
}

/// The numeric literal at `pos`, with its fault as a lexical error.
pub open spec fn lex_numeric(input: Seq<u8>, pos: int) -> Lexeme {
    let number = lex_number(input, pos);
    Lexeme {
        outcome: match number.outcome {
            Ok(token) => Ok(token),
            Err(fault) => Err(LexerErrorKind::InvalidNumericLiteral(fault)),
        },
        end: number.end,
    }
}

/// The lexeme that starts at `pos`, a position inside the input where no
/// whitespace stands.
#[verifier::opaque]
pub open spec fn lexeme_at(input: Seq<u8>, pos: int) -> Lexeme {
    let first = input[pos];
    if is_decimal_digit(first) {
        lex_numeric(input, pos)
    } else if is_ident_start(first) {
        lex_word(input, pos)
    } else if first == ascii::QUOTE {
        lex_string(input, pos)
    } else if first == ascii::SLASH {
        lex_slash(input, pos)
    } else {
        lex_symbol(input, pos)
    }
}

/// The token or the error of a lexeme that starts at `start`, with the
/// text it was read from and the span of that text.
pub open spec fn spanned(input: Seq<u8>, start: int, lexeme: Lexeme) -> LexView {
    let span = Span { start: start as usize, end: lexeme.end as usize };
    let raw = input.subrange(start, lexeme.end);
    match lexeme.outcome {
        Ok((token_type, text)) => Ok(TokenView { token_type, raw, text, span }),
        Err(kind) => Err(LexerErrorView { kind, raw, span }),
    }
}

/// The result of tokenizing `input` from `pos`.
///
/// Whitespace is skipped. At the end of the input stands the end-of-input
/// token, with an empty span at the final offset. Anything else is the
/// lexeme that starts there: a token or an error, either with the text it
/// was read from and the span of that text.
#[verifier::opaque]
pub open spec fn lex(input: Seq<u8>, pos: int) -> LexView {
    let start = scan(input, pos, ByteClass::Whitespace);
    if start < 0 || start >= input.len() {
        Ok(
            TokenView {
                token_type: TokenType::Eof,
                raw: Seq::empty(),
                text: Seq::empty(),
                span: Span { start: input.len() as usize, end: input.len() as usize },
            },
        )
    } else {
        spanned(input, start, lexeme_at(input, start))
    }
}

/// The span of what tokenizing handed out, token or error.
pub open spec fn lex_span(result: LexView) -> Span {
    match result {
        Ok(token) => token.span,
        Err(error) => error.span,
    }
}

/// The mathematical value of what the tokenizer hands out.
pub open spec fn lex_view(result: Result<Token, LexerError>) -> LexView {
    match result {
        Ok(token) => Ok(token@),
        Err(error) => Err(error@),
    }
}

/// The executable form of [`Lexeme`].
pub struct Scanned {
    pub outcome: Result<(TokenType, Vec<u8>), LexerErrorKind>,
    pub end: usize,
}

impl View for Scanned {
    type V = Lexeme;

    open spec fn view(&self) -> Lexeme {
        Lexeme {
            outcome: match self.outcome {
                Ok((token_type, text)) => Ok((token_type, text@)),
                Err(kind) => Err(kind),
            },
            end: self.end as int,
        }
    }
}

/// Whether two runs of bytes are the same.
pub fn bytes_equal(left: &[u8], right: &[u8]) -> (same: bool)
    ensures
        same == (left@ == right@),
{
    if left.len() != right.len() {
        return false;
    }
    let same = matches_at(left, 0, right);
    assert(left@.subrange(0, left@.len() as int) == left@);
    same
}

/// The keyword that `word` spells, if it spells one.
pub fn keyword_of(word: &[u8]) -> (found: Option<TokenType>)
    ensures
        found == keyword(word@),
{
    if bytes_equal(word, "true".as_bytes()) {
        Some(TokenType::True)
    } else if bytes_equal(word, "false".as_bytes()) {
        Some(TokenType::False)
    } else if bytes_equal(word, "fn".as_bytes()) {
        Some(TokenType::Fn)
    } else if bytes_equal(word, "extern".as_bytes()) {
        Some(TokenType::Extern)
    } else if bytes_equal(word, "struct".as_bytes()) {
        Some(TokenType::Struct)
    } else if bytes_equal(word, "use".as_bytes()) {
        Some(TokenType::Use)
    } else if bytes_equal(word, "let".as_bytes()) {
        Some(TokenType::Let)
    } else if bytes_equal(word, "if".as_bytes()) {
        Some(TokenType::If)
    } else if bytes_equal(word, "else".as_bytes()) {
        Some(TokenType::Else)
    } else if bytes_equal(word, "while".as_bytes()) {
        Some(TokenType::While)
    } else if bytes_equal(word, "break".as_bytes()) {
        Some(TokenType::Break)
    } else if bytes_equal(word, "continue".as_bytes()) {
        Some(TokenType::Continue)
    } else if bytes_equal(word, "return".as_bytes()) {
        Some(TokenType::Return)
    } else {
        None
    }
}

/// A copy of `input[from..to)`.
pub fn copy_range(input: &[u8], from: usize, to: usize) -> (bytes: Vec<u8>)
    requires
        from <= to <= input@.len(),
    ensures
        bytes@ == input@.subrange(from as int, to as int),
{
    slice_to_vec(slice_subrange(input, from, to))
}

fn read_word(input: &[u8], pos: usize) -> (scanned: Scanned)
    requires
        pos < input@.len(),
        is_ident_start(input@[pos as int]),
    ensures
        scanned@ == lex_word(input@, pos as int),
        pos < scanned.end <= input@.len(),
{
    let end = scan_class(input, pos, ByteClass::IdentContinue);
    proof {
        lemma_scan(input@, pos + 1, ByteClass::IdentContinue);
    }
    match keyword_of(slice_subrange(input, pos, end)) {
        Some(token_type) => Scanned { outcome: Ok((token_type, Vec::new())), end },
        None => Scanned { outcome: Ok((TokenType::Identifier, copy_range(input, pos, end))), end },
    }
}

fn read_string(input: &[u8], pos: usize) -> (scanned: Scanned)
    requires
        pos < input@.len(),
    ensures
        scanned@ == lex_string(input@, pos as int),
        pos < scanned.end <= input@.len(),
{
    let len = input.len();
    proof {
        lemma_string_end(input@, pos + 1);
    }
    match find_string_end(input, pos + 1) {
        StringEnd::Unterminated(stop) => Scanned {
            outcome: Err(LexerErrorKind::UnexpectedEndOfLine),
            end: stop,
        },
        StringEnd::Closed(close) => match decode_string(input, pos + 1, close) {
            Some(text) => Scanned { outcome: Ok((TokenType::StringLit, text)), end: close + 1 },
            None => Scanned {
                outcome: Err(LexerErrorKind::UnrecognisedStringEscape),
                end: close + 1,
            },
        },
    }
}

/// The byte at `pos`, or 256 past the end of the input.
fn peek(input: &[u8], pos: usize) -> (byte: u16)
    ensures
        byte == byte_at(input@, pos as int),
{
    if pos < input.len() {
        input[pos] as u16
    } else {
        256
    }
}

/// The byte `offset` places after `pos`, or 256 past the end of the input.
fn peek_after(input: &[u8], pos: usize, offset: usize) -> (byte: u16)
    requires
        pos < input@.len(),
    ensures
        byte == byte_at(input@, pos + offset),
{
    if offset < input.len() - pos {
        input[pos + offset] as u16
    } else {
        256
    }
}

fn is_byte(peeked: u16, byte: u8) -> (same: bool)
    ensures
        same == (peeked == byte),
{
    peeked == byte as u16
}

/// The operator or punctuation mark at `pos`, and its length.
pub fn read_symbol(input: &[u8], pos: usize) -> (found: Option<(TokenType, usize)>)
    requires
        pos < input@.len(),
    ensures
        match found {
            Some((token_type, len)) => symbol(input@, pos as int) == Some((token_type, len as int))
                && 1 <= len && pos + len <= input@.len(),
            None => symbol(input@, pos as int) is None,
        },
{
    let first = input[pos];
    let second = peek_after(input, pos, 1);
    let third = peek_after(input, pos, 2);
    if first == ascii::PLUS {
        if is_byte(second, ascii::EQUALS) {
            Some((TokenType::AddAssign, 2))
        } else {
            Some((TokenType::Add, 1))
        }
    } else if first == ascii::MINUS {
        if is_byte(second, ascii::EQUALS) {
            Some((TokenType::SubAssign, 2))
        } else if is_byte(second, ascii::GREATER) {
            Some((TokenType::Arrow, 2))
        } else {
            Some((TokenType::Sub, 1))
        }
    } else if first == ascii::STAR {
        if is_byte(second, ascii::STAR) {
            if is_byte(third, ascii::EQUALS) {
                Some((TokenType::PowAssign, 3))
            } else {
                Some((TokenType::Pow, 2))
            }
        } else if is_byte(second, ascii::EQUALS) {
            Some((TokenType::MulAssign, 2))
        } else {
            Some((TokenType::Mul, 1))
        }
    } else if first == ascii::SLASH {
        if is_byte(second, ascii::EQUALS) {
            Some((TokenType::DivAssign, 2))
        } else {
            Some((TokenType::Div, 1))
        }
    } else if first == ascii::PERCENT {
        if is_byte(second, ascii::EQUALS) {
            Some((TokenType::ModAssign, 2))
        } else {
            Some((TokenType::Mod, 1))
        }
    } else if first == ascii::EQUALS {
        if is_byte(second, ascii::EQUALS) {
            Some((TokenType::Eq, 2))
        } else {
            Some((TokenType::Assign, 1))
        }
    } else if first == ascii::BANG {
        if is_byte(second, ascii::EQUALS) {
            Some((TokenType::NotEq, 2))
        } else {
            Some((TokenType::BoolNot, 1))
        }
    } else if first == ascii::LESS {
        if is_byte(second, ascii::LESS) {
            if is_byte(third, ascii::EQUALS) {
                Some((TokenType::BinaryShlAssign, 3))
            } else {
                Some((TokenType::BinaryShl, 2))
            }
        } else if is_byte(second, ascii::EQUALS) {
            Some((TokenType::LessEq, 2))
        } else {
            Some((TokenType::Less, 1))
        }
    } else if first == ascii::GREATER {
        if is_byte(second, ascii::GREATER) {
            if is_byte(third, ascii::EQUALS) {
                Some((TokenType::BinaryShrAssign, 3))
            } else {
                Some((TokenType::BinaryShr, 2))
            }
        } else if is_byte(second, ascii::EQUALS) {
            Some((TokenType::GreaterEq, 2))
        } else {
            Some((TokenType::Greater, 1))
        }
    } else if first == ascii::AMPERSAND {
        if is_byte(second, ascii::AMPERSAND) {
            Some((TokenType::BoolAnd, 2))
        } else if is_byte(second, ascii::EQUALS) {
            Some((TokenType::BinaryAndAssign, 2))
        } else {
            Some((TokenType::BinaryAnd, 1))
        }
    } else if first == ascii::PIPE {
        if is_byte(second, ascii::PIPE) {
            Some((TokenType::BoolOr, 2))
        } else if is_byte(second, ascii::EQUALS) {
            Some((TokenType::BinaryOrAssign, 2))
        } else {
            Some((TokenType::BinaryOr, 1))
        }
    } else if first == ascii::CARET {
        if is_byte(second, ascii::EQUALS) {
            Some((TokenType::BinaryXorAssign, 2))
        } else {
            Some((TokenType::BinaryXor, 1))
        }
    } else if first == ascii::COLON {
        if is_byte(second, ascii::COLON) {
            Some((TokenType::DoubleColon, 2))
        } else {
            Some((TokenType::Colon, 1))
        }
    } else if first == ascii::TILDE {
        Some((TokenType::BinaryNot, 1))
    } else if first == ascii::PERIOD {
        Some((TokenType::Period, 1))
    } else if first == ascii::COMMA {
        Some((TokenType::Comma, 1))
    } else if first == ascii::SEMICOLON {
        Some((TokenType::Semicolon, 1))
    } else if first == ascii::LEFT_PAREN {
        Some((TokenType::LeftParen, 1))
    } else if first == ascii::RIGHT_PAREN {
        Some((TokenType::RightParen, 1))
    } else if first == ascii::LEFT_BRACKET {
        Some((TokenType::LeftBracket, 1))
    } else if first == ascii::RIGHT_BRACKET {
        Some((TokenType::RightBracket, 1))
    } else if first == ascii::LEFT_BRACE {
        Some((TokenType::LeftBrace, 1))
    } else if first == ascii::RIGHT_BRACE {
        Some((TokenType::RightBrace, 1))
    } else {
        None
    }
}

fn read_symbol_lexeme(input: &[u8], pos: usize) -> (scanned: Scanned)
    requires
        pos < input@.len(),
    ensures
        scanned@ == lex_symbol(input@, pos as int),
        pos < scanned.end <= input@.len(),
{
    let input_len = input.len();
    match read_symbol(input, pos) {
        Some((token_type, len)) => Scanned {
            outcome: Ok((token_type, Vec::new())),
            end: pos + len,
        },
        None => Scanned {
            outcome: Err(LexerErrorKind::UnrecognisedCharacter),
            end: scan_class(input, pos + 1, ByteClass::Continuation),
        },
    }
}

/// The first position at or after `pos` where `*/` stands.
pub fn find_comment_close(input: &[u8], pos: usize) -> (close: Option<usize>)
    requires
        pos <= input@.len(),
    ensures
        match close {
            Some(at) => comment_close(input@, pos as int) == Some(at as int) && pos <= at && at
                + 1 < input@.len(),
            None => comment_close(input@, pos as int) is None,
        },
{
    let len = input.len();
    let mut i: usize = pos;
    while len - i > 1
        invariant
            pos <= i <= len == input@.len(),
            comment_close(input@, pos as int) == comment_close(input@, i as int),
        decreases len - i,
    {
        if input[i] == ascii::STAR && input[i + 1] == ascii::SLASH {
            return Some(i);
        }
        i = i + 1;
    }
    None
}

fn read_slash(input: &[u8], pos: usize) -> (scanned: Scanned)
    requires
        pos < input@.len(),
    ensures
        scanned@ == lex_slash(input@, pos as int),
        pos < scanned.end <= input@.len(),
{
    let len = input.len();
    let second = peek_after(input, pos, 1);
    if is_byte(second, ascii::SLASH) {
        let end = scan_class(input, pos + 2, ByteClass::NotLineEnd);
        Scanned { outcome: Ok((TokenType::InlineComment, copy_range(input, pos + 2, end))), end }
    } else if is_byte(second, ascii::STAR) {
        match find_comment_close(input, pos + 2) {
            Some(close) => Scanned {
                outcome: Ok((TokenType::MultilineComment, copy_range(input, pos + 2, close))),
                end: close + 2,
            },
            None => read_symbol_lexeme(input, pos),
        }
    } else {
        read_symbol_lexeme(input, pos)
    }
}

fn read_numeric(input: &[u8], pos: usize) -> (scanned: Scanned)
    requires
        pos < input@.len(),
        is_decimal_digit(input@[pos as int]),
    ensures
        scanned@ == lex_numeric(input@, pos as int),
        pos < scanned.end <= input@.len(),
{
    proof {
        lemma_lex_number_end(input@, pos as int);
    }
    let number = read_number(input, pos);
    match number.outcome {
        Ok(token) => Scanned { outcome: Ok(token), end: number.end },
        Err(fault) => Scanned {
            outcome: Err(LexerErrorKind::InvalidNumericLiteral(fault)),
            end: number.end,
        },
    }
}

/// Reads the lexeme that starts at `pos`.
pub fn read_lexeme(input: &[u8], pos: usize) -> (scanned: Scanned)
    requires
        pos < input@.len(),
    ensures
        scanned@ == lexeme_at(input@, pos as int),
        pos < scanned.end <= input@.len(),
{
    reveal(lexeme_at);
    let first = input[pos];
    if byte_is_decimal_digit(first) {
        read_numeric(input, pos)
    } else if byte_is_ident_start(first) {
        read_word(input, pos)
    } else if first == ascii::QUOTE {
        read_string(input, pos)
    } else if first == ascii::SLASH {
        read_slash(input, pos)
    } else {
        read_symbol_lexeme(input, pos)
    }
}

/// A cursor over the source that hands out one lexeme per call.
pub struct Tokenizer<'src> {
    input: &'src [u8],
    cursor: usize,
}

impl<'src> Tokenizer<'src> {
    #[verifier::type_invariant]
    spec fn inv(self) -> bool {
        self.cursor <= self.input@.len()
    }

    /// The source text.
    pub closed spec fn source(self) -> Seq<u8> {
        self.input@
    }

    /// The offset from which the next lexeme will be read.
    pub closed spec fn position(self) -> int {
        self.cursor as int
    }

    pub fn new(input: &'src [u8]) -> (tokenizer: Self)
        ensures
            tokenizer.source() == input@,
            tokenizer.source().len() <= usize::MAX,
            tokenizer.position() == 0,
    {
        let len = input.len();
        Tokenizer { input, cursor: 0 }
    }

    /// The offset from which the next lexeme will be read.
    pub fn offset(&self) -> (offset: usize)
        ensures
            offset == self.position(),
            offset <= self.source().len(),
    {
        proof {
            use_type_invariant(self);
        }
        self.cursor
    }

    /// Reads the next lexeme and moves the cursor to its end.
    ///
    /// At the end of the input every call hands out the same end-of-input
    /// token and leaves the cursor where it is.
    pub fn next_token(&mut self) -> (result: Result<Token, LexerError>)
        ensures
            lex_view(result) == lex(old(self).source(), old(self).position()),
            final(self).source() == old(self).source(),
            final(self).position() == lex_span(lex_view(result)).end,
            old(self).position() <= lex_span(lex_view(result)).start <= final(self).position()
                <= old(self).source().len(),
            !(result matches Ok(token) && token.token_type == TokenType::Eof) ==> lex_span(
                lex_view(result),
            ).start < final(self).position(),
    {
        proof {
            use_type_invariant(&*self);
        }
        reveal(lex);
        let input = self.input;
        let len = input.len();
        let start = scan_class(input, self.cursor, ByteClass::Whitespace);
        if start >= len {
            self.cursor = len;
            return Ok(
                Token {
                    token_type: TokenType::Eof,
                    raw: Vec::new(),
                    text: Vec::new(),
                    span: Span { start: len, end: len },
                },
            );
        }
        let scanned = read_lexeme(input, start);
        let span = Span { start, end: scanned.end };
        let raw = copy_range(input, start, scanned.end);
        self.cursor = scanned.end;
        match scanned.outcome {
            Ok((token_type, text)) => Ok(Token { token_type, raw, text, span }),
            Err(kind) => Err(LexerError { kind, raw, span }),
        }
    }
}

/// Whether what the tokenizer handed out is the end-of-input token.
pub open spec fn is_eof(result: LexView) -> bool {
    result matches Ok(token) && token.token_type == TokenType::Eof
}

/// The lexeme read from `pos` starts at or after `pos`, past the whitespace
/// there, and ends inside the input; only the end-of-input token is empty,
/// and it stands at the end of the input.
pub proof fn lemma_lex_span(input: Seq<u8>, pos: int)
    requires
        0 <= pos <= input.len() <= usize::MAX,
    ensures
        pos <= lex_span(lex(input, pos)).start <= lex_span(lex(input, pos)).end <= input.len(),
        is_eof(lex(input, pos)) ==> lex_span(lex(input, pos)).start == input.len(),
        !is_eof(lex(input, pos)) ==> lex_span(lex(input, pos)).start < lex_span(
            lex(input, pos),
        ).end && lex_span(lex(input, pos)).start == scan(input, pos, ByteClass::Whitespace),
{
    reveal(lex);
    lemma_scan(input, pos, ByteClass::Whitespace);
    let start = scan(input, pos, ByteClass::Whitespace);
    if start < input.len() {
        lemma_lexeme_end(input, start);
    }
}

/// A lexeme ends after the byte it starts with, inside the input, and is
/// never the end-of-input token.
pub proof fn lemma_lexeme_end(input: Seq<u8>, pos: int)
    requires
        0 <= pos < input.len() <= usize::MAX,
    ensures
        pos < lexeme_at(input, pos).end <= input.len(),
        lexeme_at(input, pos).outcome matches Ok(token) ==> token.0 != TokenType::Eof,
{
    reveal(lexeme_at);
    let first = input[pos];
    if is_decimal_digit(first) {
        lemma_lex_number_end(input, pos);
    } else if is_ident_start(first) {
        lemma_scan(input, pos + 1, ByteClass::IdentContinue);
    } else if first == ascii::QUOTE {
        lemma_string_end(input, pos + 1);
    } else {
        lemma_scan(input, pos + 1, ByteClass::Continuation);
        if pos + 2 <= input.len() {
            lemma_scan(input, pos + 2, ByteClass::NotLineEnd);
        }
        lemma_comment_close(input, pos + 2);
    }
}

/// What a source of lexemes hands out.
pub type LexerResult = Result<Token, LexerError>;

/// A source of lexemes, one per call.
pub trait Lexer {
    fn next_token(&mut self) -> LexerResult;
}

impl<'src> Lexer for Tokenizer<'src> {
    fn next_token(&mut self) -> (result: LexerResult)
        ensures
            lex_view(result) == lex(old(self).source(), old(self).position()),
            final(self).source() == old(self).source(),
            final(self).position() == lex_span(lex_view(result)).end,
    {
        Tokenizer::next_token(self)
    }
}

} // verus!
