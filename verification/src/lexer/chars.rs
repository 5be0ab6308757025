//! Classes of source bytes, and scanning over runs of a class.

use crate::lexer::ascii;
use vstd::prelude::*;

verus! {

/// The classes of bytes that the tokenizer scans runs of.
#[derive(Clone, Copy, Debug, PartialEq, Eq, Structural)]
pub enum ByteClass {
    /// Space, tab, carriage return and line feed.
    Whitespace,
    /// Letters, digits and the underscore.
    IdentContinue,
    /// Digits of base 2 and the underscore separator.
    BinaryDigits,
    /// Digits of base 8 and the underscore separator.
    OctalDigits,
    /// Digits of base 10 and the underscore separator.
    DecimalDigits,
    /// Digits of base 16, in either case, and the underscore separator.
    HexDigits,
    /// Every byte but carriage return and line feed.
    NotLineEnd,
    /// The bytes `0x80..=0xBF`, which continue a multi-byte character.
    Continuation,
}

pub open spec fn is_whitespace(b: u8) -> bool {
    b == ascii::SPACE || b == ascii::TAB || b == ascii::CARRIAGE_RETURN || b == ascii::LINE_FEED
}

pub open spec fn is_line_end(b: u8) -> bool {
    b == ascii::CARRIAGE_RETURN || b == ascii::LINE_FEED
}

pub open spec fn is_ident_start(b: u8) -> bool {
    (ascii::LOWER_A <= b && b <= ascii::LOWER_Z) || (ascii::UPPER_A <= b && b <= ascii::UPPER_Z) || b == ascii::UNDERSCORE
}

pub open spec fn is_decimal_digit(b: u8) -> bool {
    ascii::DIGIT_0 <= b && b <= ascii::DIGIT_9
}

pub open spec fn is_ident_continue(b: u8) -> bool {
    is_ident_start(b) || is_decimal_digit(b)
}

/// The numeric value of a digit in any base up to 16, or 16 for a byte
/// that is no digit at all.
pub open spec fn digit_value(b: u8) -> int {
    if ascii::DIGIT_0 <= b && b <= ascii::DIGIT_9 {
        b - ascii::DIGIT_0
    } else if ascii::LOWER_A <= b && b <= ascii::LOWER_F {
        b - ascii::LOWER_A + 10
    } else if ascii::UPPER_A <= b && b <= ascii::UPPER_F {
        b - ascii::UPPER_A + 10
    } else {
        16
    }
}

pub open spec fn is_digit(b: u8, radix: int) -> bool {
    digit_value(b) < radix
}

pub open spec fn class_radix(class: ByteClass) -> int {
    match class {
        ByteClass::BinaryDigits => 2,
        ByteClass::OctalDigits => 8,
        ByteClass::DecimalDigits => 10,
        ByteClass::HexDigits => 16,
        _ => 0,
    }
}

pub open spec fn in_class(class: ByteClass, b: u8) -> bool {
    match class {
        ByteClass::Whitespace => is_whitespace(b),
        ByteClass::IdentContinue => is_ident_continue(b),
        ByteClass::NotLineEnd => !is_line_end(b),
        ByteClass::Continuation => 0x80 <= b && b <= 0xBF,
        _ => b == ascii::UNDERSCORE || is_digit(b, class_radix(class)),
    }
}

/// The first position at or after `pos` whose byte is outside `class`, or
/// the length of the input where there is none.
pub open spec fn scan(input: Seq<u8>, pos: int, class: ByteClass) -> int
    decreases input.len() - pos,
{
    if 0 <= pos < input.len() && in_class(class, input[pos]) {
        scan(input, pos + 1, class)
    } else {
        pos
    }
}

/// `scan` stops inside the input, at or after its start, on a byte outside
/// the class, and skips only bytes of the class.
pub proof fn lemma_scan(input: Seq<u8>, pos: int, class: ByteClass)
    requires
        0 <= pos <= input.len(),
    ensures
        pos <= scan(input, pos, class) <= input.len(),
        scan(input, pos, class) < input.len() ==> !in_class(
            class,
            input[scan(input, pos, class)],
        ),
        forall|i: int| pos <= i < scan(input, pos, class) ==> in_class(class, #[trigger] input[i]),
    decreases input.len() - pos,
{
    if pos < input.len() && in_class(class, input[pos]) {
        lemma_scan(input, pos + 1, class);
    }
}

/// Any position that `scan` characterises is the one it returns.
pub proof fn lemma_scan_unique(input: Seq<u8>, pos: int, class: ByteClass, end: int)
    requires
        0 <= pos <= end <= input.len(),
        forall|i: int| pos <= i < end ==> in_class(class, #[trigger] input[i]),
        end < input.len() ==> !in_class(class, input[end]),
    ensures
        scan(input, pos, class) == end,
    decreases end - pos,
{
    if pos < end {
        lemma_scan_unique(input, pos + 1, class, end);
    }
}

pub fn byte_is_whitespace(b: u8) -> (r: bool)
    ensures
        r == is_whitespace(b),
{
    b == ascii::SPACE || b == ascii::TAB || b == ascii::CARRIAGE_RETURN || b == ascii::LINE_FEED
}

pub fn byte_is_ident_start(b: u8) -> (r: bool)
    ensures
        r == is_ident_start(b),
{
    (ascii::LOWER_A <= b && b <= ascii::LOWER_Z) || (ascii::UPPER_A <= b && b <= ascii::UPPER_Z) || b == ascii::UNDERSCORE
}

pub fn byte_is_decimal_digit(b: u8) -> (r: bool)
    ensures
        r == is_decimal_digit(b),
{
    ascii::DIGIT_0 <= b && b <= ascii::DIGIT_9
}

/// The value of `b` as a digit, 16 where it is none.
pub fn byte_digit_value(b: u8) -> (value: u8)
    ensures
        value == digit_value(b),
{
    if ascii::DIGIT_0 <= b && b <= ascii::DIGIT_9 {
        b - ascii::DIGIT_0
    } else if ascii::LOWER_A <= b && b <= ascii::LOWER_F {
        b - ascii::LOWER_A + 10
    } else if ascii::UPPER_A <= b && b <= ascii::UPPER_F {
        b - ascii::UPPER_A + 10
    } else {
        16
    }
}

pub fn radix_of(class: ByteClass) -> (radix: u8)
    ensures
        radix == class_radix(class),
{
    match class {
        ByteClass::BinaryDigits => 2,
        ByteClass::OctalDigits => 8,
        ByteClass::DecimalDigits => 10,
        ByteClass::HexDigits => 16,
        _ => 0,
    }
}

pub fn byte_in_class(class: ByteClass, b: u8) -> (r: bool)
    ensures
        r == in_class(class, b),
{
    match class {
        ByteClass::Whitespace => byte_is_whitespace(b),
        ByteClass::IdentContinue => byte_is_ident_start(b) || byte_is_decimal_digit(b),
        ByteClass::NotLineEnd => !(b == ascii::CARRIAGE_RETURN || b == ascii::LINE_FEED),
        ByteClass::Continuation => 0x80 <= b && b <= 0xBF,
        _ => b == ascii::UNDERSCORE || byte_digit_value(b) < radix_of(class),
    }
}

/// Skips the run of bytes of `class` that starts at `pos`.
pub fn scan_class(input: &[u8], pos: usize, class: ByteClass) -> (end: usize)
    requires
        pos <= input@.len(),
    ensures
        end == scan(input@, pos as int, class),
        pos <= end <= input@.len(),
{
    let mut end: usize = pos;
    while end < input.len() && byte_in_class(class, input[end])
        invariant
            pos <= end <= input@.len(),
            scan(input@, pos as int, class) == scan(input@, end as int, class),
        decreases input@.len() - end,
    {
        end = end + 1;
    }
    end
}

} // verus!
