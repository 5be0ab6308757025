//! Numeric literals: digits in four bases, separators, fractions, exponents
//! and width suffixes.

use crate::lexer::ascii;
use crate::lexer::chars::{
    byte_digit_value, class_radix, digit_value, in_class, is_decimal_digit, lemma_scan, radix_of,
    scan, scan_class, ByteClass,
};
use crate::lexer::error::NumericFault;
use crate::lexer::token::{FloatWidth, IntLit, IntWidth, TokenType};
use vstd::prelude::*;
use vstd::string::StringSliceAdditionalSpecFns;

verus! {

/// Whether the bytes of `pattern` stand in `input` from `pos` on.
pub open spec fn has_at(input: Seq<u8>, pos: int, pattern: Seq<u8>) -> bool {
    0 <= pos && pos + pattern.len() <= input.len() && input.subrange(pos, pos + pattern.len())
        == pattern
}

/// Whether a run of digits and separators holds at least one digit.
pub open spec fn has_digit(run: Seq<u8>) -> bool {
    exists|i: int| 0 <= i < run.len() && run[i] != ascii::UNDERSCORE
}

/// The run without its separators.
pub open spec fn strip_separators(run: Seq<u8>) -> Seq<u8>
    decreases run.len(),
{
    if run.len() == 0 {
        run
    } else if run.last() == ascii::UNDERSCORE {
        strip_separators(run.drop_last())
    } else {
        strip_separators(run.drop_last()).push(run.last())
    }
}

/// The number that the digits of `run` denote in base `radix`, separators skipped.
pub open spec fn digits_value(run: Seq<u8>, radix: int) -> int
    decreases run.len(),
{
    if run.len() == 0 {
        0
    } else if run.last() == ascii::UNDERSCORE {
        digits_value(run.drop_last(), radix)
    } else {
        digits_value(run.drop_last(), radix) * radix + digit_value(run.last())
    }
}

/// The text of the suffix that names each integer width.
pub open spec fn int_suffix_text(width: IntWidth) -> Seq<u8> {
    match width {
        IntWidth::I8 => "i8".spec_bytes(),
        IntWidth::I16 => "i16".spec_bytes(),
        IntWidth::I32 => "i32".spec_bytes(),
        IntWidth::I64 => "i64".spec_bytes(),
        IntWidth::U8 => "u8".spec_bytes(),
        IntWidth::U16 => "u16".spec_bytes(),
        IntWidth::U32 => "u32".spec_bytes(),
        IntWidth::U64 => "u64".spec_bytes(),
        IntWidth::Untyped => Seq::empty(),
    }
}

/// The text of the suffix that names each float width.
pub open spec fn float_suffix_text(width: FloatWidth) -> Seq<u8> {
    match width {
        FloatWidth::Single => "f32".spec_bytes(),
        FloatWidth::Double => "f64".spec_bytes(),
        FloatWidth::Untyped => Seq::empty(),
    }
}

/// The width whose suffix stands at `pos`; untyped where none does.
pub open spec fn int_suffix_width(input: Seq<u8>, pos: int) -> IntWidth {
    if has_at(input, pos, int_suffix_text(IntWidth::I8)) {
        IntWidth::I8
    } else if has_at(input, pos, int_suffix_text(IntWidth::I16)) {
        IntWidth::I16
    } else if has_at(input, pos, int_suffix_text(IntWidth::I32)) {
        IntWidth::I32
    } else if has_at(input, pos, int_suffix_text(IntWidth::I64)) {
        IntWidth::I64
    } else if has_at(input, pos, int_suffix_text(IntWidth::U8)) {
        IntWidth::U8
    } else if has_at(input, pos, int_suffix_text(IntWidth::U16)) {
        IntWidth::U16
    } else if has_at(input, pos, int_suffix_text(IntWidth::U32)) {
        IntWidth::U32
    } else if has_at(input, pos, int_suffix_text(IntWidth::U64)) {
        IntWidth::U64
    } else {
        IntWidth::Untyped
    }
}

/// The width that an integer suffix at `pos` names, and where the suffix ends.
/// Where no suffix stands at `pos`, the literal is untyped and nothing is consumed.
pub open spec fn int_suffix(input: Seq<u8>, pos: int) -> (IntWidth, int) {
    let width = int_suffix_width(input, pos);
    (width, pos + int_suffix_text(width).len())
}

pub open spec fn float_suffix_width(input: Seq<u8>, pos: int) -> FloatWidth {
    if has_at(input, pos, float_suffix_text(FloatWidth::Single)) {
        FloatWidth::Single
    } else if has_at(input, pos, float_suffix_text(FloatWidth::Double)) {
        FloatWidth::Double
    } else {
        FloatWidth::Untyped
    }
}

/// The width that a float suffix at `pos` names, and where the suffix ends.
pub open spec fn float_suffix(input: Seq<u8>, pos: int) -> (FloatWidth, int) {
    let width = float_suffix_width(input, pos);
    (width, pos + float_suffix_text(width).len())
}

/// What a numeric lexeme turned out to be.
pub ghost struct NumberLex {
    /// The token type and the text the token carries, or the fault.
    pub outcome: Result<(TokenType, Seq<u8>), NumericFault>,
    /// Where the lexeme ends.
    pub end: int,
}

/// The digit class that a base prefix at `pos` selects, if one stands there.
pub open spec fn prefix_class(input: Seq<u8>, pos: int) -> Option<ByteClass> {
    if 0 <= pos && pos + 1 < input.len() && input[pos] == ascii::DIGIT_0 {
        let marker = input[pos + 1];
        if marker == ascii::LOWER_B || marker == ascii::UPPER_B {
            Some(ByteClass::BinaryDigits)
        } else if marker == ascii::LOWER_O || marker == ascii::UPPER_O {
            Some(ByteClass::OctalDigits)
        } else if marker == ascii::LOWER_X || marker == ascii::UPPER_X {
            Some(ByteClass::HexDigits)
        } else {
            None
        }
    } else {
        None
    }
}

pub open spec fn missing_digits(class: ByteClass) -> NumericFault {
    match class {
        ByteClass::BinaryDigits => NumericFault::MissingBinaryDigits,
        ByteClass::OctalDigits => NumericFault::MissingOctalDigits,
        _ => NumericFault::MissingHexDigits,
    }
}

/// An integer literal whose digits are `input[from..to)`, read in the base
/// of `class`, with its suffix: the literal if the value fits the width the
/// suffix names, the overflow fault if it does not.
pub open spec fn lex_integer(input: Seq<u8>, from: int, to: int, class: ByteClass) -> NumberLex {
    let (width, end) = int_suffix(input, to);
    let value = digits_value(input.subrange(from, to), class_radix(class));
    if value <= width.max() {
        NumberLex {
            outcome: Ok((TokenType::IntLit(IntLit::of(width, value)), Seq::<u8>::empty())),
            end,
        }
    } else {
        NumberLex { outcome: Err(NumericFault::Overflow(width)), end }
    }
}

/// A float literal whose digits, point and exponent are `input[from..to)`.
pub open spec fn lex_float(input: Seq<u8>, from: int, to: int) -> NumberLex {
    let (width, end) = float_suffix(input, to);
    NumberLex {
        outcome: Ok((TokenType::FloatLit(width), strip_separators(input.subrange(from, to)))),
        end,
    }
}

pub open spec fn is_exponent_marker(input: Seq<u8>, pos: int) -> bool {
    0 <= pos < input.len() && (input[pos] == ascii::LOWER_E || input[pos] == ascii::UPPER_E)
}

pub open spec fn is_sign(input: Seq<u8>, pos: int) -> bool {
    0 <= pos < input.len() && (input[pos] == ascii::PLUS || input[pos] == ascii::MINUS)
}

/// A decimal literal from its exponent on: `mantissa_end` is where the
/// integer part, or the fraction if there is one, ends.
pub open spec fn lex_exponent(input: Seq<u8>, pos: int, mantissa_end: int, fraction: bool)
    -> NumberLex {
    if is_exponent_marker(input, mantissa_end) {
        let digits_from = if is_sign(input, mantissa_end + 1) {
            mantissa_end + 2
        } else {
            mantissa_end + 1
        };
        let digits_to = scan(input, digits_from, ByteClass::DecimalDigits);
        if has_digit(input.subrange(digits_from, digits_to)) {
            lex_float(input, pos, digits_to)
        } else {
            NumberLex { outcome: Err(NumericFault::IncompleteExponent), end: digits_to }
        }
    } else if fraction || float_suffix(input, mantissa_end).1 != mantissa_end {
        lex_float(input, pos, mantissa_end)
    } else {
        lex_integer(input, pos, mantissa_end, ByteClass::DecimalDigits)
    }
}

/// The numeric literal that starts at `pos`, where a decimal digit stands.
///
/// A base prefix selects binary, octal or hexadecimal digits, of which at
/// least one must follow. Without a prefix the literal is decimal: a point
/// must be followed by a digit, an exponent marker by a digit after its
/// optional sign, and either makes the literal a float, as does a float
/// suffix. Separators may stand among the digits of any run.
pub open spec fn lex_number(input: Seq<u8>, pos: int) -> NumberLex {
    match prefix_class(input, pos) {
        Some(class) => {
            let to = scan(input, pos + 2, class);
            if has_digit(input.subrange(pos + 2, to)) {
                lex_integer(input, pos + 2, to, class)
            } else {
                NumberLex { outcome: Err(missing_digits(class)), end: to }
            }
        },
        None => {
            let int_end = scan(input, pos, ByteClass::DecimalDigits);
            if 0 <= int_end < input.len() && input[int_end] == ascii::PERIOD {
                let frac_end = scan(input, int_end + 1, ByteClass::DecimalDigits);
                if has_digit(input.subrange(int_end + 1, frac_end)) {
                    lex_exponent(input, pos, frac_end, true)
                } else {
                    NumberLex { outcome: Err(NumericFault::IncompleteMantissa), end: frac_end }
                }
            } else {
                lex_exponent(input, pos, int_end, false)
            }
        },
    }
}

/// A prefix of a run of digits denotes no more than the whole run.
pub proof fn lemma_digits_value_prefix(run: Seq<u8>, radix: int, k: int)
    requires
        1 <= radix,
        0 <= k <= run.len(),
    ensures
        0 <= digits_value(run.subrange(0, k), radix) <= digits_value(run, radix),
    decreases run.len() - k,
{
    if k == run.len() {
        assert(run.subrange(0, k) == run);
        lemma_digits_value_nonnegative(run, radix);
    } else {
        lemma_digits_value_prefix(run, radix, k + 1);
        let longer = run.subrange(0, k + 1);
        assert(longer.drop_last() == run.subrange(0, k));
        lemma_digits_value_nonnegative(run.subrange(0, k), radix);
        let shorter = digits_value(run.subrange(0, k), radix);
        assert(shorter <= shorter * radix) by (nonlinear_arith)
            requires
                0 <= shorter,
                1 <= radix,
        ;
    }
}

pub proof fn lemma_digits_value_nonnegative(run: Seq<u8>, radix: int)
    requires
        1 <= radix,
    ensures
        0 <= digits_value(run, radix),
    decreases run.len(),
{
    if run.len() > 0 {
        lemma_digits_value_nonnegative(run.drop_last(), radix);
        let shorter = digits_value(run.drop_last(), radix);
        assert(0 <= shorter * radix) by (nonlinear_arith)
            requires
                0 <= shorter,
                1 <= radix,
        ;
    }
}

/// The executable form of [`NumberLex`].
pub struct Number {
    pub outcome: Result<(TokenType, Vec<u8>), NumericFault>,
    pub end: usize,
}

impl View for Number {
    type V = NumberLex;

    open spec fn view(&self) -> NumberLex {
        NumberLex {
            outcome: match self.outcome {
                Ok((token_type, text)) => Ok((token_type, text@)),
                Err(fault) => Err(fault),
            },
            end: self.end as int,
        }
    }
}

/// Whether `pattern` stands in `input` at `pos`.
pub fn matches_at(input: &[u8], pos: usize, pattern: &[u8]) -> (found: bool)
    requires
        pos <= input@.len(),
    ensures
        found == has_at(input@, pos as int, pattern@),
{
    if pattern.len() > input.len() - pos {
        return false;
    }
    let mut i: usize = 0;
    while i < pattern.len()
        invariant
            pos + pattern@.len() <= input@.len() <= usize::MAX,
            i <= pattern@.len(),
            forall|j: int| 0 <= j < i ==> input@[pos + j] == pattern@[j],
        decreases pattern@.len() - i,
    {
        if input[pos + i] != pattern[i] {
            assert(input@.subrange(pos as int, pos + pattern@.len())[i as int] != pattern@[i as int]);
            return false;
        }
        i = i + 1;
    }
    assert(input@.subrange(pos as int, pos + pattern@.len()) =~= pattern@);
    true
}

/// The suffix of each integer width but the untyped one, which has none.
pub fn int_suffix_bytes(width: IntWidth) -> (text: &'static [u8])
    requires
        width != IntWidth::Untyped,
    ensures
        text@ == int_suffix_text(width),
{
    match width {
        IntWidth::I8 => "i8".as_bytes(),
        IntWidth::I16 => "i16".as_bytes(),
        IntWidth::I32 => "i32".as_bytes(),
        IntWidth::I64 => "i64".as_bytes(),
        IntWidth::U8 => "u8".as_bytes(),
        IntWidth::U16 => "u16".as_bytes(),
        IntWidth::U32 => "u32".as_bytes(),
        _ => "u64".as_bytes(),
    }
}

/// Whether the suffix of `width` stands at `pos`.
fn int_suffix_at(input: &[u8], pos: usize, width: IntWidth) -> (end: Option<usize>)
    requires
        pos <= input@.len(),
        width != IntWidth::Untyped,
    ensures
        end is Some == has_at(input@, pos as int, int_suffix_text(width)),
        end is Some ==> end->0 == pos + int_suffix_text(width).len() && end->0 <= input@.len(),
{
    let text = int_suffix_bytes(width);
    let len = input.len();
    if matches_at(input, pos, text) {
        assert(pos + text@.len() <= len);
        Some(pos + text.len())
    } else {
        None
    }
}

pub fn read_int_suffix(input: &[u8], pos: usize) -> (suffix: (IntWidth, usize))
    requires
        pos <= input@.len(),
    ensures
        (suffix.0, suffix.1 as int) == int_suffix(input@, pos as int),
        pos <= suffix.1 <= input@.len(),
{
    if let Some(end) = int_suffix_at(input, pos, IntWidth::I8) {
        (IntWidth::I8, end)
    } else if let Some(end) = int_suffix_at(input, pos, IntWidth::I16) {
        (IntWidth::I16, end)
    } else if let Some(end) = int_suffix_at(input, pos, IntWidth::I32) {
        (IntWidth::I32, end)
    } else if let Some(end) = int_suffix_at(input, pos, IntWidth::I64) {
        (IntWidth::I64, end)
    } else if let Some(end) = int_suffix_at(input, pos, IntWidth::U8) {
        (IntWidth::U8, end)
    } else if let Some(end) = int_suffix_at(input, pos, IntWidth::U16) {
        (IntWidth::U16, end)
    } else if let Some(end) = int_suffix_at(input, pos, IntWidth::U32) {
        (IntWidth::U32, end)
    } else if let Some(end) = int_suffix_at(input, pos, IntWidth::U64) {
        (IntWidth::U64, end)
    } else {
        (IntWidth::Untyped, pos)
    }
}

/// Whether the suffix of `width` stands at `pos`.
fn float_suffix_at(input: &[u8], pos: usize, width: FloatWidth) -> (end: Option<usize>)
    requires
        pos <= input@.len(),
        width != FloatWidth::Untyped,
    ensures
        end is Some == has_at(input@, pos as int, float_suffix_text(width)),
        end is Some ==> end->0 == pos + float_suffix_text(width).len() && end->0 <= input@.len(),
{
    let text = match width {
        FloatWidth::Single => "f32".as_bytes(),
        _ => "f64".as_bytes(),
    };
    let len = input.len();
    if matches_at(input, pos, text) {
        assert(pos + text@.len() <= len);
        Some(pos + text.len())
    } else {
        None
    }
}

pub fn read_float_suffix(input: &[u8], pos: usize) -> (suffix: (FloatWidth, usize))
    requires
        pos <= input@.len(),
    ensures
        (suffix.0, suffix.1 as int) == float_suffix(input@, pos as int),
        pos <= suffix.1 <= input@.len(),
{
    if let Some(end) = float_suffix_at(input, pos, FloatWidth::Single) {
        (FloatWidth::Single, end)
    } else if let Some(end) = float_suffix_at(input, pos, FloatWidth::Double) {
        (FloatWidth::Double, end)
    } else {
        (FloatWidth::Untyped, pos)
    }
}

/// Whether `input[from..to)` holds a byte that is no separator.
pub fn run_has_digit(input: &[u8], from: usize, to: usize) -> (found: bool)
    requires
        from <= to <= input@.len(),
    ensures
        found == has_digit(input@.subrange(from as int, to as int)),
{
    let ghost run = input@.subrange(from as int, to as int);
    let mut i: usize = from;
    while i < to
        invariant
            from <= i <= to <= input@.len(),
            run == input@.subrange(from as int, to as int),
            forall|j: int| 0 <= j < i - from ==> run[j] == ascii::UNDERSCORE,
        decreases to - i,
    {
        if input[i] != ascii::UNDERSCORE {
            assert(run[i - from] != ascii::UNDERSCORE);
            return true;
        }
        i = i + 1;
    }
    false
}

/// Copies `input[from..to)` without its separators.
pub fn copy_stripped(input: &[u8], from: usize, to: usize) -> (text: Vec<u8>)
    requires
        from <= to <= input@.len(),
    ensures
        text@ == strip_separators(input@.subrange(from as int, to as int)),
{
    let mut text: Vec<u8> = Vec::new();
    let mut i: usize = from;
    while i < to
        invariant
            from <= i <= to <= input@.len(),
            text@ == strip_separators(input@.subrange(from as int, i as int)),
        decreases to - i,
    {
        assert(input@.subrange(from as int, i + 1).drop_last() == input@.subrange(
            from as int,
            i as int,
        ));
        if input[i] != ascii::UNDERSCORE {
            text.push(input[i]);
        }
        i = i + 1;
    }
    text
}

/// Reads the digits of `input[from..to)` in the given base. The value, if it
/// is at most `limit`; `None` if it is larger.
pub fn read_digits(input: &[u8], from: usize, to: usize, class: ByteClass, limit: u64) -> (value:
    Option<u64>)
    requires
        from <= to <= input@.len(),
        class_radix(class) >= 2,
        forall|i: int| from <= i < to ==> in_class(class, #[trigger] input@[i]),
    ensures
        match value {
            Some(v) => v == digits_value(
                input@.subrange(from as int, to as int),
                class_radix(class),
            ) && v <= limit,
            None => digits_value(input@.subrange(from as int, to as int), class_radix(class))
                > limit,
        },
{
    let radix = radix_of(class);
    let ghost run = input@.subrange(from as int, to as int);
    let mut acc: u64 = 0;
    let mut i: usize = from;
    while i < to
        invariant
            from <= i <= to <= input@.len(),
            run == input@.subrange(from as int, to as int),
            radix == class_radix(class),
            2 <= radix <= 16,
            forall|j: int| from <= j < to ==> in_class(class, #[trigger] input@[j]),
            acc == digits_value(run.subrange(0, i - from), radix as int),
            acc <= limit,
        decreases to - i,
    {
        let b = input[i];
        assert(run.subrange(0, i - from + 1).drop_last() == run.subrange(0, i - from));
        assert(run.subrange(0, i - from + 1).last() == b);
        assert(in_class(class, input@[i as int]));
        if b != ascii::UNDERSCORE {
            let digit = byte_digit_value(b);
            assert(acc * radix <= 0xffff_ffff_ffff_ffff * 16) by (nonlinear_arith)
                requires
                    acc <= 0xffff_ffff_ffff_ffff,
                    radix <= 16,
            ;
            let next: u128 = (acc as u128) * (radix as u128) + (digit as u128);
            if next > limit as u128 {
                proof {
                    lemma_digits_value_prefix(run, radix as int, i - from + 1);
                }
                return None;
            }
            acc = next as u64;
        }
        i = i + 1;
    }
    assert(run.subrange(0, to - from) == run);
    Some(acc)
}

/// Reads the suffix of an integer literal whose digits are `input[from..to)`
/// and gives the literal its value.
pub fn read_integer(input: &[u8], from: usize, to: usize, class: ByteClass) -> (number: Number)
    requires
        from <= to <= input@.len(),
        class_radix(class) >= 2,
        forall|i: int| from <= i < to ==> in_class(class, #[trigger] input@[i]),
    ensures
        number@ == lex_integer(input@, from as int, to as int, class),
        to <= number.end <= input@.len(),
{
    let (width, end) = read_int_suffix(input, to);
    match read_digits(input, from, to, class, width.max_value()) {
        Some(value) => Number {
            outcome: Ok((TokenType::IntLit(IntLit::from_value(width, value)), Vec::new())),
            end,
        },
        None => Number { outcome: Err(NumericFault::Overflow(width)), end },
    }
}

/// Reads the suffix of a float literal whose text is `input[from..to)`.
pub fn read_float(input: &[u8], from: usize, to: usize) -> (number: Number)
    requires
        from <= to <= input@.len(),
    ensures
        number@ == lex_float(input@, from as int, to as int),
        to <= number.end <= input@.len(),
{
    let (width, end) = read_float_suffix(input, to);
    Number { outcome: Ok((TokenType::FloatLit(width), copy_stripped(input, from, to))), end }
}

/// Reads a decimal literal from its exponent on.
pub fn read_exponent(input: &[u8], pos: usize, mantissa_end: usize, fraction: bool) -> (number:
    Number)
    requires
        pos <= mantissa_end <= input@.len(),
        !fraction ==> forall|i: int|
            pos <= i < mantissa_end ==> in_class(ByteClass::DecimalDigits, #[trigger] input@[i]),
    ensures
        number@ == lex_exponent(input@, pos as int, mantissa_end as int, fraction),
        mantissa_end <= number.end <= input@.len(),
{
    if mantissa_end < input.len() && (input[mantissa_end] == ascii::LOWER_E || input[mantissa_end]
        == ascii::UPPER_E) {
        let after_marker = mantissa_end + 1;
        let digits_from = if after_marker < input.len() && (input[after_marker] == ascii::PLUS
            || input[after_marker] == ascii::MINUS) {
            after_marker + 1
        } else {
            after_marker
        };
        let digits_to = scan_class(input, digits_from, ByteClass::DecimalDigits);
        if run_has_digit(input, digits_from, digits_to) {
            read_float(input, pos, digits_to)
        } else {
            Number { outcome: Err(NumericFault::IncompleteExponent), end: digits_to }
        }
    } else if fraction || read_float_suffix(input, mantissa_end).1 != mantissa_end {
        read_float(input, pos, mantissa_end)
    } else {
        read_integer(input, pos, mantissa_end, ByteClass::DecimalDigits)
    }
}

/// The digit class of the base prefix at `pos`, if one stands there.
pub fn read_prefix(input: &[u8], pos: usize) -> (class: Option<ByteClass>)
    requires
        pos <= input@.len(),
    ensures
        class == prefix_class(input@, pos as int),
        class is Some ==> pos + 1 < input@.len(),
{
    if pos < input.len() && input.len() - pos > 1 && input[pos] == ascii::DIGIT_0 {
        let marker = input[pos + 1];
        if marker == ascii::LOWER_B || marker == ascii::UPPER_B {
            Some(ByteClass::BinaryDigits)
        } else if marker == ascii::LOWER_O || marker == ascii::UPPER_O {
            Some(ByteClass::OctalDigits)
        } else if marker == ascii::LOWER_X || marker == ascii::UPPER_X {
            Some(ByteClass::HexDigits)
        } else {
            None
        }
    } else {
        None
    }
}

/// Reads the numeric literal that starts at `pos`.
pub fn read_number(input: &[u8], pos: usize) -> (number: Number)
    requires
        pos < input@.len(),
    ensures
        number@ == lex_number(input@, pos as int),
        pos <= number.end <= input@.len(),
{
    match read_prefix(input, pos) {
        Some(class) => {
            assert(pos + 2 <= input.len());
            let to = scan_class(input, pos + 2, class);
            proof {
                lemma_scan(input@, pos + 2, class);
            }
            if run_has_digit(input, pos + 2, to) {
                read_integer(input, pos + 2, to, class)
            } else {
                let fault = match class {
                    ByteClass::BinaryDigits => NumericFault::MissingBinaryDigits,
                    ByteClass::OctalDigits => NumericFault::MissingOctalDigits,
                    _ => NumericFault::MissingHexDigits,
                };
                Number { outcome: Err(fault), end: to }
            }
        },
        None => {
            let int_end = scan_class(input, pos, ByteClass::DecimalDigits);
            proof {
                lemma_scan(input@, pos as int, ByteClass::DecimalDigits);
            }
            if int_end < input.len() && input[int_end] == ascii::PERIOD {
                let frac_end = scan_class(input, int_end + 1, ByteClass::DecimalDigits);
                if run_has_digit(input, int_end + 1, frac_end) {
                    read_exponent(input, pos, frac_end, true)
                } else {
                    Number { outcome: Err(NumericFault::IncompleteMantissa), end: frac_end }
                }
            } else {
                read_exponent(input, pos, int_end, false)
            }
        },
    }
}

/// A numeric literal ends after the digit it starts with, inside the input.
pub proof fn lemma_lex_number_end(input: Seq<u8>, pos: int)
    requires
        0 <= pos < input.len(),
        is_decimal_digit(input[pos]),
    ensures
        pos < lex_number(input, pos).end <= input.len(),
{
    match prefix_class(input, pos) {
        Some(class) => {
            lemma_scan(input, pos + 2, class);
        },
        None => {
            lemma_scan(input, pos, ByteClass::DecimalDigits);
            let int_end = scan(input, pos, ByteClass::DecimalDigits);
            assert(in_class(ByteClass::DecimalDigits, input[pos]));
            assert(int_end > pos);
            if int_end < input.len() && input[int_end] == ascii::PERIOD {
                lemma_scan(input, int_end + 1, ByteClass::DecimalDigits);
                let frac_end = scan(input, int_end + 1, ByteClass::DecimalDigits);
                lemma_lex_exponent_end(input, pos, frac_end);
            } else {
                lemma_lex_exponent_end(input, pos, int_end);
            }
        },
    }
}

pub proof fn lemma_lex_exponent_end(input: Seq<u8>, pos: int, mantissa_end: int)
    requires
        0 <= pos <= mantissa_end <= input.len(),
    ensures
        forall|fraction: bool|
            mantissa_end <= (#[trigger] lex_exponent(input, pos, mantissa_end, fraction)).end
                <= input.len(),
{
    if is_exponent_marker(input, mantissa_end) {
        let digits_from = if is_sign(input, mantissa_end + 1) {
            mantissa_end + 2
        } else {
            mantissa_end + 1
        };
        lemma_scan(input, digits_from, ByteClass::DecimalDigits);
    }
}

} // verus!
