//! Tokens depend on nothing but their own text: tokenizing the text of a
//! token on its own yields the same token again.

use crate::lexer::ascii;
use crate::lexer::chars::{in_class, is_whitespace, lemma_scan, lemma_scan_unique, scan, ByteClass};
use crate::lexer::error::LexerErrorView;
use crate::lexer::laws::lemma_suffix_texts;
use crate::lexer::number::{
    digits_value, float_suffix, float_suffix_text, float_suffix_width, has_at, has_digit,
    int_suffix, int_suffix_text, int_suffix_width, is_exponent_marker, is_sign,
    lemma_lex_exponent_end, lemma_lex_number_end, lex_exponent, lex_float, lex_integer,
    lex_number, prefix_class, strip_separators, NumberLex,
};
use crate::lexer::string::{decode, escape, lemma_string_end, prepend, string_end, StringEnd};
use crate::lexer::token::{FloatWidth, IntWidth, TokenType, TokenView};
use crate::lexer::tokenizer::{
    byte_at, comment_close, lemma_comment_close, lemma_lexeme_end, lex, lex_numeric, lex_slash,
    lex_string, lex_symbol, lex_word, lexeme_at, symbol, Lexeme,
};
use crate::span::Span;
use vstd::prelude::*;

verus! {

/// A window of the input: the bytes from `from` up to `to`.
pub open spec fn window(input: Seq<u8>, from: int, to: int) -> Seq<u8> {
    input.subrange(from, to)
}

/// A scan that stays inside a window stops at the same byte in the window.
pub proof fn lemma_scan_window(input: Seq<u8>, from: int, to: int, pos: int, class: ByteClass)
    requires
        0 <= from <= pos <= to <= input.len(),
        scan(input, pos, class) <= to,
    ensures
        scan(window(input, from, to), pos - from, class) == scan(input, pos, class) - from,
{
    lemma_scan(input, pos, class);
    let raw = window(input, from, to);
    let end = scan(input, pos, class);
    assert forall|i: int| pos - from <= i < end - from implies in_class(class, #[trigger] raw[i]) by {
        assert(raw[i] == input[i + from]);
    }
    lemma_scan_unique(raw, pos - from, class, end - from);
}

/// A pattern stands in a window where it stands in the input and fits the window.
pub proof fn lemma_has_at_window(input: Seq<u8>, from: int, to: int, pos: int, pattern: Seq<u8>)
    requires
        0 <= from <= pos <= to <= input.len(),
    ensures
        has_at(window(input, from, to), pos - from, pattern) == (has_at(input, pos, pattern) && pos
            + pattern.len() <= to),
{
    let raw = window(input, from, to);
    if pos + pattern.len() <= to {
        assert(raw.subrange(pos - from, pos - from + pattern.len()) =~= input.subrange(
            pos,
            pos + pattern.len(),
        ));
    }
}

/// The suffix of an integer literal that ends the window is the suffix
/// that is read in the window.
proof fn lemma_int_suffix_window(input: Seq<u8>, from: int, pos: int)
    requires
        0 <= from <= pos <= input.len(),
    ensures
        pos <= int_suffix(input, pos).1 <= input.len(),
        int_suffix(window(input, from, int_suffix(input, pos).1), pos - from) == (
            int_suffix(input, pos).0,
            int_suffix(input, pos).1 - from,
        ),
{
    let to = int_suffix(input, pos).1;
    lemma_has_at_window(input, from, to, pos, int_suffix_text(IntWidth::I8));
    lemma_has_at_window(input, from, to, pos, int_suffix_text(IntWidth::I16));
    lemma_has_at_window(input, from, to, pos, int_suffix_text(IntWidth::I32));
    lemma_has_at_window(input, from, to, pos, int_suffix_text(IntWidth::I64));
    lemma_has_at_window(input, from, to, pos, int_suffix_text(IntWidth::U8));
    lemma_has_at_window(input, from, to, pos, int_suffix_text(IntWidth::U16));
    lemma_has_at_window(input, from, to, pos, int_suffix_text(IntWidth::U32));
    lemma_has_at_window(input, from, to, pos, int_suffix_text(IntWidth::U64));
}

/// The suffix of a float literal that ends the window is the suffix that
/// is read in the window.
proof fn lemma_float_suffix_window(input: Seq<u8>, from: int, pos: int)
    requires
        0 <= from <= pos <= input.len(),
    ensures
        pos <= float_suffix(input, pos).1 <= input.len(),
        float_suffix(window(input, from, float_suffix(input, pos).1), pos - from) == (
            float_suffix(input, pos).0,
            float_suffix(input, pos).1 - from,
        ),
{
    let to = float_suffix(input, pos).1;
    lemma_has_at_window(input, from, to, pos, float_suffix_text(FloatWidth::Single));
    lemma_has_at_window(input, from, to, pos, float_suffix_text(FloatWidth::Double));
}

/// Where no float suffix stands in the input, none stands in a window.
proof fn lemma_float_suffix_absent(input: Seq<u8>, from: int, to: int, pos: int)
    requires
        0 <= from <= pos <= to <= input.len(),
        float_suffix(input, pos).1 == pos,
    ensures
        float_suffix(window(input, from, to), pos - from).1 == pos - from,
{
    lemma_suffix_texts();
    lemma_has_at_window(input, from, to, pos, float_suffix_text(FloatWidth::Single));
    lemma_has_at_window(input, from, to, pos, float_suffix_text(FloatWidth::Double));
}

/// An integer literal reads the same in the window that it ends.
proof fn lemma_integer_window(input: Seq<u8>, from: int, digits: int, to: int, class: ByteClass)
    requires
        0 <= from <= digits <= to <= input.len(),
    ensures
        lex_integer(
            window(input, from, lex_integer(input, digits, to, class).end),
            digits - from,
            to - from,
            class,
        ) == (NumberLex {
            outcome: lex_integer(input, digits, to, class).outcome,
            end: lex_integer(input, digits, to, class).end - from,
        }),
{
    lemma_int_suffix_window(input, from, to);
    let end = int_suffix(input, to).1;
    assert(window(input, from, end).subrange(digits - from, to - from) =~= input.subrange(
        digits,
        to,
    ));
}

/// A float literal reads the same in the window that it ends.
proof fn lemma_float_window(input: Seq<u8>, from: int, to: int)
    requires
        0 <= from <= to <= input.len(),
    ensures
        lex_float(window(input, from, lex_float(input, from, to).end), 0, to - from) == (NumberLex {
            outcome: lex_float(input, from, to).outcome,
            end: lex_float(input, from, to).end - from,
        }),
{
    lemma_float_suffix_window(input, from, to);
    let end = float_suffix(input, to).1;
    assert(window(input, from, end).subrange(0, to - from) =~= input.subrange(from, to));
}

/// A decimal literal reads the same, from its exponent on, in the window
/// that it ends.
proof fn lemma_exponent_window(input: Seq<u8>, from: int, mantissa_end: int, fraction: bool)
    requires
        0 <= from <= mantissa_end <= input.len(),
        lex_exponent(input, from, mantissa_end, fraction).outcome is Ok,
    ensures
        mantissa_end <= lex_exponent(input, from, mantissa_end, fraction).end <= input.len(),
        lex_exponent(
            window(input, from, lex_exponent(input, from, mantissa_end, fraction).end),
            0,
            mantissa_end - from,
            fraction,
        ) == (NumberLex {
            outcome: lex_exponent(input, from, mantissa_end, fraction).outcome,
            end: lex_exponent(input, from, mantissa_end, fraction).end - from,
        }),
{
    lemma_lex_exponent_end(input, from, mantissa_end);
    let end = lex_exponent(input, from, mantissa_end, fraction).end;
    let raw = window(input, from, end);
    if is_exponent_marker(input, mantissa_end) {
        let digits_from = if is_sign(input, mantissa_end + 1) {
            mantissa_end + 2
        } else {
            mantissa_end + 1
        };
        lemma_scan(input, digits_from, ByteClass::DecimalDigits);
        let digits_to = scan(input, digits_from, ByteClass::DecimalDigits);
        lemma_float_suffix_window(input, from, digits_to);
        assert(has_digit(input.subrange(digits_from, digits_to)));
        assert(digits_from < digits_to);
        assert(is_exponent_marker(raw, mantissa_end - from));
        assert(is_sign(raw, mantissa_end + 1 - from) == is_sign(input, mantissa_end + 1));
        lemma_scan_window(input, from, end, digits_from, ByteClass::DecimalDigits);
        assert(raw.subrange(digits_from - from, digits_to - from) =~= input.subrange(
            digits_from,
            digits_to,
        ));
        lemma_float_window(input, from, digits_to);
    } else if fraction || float_suffix(input, mantissa_end).1 != mantissa_end {
        lemma_float_suffix_window(input, from, mantissa_end);
        assert(!is_exponent_marker(raw, mantissa_end - from));
        lemma_float_window(input, from, mantissa_end);
    } else {
        lemma_int_suffix_window(input, from, mantissa_end);
        assert(!is_exponent_marker(raw, mantissa_end - from));
        lemma_float_suffix_absent(input, from, end, mantissa_end);
        lemma_integer_window(input, from, from, mantissa_end, ByteClass::DecimalDigits);
    }
}

/// What it is for a literal to read the same in the window that it fills.
pub open spec fn number_reads_the_same(input: Seq<u8>, from: int) -> bool {
    &&& from < lex_number(input, from).end <= input.len()
    &&& lex_number(window(input, from, lex_number(input, from).end), 0) == (NumberLex {
        outcome: lex_number(input, from).outcome,
        end: lex_number(input, from).end - from,
    })
}

/// A literal with a base prefix reads the same in the window that it fills.
proof fn lemma_prefixed_window(input: Seq<u8>, from: int, class: ByteClass)
    requires
        0 <= from < input.len(),
        crate::lexer::chars::is_decimal_digit(input[from]),
        lex_number(input, from).outcome is Ok,
        prefix_class(input, from) == Some(class),
    ensures
        number_reads_the_same(input, from),
{
    lemma_lex_number_end(input, from);
    let end = lex_number(input, from).end;
    let raw = window(input, from, end);
    lemma_scan(input, from + 2, class);
    let to = scan(input, from + 2, class);
    lemma_int_suffix_window(input, from, to);
    assert(raw[0] == input[from]);
    assert(raw[1] == input[from + 1]);
    assert(prefix_class(raw, 0) == Some(class));
    lemma_scan_window(input, from, end, from + 2, class);
    assert(raw.subrange(2, to - from) =~= input.subrange(from + 2, to));
    lemma_integer_window(input, from, from + 2, to, class);
}

/// A window that starts with a decimal literal starts with no base prefix.
proof fn lemma_no_prefix_window(input: Seq<u8>, from: int, to: int)
    requires
        0 <= from < to <= input.len(),
        prefix_class(input, from) is None,
    ensures
        prefix_class(window(input, from, to), 0) is None,
{
    let raw = window(input, from, to);
    assert(raw[0] == input[from]);
    if raw.len() > 1 {
        assert(raw[1] == input[from + 1]);
    }
}

/// A decimal literal with a point reads the same in the window that it fills.
proof fn lemma_fraction_window(input: Seq<u8>, from: int)
    requires
        0 <= from < input.len(),
        crate::lexer::chars::is_decimal_digit(input[from]),
        lex_number(input, from).outcome is Ok,
        prefix_class(input, from) is None,
        scan(input, from, ByteClass::DecimalDigits) < input.len(),
        input[scan(input, from, ByteClass::DecimalDigits)] == ascii::PERIOD,
    ensures
        number_reads_the_same(input, from),
{
    lemma_lex_number_end(input, from);
    let end = lex_number(input, from).end;
    let raw = window(input, from, end);
    lemma_scan(input, from, ByteClass::DecimalDigits);
    let int_end = scan(input, from, ByteClass::DecimalDigits);
    lemma_no_prefix_window(input, from, end);
    lemma_scan(input, int_end + 1, ByteClass::DecimalDigits);
    let frac_end = scan(input, int_end + 1, ByteClass::DecimalDigits);
    lemma_exponent_window(input, from, frac_end, true);
    lemma_scan_window(input, from, end, from, ByteClass::DecimalDigits);
    assert(raw[int_end - from] == ascii::PERIOD);
    lemma_scan_window(input, from, end, int_end + 1, ByteClass::DecimalDigits);
    assert(raw.subrange(int_end + 1 - from, frac_end - from) =~= input.subrange(
        int_end + 1,
        frac_end,
    ));
}

/// A decimal literal without a point reads the same in the window that it fills.
proof fn lemma_plain_window(input: Seq<u8>, from: int)
    requires
        0 <= from < input.len(),
        crate::lexer::chars::is_decimal_digit(input[from]),
        lex_number(input, from).outcome is Ok,
        prefix_class(input, from) is None,
        !(scan(input, from, ByteClass::DecimalDigits) < input.len() && input[scan(
            input,
            from,
            ByteClass::DecimalDigits,
        )] == ascii::PERIOD),
    ensures
        number_reads_the_same(input, from),
{
    lemma_lex_number_end(input, from);
    let end = lex_number(input, from).end;
    let raw = window(input, from, end);
    lemma_scan(input, from, ByteClass::DecimalDigits);
    let int_end = scan(input, from, ByteClass::DecimalDigits);
    lemma_no_prefix_window(input, from, end);
    lemma_exponent_window(input, from, int_end, false);
    lemma_scan_window(input, from, end, from, ByteClass::DecimalDigits);
    assert(!(int_end - from < raw.len() && raw[int_end - from] == ascii::PERIOD));
}

/// A numeric literal reads the same in the window that it fills.
proof fn lemma_number_window(input: Seq<u8>, from: int)
    requires
        0 <= from < input.len(),
        crate::lexer::chars::is_decimal_digit(input[from]),
        lex_number(input, from).outcome is Ok,
    ensures
        number_reads_the_same(input, from),
{
    match prefix_class(input, from) {
        Some(class) => {
            lemma_prefixed_window(input, from, class);
        },
        None => {
            let int_end = scan(input, from, ByteClass::DecimalDigits);
            if int_end < input.len() && input[int_end] == ascii::PERIOD {
                lemma_fraction_window(input, from);
            } else {
                lemma_plain_window(input, from);
            }
        },
    }
}

/// A string literal closes at the same quote in the window that it fills.
proof fn lemma_string_end_window(input: Seq<u8>, from: int, pos: int, close: int)
    requires
        0 <= from < pos <= input.len() <= usize::MAX,
        string_end(input, pos) == StringEnd::Closed(close as usize),
        0 <= close <= usize::MAX,
    ensures
        pos <= close < input.len(),
        string_end(window(input, from, close + 1), pos - from) == StringEnd::Closed(
            (close - from) as usize,
        ),
    decreases input.len() - pos,
{
    lemma_string_end(input, pos);
    let raw = window(input, from, close + 1);
    assert(raw[pos - from] == input[pos]);
    if input[pos] != ascii::QUOTE {
        if input[pos] == ascii::BACKSLASH && pos + 1 < input.len()
            && !crate::lexer::chars::is_line_end(input[pos + 1]) {
            lemma_string_end_window(input, from, pos + 2, close);
            assert(raw[pos + 1 - from] == input[pos + 1]);
        } else {
            lemma_string_end(input, pos + 1);
            lemma_string_end_window(input, from, pos + 1, close);
            if pos + 1 < close + 1 {
                assert(raw[pos + 1 - from] == input[pos + 1]);
            }
        }
    }
}

/// The body of a string literal decodes the same in a window that holds it.
proof fn lemma_decode_window(input: Seq<u8>, from: int, end: int, pos: int, to: int)
    requires
        0 <= from <= pos <= to <= end <= input.len(),
    ensures
        decode(window(input, from, end), pos - from, to - from) == decode(input, pos, to),
    decreases to - pos,
{
    let raw = window(input, from, end);
    if pos < to {
        assert(raw[pos - from] == input[pos]);
        if input[pos] != ascii::BACKSLASH {
            lemma_decode_window(input, from, end, pos + 1, to);
        } else {
            if pos + 1 < to {
                assert(raw[pos + 1 - from] == input[pos + 1]);
                if pos + 6 <= to {
                    assert(raw[pos + 2 - from] == input[pos + 2]);
                    assert(raw[pos + 3 - from] == input[pos + 3]);
                    assert(raw[pos + 4 - from] == input[pos + 4]);
                    assert(raw[pos + 5 - from] == input[pos + 5]);
                    assert(raw.subrange(pos + 2 - from, pos + 6 - from) =~= input.subrange(
                        pos + 2,
                        pos + 6,
                    ));
                    lemma_decode_window(input, from, end, pos + 6, to);
                }
                lemma_decode_window(input, from, end, pos + 2, to);
            }
            match escape(input, pos, to) {
                Some((bytes, next)) => {
                    assert(escape(raw, pos - from, to - from) == Some((bytes, next - from)));
                },
                None => {
                    assert(escape(raw, pos - from, to - from) is None);
                },
            }
        }
    }
}

/// A string literal reads the same in the window that it fills.
proof fn lemma_string_window(input: Seq<u8>, from: int)
    requires
        0 <= from < input.len() <= usize::MAX,
        input[from] == ascii::QUOTE,
        lex_string(input, from).outcome is Ok,
    ensures
        from < lex_string(input, from).end <= input.len(),
        lex_string(window(input, from, lex_string(input, from).end), 0) == (Lexeme {
            outcome: lex_string(input, from).outcome,
            end: lex_string(input, from).end - from,
        }),
{
    lemma_string_end(input, from + 1);
    match string_end(input, from + 1) {
        StringEnd::Closed(close) => {
            lemma_string_end_window(input, from, from + 1, close as int);
            lemma_decode_window(input, from, close + 1, from + 1, close as int);
        },
        StringEnd::Unterminated(_) => {},
    }
}

/// A comment closes at the same place in a window that holds its end.
proof fn lemma_comment_close_window(input: Seq<u8>, from: int, pos: int, close: int)
    requires
        0 <= from <= pos <= input.len(),
        comment_close(input, pos) == Some(close),
    ensures
        pos <= close && close + 2 <= input.len(),
        comment_close(window(input, from, close + 2), pos - from) == Some(close - from),
    decreases input.len() - pos,
{
    lemma_comment_close(input, pos);
    let raw = window(input, from, close + 2);
    assert(raw[pos - from] == input[pos]);
    assert(raw[pos + 1 - from] == input[pos + 1]);
    if !(input[pos] == ascii::STAR && input[pos + 1] == ascii::SLASH) {
        lemma_comment_close_window(input, from, pos + 1, close);
    }
}

/// The bytes of a window are those of the input, and past its end none.
proof fn lemma_byte_at_window(input: Seq<u8>, from: int, to: int)
    requires
        0 <= from <= to <= input.len(),
    ensures
        forall|i: int|
            0 <= i ==> #[trigger] byte_at(window(input, from, to), i) == (if from + i < to {
                byte_at(input, from + i)
            } else {
                256
            }),
{
    let raw = window(input, from, to);
    assert forall|i: int| 0 <= i implies #[trigger] byte_at(raw, i) == (if from + i < to {
        byte_at(input, from + i)
    } else {
        256
    }) by {
        if from + i < to {
            assert(raw[i] == input[from + i]);
        }
    }
}

/// The length of the operator or punctuation mark at `pos`.
pub open spec fn symbol_len(input: Seq<u8>, pos: int) -> int {
    match symbol(input, pos) {
        Some((_, len)) => len,
        None => 0,
    }
}

/// An operator or punctuation mark reads the same in the window that it fills.
proof fn lemma_symbol_window(input: Seq<u8>, from: int)
    requires
        0 <= from < input.len(),
        symbol(input, from) is Some,
    ensures
        from < from + symbol_len(input, from) <= input.len(),
        symbol(window(input, from, from + symbol_len(input, from)), 0) == symbol(input, from),
{
    let len = symbol_len(input, from);
    assert(1 <= len <= 3);
    assert(len >= 2 ==> byte_at(input, from + 1) != 256);
    assert(len >= 3 ==> byte_at(input, from + 2) != 256);
    lemma_byte_at_window(input, from, from + len);
    let raw = window(input, from, from + len);
    assert(byte_at(raw, 0) == byte_at(input, from));
    assert(byte_at(raw, 1) == (if 1 < len {
        byte_at(input, from + 1)
    } else {
        256
    }));
    assert(byte_at(raw, 2) == (if 2 < len {
        byte_at(input, from + 2)
    } else {
        256
    }));
}

/// What starts with a slash reads the same in the window that it fills.
proof fn lemma_slash_window(input: Seq<u8>, from: int)
    requires
        0 <= from < input.len(),
        input[from] == ascii::SLASH,
        lex_slash(input, from).outcome is Ok,
    ensures
        from < lex_slash(input, from).end <= input.len(),
        lex_slash(window(input, from, lex_slash(input, from).end), 0) == (Lexeme {
            outcome: lex_slash(input, from).outcome,
            end: lex_slash(input, from).end - from,
        }),
{
    let end = lex_slash(input, from).end;
    if byte_at(input, from + 1) == ascii::SLASH {
        lemma_scan(input, from + 2, ByteClass::NotLineEnd);
        lemma_byte_at_window(input, from, end);
        let raw = window(input, from, end);
        assert(byte_at(raw, 1) == ascii::SLASH);
        lemma_scan_window(input, from, end, from + 2, ByteClass::NotLineEnd);
        assert(raw.subrange(2, end - from) =~= input.subrange(from + 2, end));
    } else if byte_at(input, from + 1) == ascii::STAR && comment_close(input, from + 2) is Some {
        let close = comment_close(input, from + 2)->0;
        lemma_comment_close_window(input, from, from + 2, close);
        lemma_byte_at_window(input, from, end);
        let raw = window(input, from, end);
        assert(byte_at(raw, 1) == ascii::STAR);
        assert(raw.subrange(2, close - from) =~= input.subrange(from + 2, close));
    } else {
        lemma_symbol_window(input, from);
        lemma_byte_at_window(input, from, end);
        let raw = window(input, from, end);
        assert(byte_at(raw, 1) != ascii::SLASH);
        assert(byte_at(raw, 1) != ascii::STAR);
    }
}

/// An identifier or keyword reads the same in the window that it fills.
proof fn lemma_word_window(input: Seq<u8>, from: int)
    requires
        0 <= from < input.len(),
        crate::lexer::chars::is_ident_start(input[from]),
    ensures
        from < lex_word(input, from).end <= input.len(),
        lex_word(window(input, from, lex_word(input, from).end), 0) == (Lexeme {
            outcome: lex_word(input, from).outcome,
            end: lex_word(input, from).end - from,
        }),
{
    lemma_scan(input, from, ByteClass::IdentContinue);
    lemma_scan(input, from + 1, ByteClass::IdentContinue);
    let end = scan(input, from, ByteClass::IdentContinue);
    lemma_scan_window(input, from, end, from, ByteClass::IdentContinue);
    let raw = window(input, from, end);
    assert(raw.subrange(0, end - from) =~= input.subrange(from, end));
}

/// A token reads the same in the window that it fills.
proof fn lemma_lexeme_window(input: Seq<u8>, from: int)
    requires
        0 <= from < input.len() <= usize::MAX,
        lexeme_at(input, from).outcome is Ok,
    ensures
        from < lexeme_at(input, from).end <= input.len(),
        lexeme_at(window(input, from, lexeme_at(input, from).end), 0) == (Lexeme {
            outcome: lexeme_at(input, from).outcome,
            end: lexeme_at(input, from).end - from,
        }),
{
    reveal(lexeme_at);
    lemma_lexeme_end(input, from);
    let end = lexeme_at(input, from).end;
    let raw = window(input, from, end);
    let first = input[from];
    assert(raw[0] == first);
    if crate::lexer::chars::is_decimal_digit(first) {
        lemma_number_window(input, from);
    } else if crate::lexer::chars::is_ident_start(first) {
        lemma_word_window(input, from);
    } else if first == ascii::QUOTE {
        lemma_string_window(input, from);
    } else if first == ascii::SLASH {
        lemma_slash_window(input, from);
    } else {
        lemma_symbol_window(input, from);
    }
}

/// Tokenizing the text of a token yields the token again: the same type,
/// the same text and the same value, at the start of what is now the whole
/// input. A token owes nothing to what stands before or behind it.
pub proof fn lemma_retokenize(input: Seq<u8>, pos: int)
    requires
        0 <= pos <= input.len() <= usize::MAX,
        lex(input, pos) is Ok,
    ensures
        lex(lex(input, pos)->Ok_0.raw, 0) == Ok::<TokenView, LexerErrorView>(
            TokenView {
                span: Span { start: 0, end: lex(input, pos)->Ok_0.raw.len() as usize },
                ..lex(input, pos)->Ok_0
            },
        ),
{
    reveal(lex);
    lemma_scan(input, pos, ByteClass::Whitespace);
    let start = scan(input, pos, ByteClass::Whitespace);
    if start < input.len() {
        lemma_lexeme_window(input, start);
        let end = lexeme_at(input, start).end;
        let raw = window(input, start, end);
        assert(raw[0] == input[start]);
        assert(!is_whitespace(raw[0]));
        assert(scan(raw, 0, ByteClass::Whitespace) == 0);
        assert(raw.subrange(0, end - start) =~= raw);
    } else {
        assert(scan(Seq::<u8>::empty(), 0, ByteClass::Whitespace) == 0);
    }
}

} // verus!
