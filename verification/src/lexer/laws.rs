//! What holds of the tokenizer on every input.

use crate::lexer::ascii;
use crate::lexer::chars::{
    digit_value, in_class, is_decimal_digit, is_line_end, is_whitespace, lemma_scan,
    lemma_scan_unique, scan, ByteClass,
};
use crate::lexer::error::{LexerErrorKind, LexerErrorView, NumericFault};
use crate::lexer::number::{
    digits_value, float_suffix, float_suffix_text, float_suffix_width, has_digit, int_suffix,
    int_suffix_text, int_suffix_width, is_exponent_marker,
    lex_integer, lex_number, prefix_class, strip_separators,
};
use crate::lexer::string::{lemma_string_end, string_end, StringEnd};
use crate::lexer::token::{FloatWidth, IntLit, IntWidth, TokenType, TokenView};
use crate::lexer::retokenize::{lemma_has_at_window, lemma_scan_window};
use crate::lexer::tokenizer::{lex, lex_span, lexeme_at, LexView};
use crate::span::Span;
use vstd::prelude::*;
use vstd::string::StringSliceAdditionalSpecFns;

verus! {

/// The suffixes, byte by byte.
pub proof fn lemma_suffix_texts()
    ensures
        int_suffix_text(IntWidth::I8) == seq![105u8, 56u8],
        int_suffix_text(IntWidth::I16) == seq![105u8, 49u8, 54u8],
        int_suffix_text(IntWidth::I32) == seq![105u8, 51u8, 50u8],
        int_suffix_text(IntWidth::I64) == seq![105u8, 54u8, 52u8],
        int_suffix_text(IntWidth::U8) == seq![117u8, 56u8],
        int_suffix_text(IntWidth::U16) == seq![117u8, 49u8, 54u8],
        int_suffix_text(IntWidth::U32) == seq![117u8, 51u8, 50u8],
        int_suffix_text(IntWidth::U64) == seq![117u8, 54u8, 52u8],
        float_suffix_text(FloatWidth::Single) == seq![102u8, 51u8, 50u8],
        float_suffix_text(FloatWidth::Double) == seq![102u8, 54u8, 52u8],
{
    broadcast use vstd::string::is_ascii_spec_bytes;

    reveal_strlit("i8");
    reveal_strlit("i16");
    reveal_strlit("i32");
    reveal_strlit("i64");
    reveal_strlit("u8");
    reveal_strlit("u16");
    reveal_strlit("u32");
    reveal_strlit("u64");
    reveal_strlit("f32");
    reveal_strlit("f64");
    assert(vstd::string::is_ascii("i8"));
    assert(vstd::string::is_ascii("i16"));
    assert(vstd::string::is_ascii("i32"));
    assert(vstd::string::is_ascii("i64"));
    assert(vstd::string::is_ascii("u8"));
    assert(vstd::string::is_ascii("u16"));
    assert(vstd::string::is_ascii("u32"));
    assert(vstd::string::is_ascii("u64"));
    assert(vstd::string::is_ascii("f32"));
    assert(vstd::string::is_ascii("f64"));
    assert("i8".spec_bytes() =~= seq![105u8, 56u8]);
    assert("i16".spec_bytes() =~= seq![105u8, 49u8, 54u8]);
    assert("i32".spec_bytes() =~= seq![105u8, 51u8, 50u8]);
    assert("i64".spec_bytes() =~= seq![105u8, 54u8, 52u8]);
    assert("u8".spec_bytes() =~= seq![117u8, 56u8]);
    assert("u16".spec_bytes() =~= seq![117u8, 49u8, 54u8]);
    assert("u32".spec_bytes() =~= seq![117u8, 51u8, 50u8]);
    assert("u64".spec_bytes() =~= seq![117u8, 54u8, 52u8]);
    assert("f32".spec_bytes() =~= seq![102u8, 51u8, 50u8]);
    assert("f64".spec_bytes() =~= seq![102u8, 54u8, 52u8]);
}

/// Separators do not count: a run of digits denotes what it denotes
/// without its separators.
pub proof fn lemma_separators_are_skipped(run: Seq<u8>, radix: int)
    ensures
        digits_value(strip_separators(run), radix) == digits_value(run, radix),
    decreases run.len(),
{
    if run.len() > 0 {
        lemma_separators_are_skipped(run.drop_last(), radix);
        if run.last() != ascii::UNDERSCORE {
            let stripped = strip_separators(run.drop_last());
            assert(stripped.push(run.last()).drop_last() =~= stripped);
        }
    }
}

/// A source that is nothing but decimal digits, with or without
/// separators among them, is one integer literal of the default width. Its
/// value is the number that the digits, separators left out, denote by
/// their places in base ten; where that number exceeds what 32 signed bits
/// hold, the source is the overflow error instead. Either spans the whole
/// source.
pub proof fn lemma_default_integer(digits: Seq<u8>)
    requires
        0 < digits.len() <= usize::MAX,
        is_decimal_digit(digits[0]),
        forall|i: int|
            0 <= i < digits.len() ==> in_class(ByteClass::DecimalDigits, #[trigger] digits[i]),
    ensures
        digits_value(digits, 10) == decimal_number(strip_separators(digits)),
        digits_value(digits, 10) <= i32::MAX ==> lex(digits, 0) == Ok::<TokenView, LexerErrorView>(
            TokenView {
                token_type: TokenType::IntLit(IntLit::Untyped(digits_value(digits, 10) as i32)),
                raw: digits,
                text: Seq::empty(),
                span: Span { start: 0, end: digits.len() as usize },
            },
        ),
        digits_value(digits, 10) > i32::MAX ==> lex(digits, 0) == Err::<TokenView, LexerErrorView>(
            LexerErrorView {
                kind: LexerErrorKind::InvalidNumericLiteral(
                    NumericFault::Overflow(IntWidth::Untyped),
                ),
                raw: digits,
                span: Span { start: 0, end: digits.len() as usize },
            },
        ),
{
    reveal(lex);
    reveal(lexeme_at);
    lemma_separators_are_skipped(digits, 10);
    lemma_stripped_holds_no_separator(digits);
    lemma_decimal_number(strip_separators(digits));
    lemma_suffix_texts();
    let len = digits.len() as int;
    assert(!is_whitespace(digits[0]));
    assert(scan(digits, 0, ByteClass::Whitespace) == 0);
    lemma_scan_unique(digits, 0, ByteClass::DecimalDigits, len);
    if len > 1 {
        assert(in_class(ByteClass::DecimalDigits, digits[1]));
    }
    assert(prefix_class(digits, 0) is None);
    assert(int_suffix_width(digits, len) == IntWidth::Untyped);
    assert(float_suffix_width(digits, len) == FloatWidth::Untyped);
    assert(digits.subrange(0, len) =~= digits);
    assert(lex_number(digits, 0) == lex_integer(digits, 0, len, ByteClass::DecimalDigits));
}

/// From `from` to `stop` the scan for a closing quote finds none, if no
/// quote and no line end stands in between and the line or the input ends
/// at `stop`.
proof fn lemma_no_quote(input: Seq<u8>, from: int, stop: int)
    requires
        0 <= from <= stop <= input.len() <= usize::MAX,
        forall|i: int| from <= i < stop ==> input[i] != ascii::QUOTE && !is_line_end(input[i]),
        stop < input.len() ==> is_line_end(input[stop]),
    ensures
        string_end(input, from) == StringEnd::Unterminated(stop as usize),
    decreases stop - from,
{
    if from < stop {
        if input[from] == ascii::BACKSLASH && from + 1 < input.len() && !is_line_end(
            input[from + 1],
        ) {
            lemma_no_quote(input, from + 2, stop);
        } else {
            lemma_no_quote(input, from + 1, stop);
        }
    }
}

/// A string literal whose line, or the input, ends before another quote
/// is met is never a token: it is the unterminated-string error, and the
/// error reaches from the opening quote to where the line or the input
/// ends, so that nothing of the text is cut off or lost.
pub proof fn lemma_unterminated_string(input: Seq<u8>, pos: int)
    requires
        0 <= pos < input.len() <= usize::MAX,
        input[pos] == ascii::QUOTE,
        forall|i: int|
            pos < i < scan(input, pos + 1, ByteClass::NotLineEnd) ==> input[i] != ascii::QUOTE,
    ensures
        lex(input, pos) == Err::<TokenView, LexerErrorView>(
            LexerErrorView {
                kind: LexerErrorKind::UnexpectedEndOfLine,
                raw: input.subrange(pos, scan(input, pos + 1, ByteClass::NotLineEnd)),
                span: Span {
                    start: pos as usize,
                    end: scan(input, pos + 1, ByteClass::NotLineEnd) as usize,
                },
            },
        ),
{
    reveal(lex);
    reveal(lexeme_at);
    let stop = scan(input, pos + 1, ByteClass::NotLineEnd);
    lemma_scan(input, pos + 1, ByteClass::NotLineEnd);
    assert(!is_whitespace(input[pos]));
    assert(scan(input, pos, ByteClass::Whitespace) == pos);
    assert forall|i: int| pos + 1 <= i < stop implies input[i] != ascii::QUOTE && !is_line_end(
        input[i],
    ) by {
        assert(in_class(ByteClass::NotLineEnd, input[i]));
    }
    lemma_no_quote(input, pos + 1, stop);
}

/// Every unterminated-string error ends where a line or the input ends.
pub proof fn lemma_unterminated_reaches_line_end(input: Seq<u8>, pos: int)
    requires
        0 <= pos <= input.len() <= usize::MAX,
        lex(input, pos) matches Err(error) && error.kind == LexerErrorKind::UnexpectedEndOfLine,
    ensures
        lex_span(lex(input, pos)).end == input.len() || is_line_end(
            input[lex_span(lex(input, pos)).end as int],
        ),
{
    reveal(lex);
    reveal(lexeme_at);
    lemma_scan(input, pos, ByteClass::Whitespace);
    let start = scan(input, pos, ByteClass::Whitespace);
    lemma_string_end(input, start + 1);
}

/// At the end of the input, and from anywhere that only whitespace
/// follows, tokenizing yields the end-of-input token at the final offset,
/// again and again.
pub proof fn lemma_end_of_input(input: Seq<u8>, pos: int)
    requires
        0 <= pos <= input.len() <= usize::MAX,
        forall|i: int| pos <= i < input.len() ==> is_whitespace(input[i]),
    ensures
        lex(input, pos) == Ok::<TokenView, LexerErrorView>(
            TokenView {
                token_type: TokenType::Eof,
                raw: Seq::empty(),
                text: Seq::empty(),
                span: Span { start: input.len() as usize, end: input.len() as usize },
            },
        ),
        lex(input, lex_span(lex(input, pos)).end as int) == lex(input, pos),
{
    reveal(lex);
    reveal(lexeme_at);
    assert forall|i: int| pos <= i < input.len() implies in_class(
        ByteClass::Whitespace,
        #[trigger] input[i],
    ) by {}
    lemma_scan_unique(input, pos, ByteClass::Whitespace, input.len() as int);
    lemma_scan_unique(input, input.len() as int, ByteClass::Whitespace, input.len() as int);
}

/// Whether two bytes are the same base marker in either case.
pub open spec fn same_marker(first: u8, second: u8) -> bool {
    ||| (first == ascii::LOWER_B || first == ascii::UPPER_B) && (second == ascii::LOWER_B || second
        == ascii::UPPER_B)
    ||| (first == ascii::LOWER_O || first == ascii::UPPER_O) && (second == ascii::LOWER_O || second
        == ascii::UPPER_O)
    ||| (first == ascii::LOWER_X || first == ascii::UPPER_X) && (second == ascii::LOWER_X || second
        == ascii::UPPER_X)
}

/// What tokenizing handed out, without the text it was read from.
pub open spec fn without_raw(result: LexView) -> LexView {
    match result {
        Ok(token) => Ok(TokenView { raw: Seq::empty(), ..token }),
        Err(error) => Err(LexerErrorView { raw: Seq::empty(), ..error }),
    }
}

/// The case of a base prefix does not matter: two sources that differ in
/// nothing but the case of the marker behind their leading zero yield the
/// same literal, or the same error, over the same span.
pub proof fn lemma_prefix_case(first: Seq<u8>, second: Seq<u8>)
    requires
        2 <= first.len() == second.len() <= usize::MAX,
        first[0] == ascii::DIGIT_0,
        second[0] == ascii::DIGIT_0,
        same_marker(first[1], second[1]),
        forall|i: int| 2 <= i < first.len() ==> first[i] == second[i],
    ensures
        without_raw(lex(first, 0)) == without_raw(lex(second, 0)),
{
    reveal(lex);
    reveal(lexeme_at);
    let len = first.len() as int;
    assert(!is_whitespace(first[0]) && !is_whitespace(second[0]));
    assert(scan(first, 0, ByteClass::Whitespace) == 0);
    assert(scan(second, 0, ByteClass::Whitespace) == 0);
    let class = prefix_class(first, 0)->0;
    assert(prefix_class(second, 0) == Some(class));
    assert(first.subrange(2, len) =~= second.subrange(2, len));
    lemma_scan(first, 2, class);
    lemma_scan(second, 2, class);
    lemma_scan_window(first, 2, len, 2, class);
    lemma_scan_window(second, 2, len, 2, class);
    let to = scan(first, 2, class);
    assert(scan(second, 2, class) == to);
    assert(first.subrange(2, to) =~= second.subrange(2, to));
    lemma_int_suffix_agrees(first, second, to);
}

/// Two sources that agree from `pos` on have the same integer suffix there.
proof fn lemma_int_suffix_agrees(first: Seq<u8>, second: Seq<u8>, pos: int)
    requires
        2 <= pos <= first.len() == second.len(),
        first.subrange(2, first.len() as int) == second.subrange(2, second.len() as int),
    ensures
        int_suffix(first, pos) == int_suffix(second, pos),
{
    let len = first.len() as int;
    lemma_has_at_window(first, 2, len, pos, int_suffix_text(IntWidth::I8));
    lemma_has_at_window(first, 2, len, pos, int_suffix_text(IntWidth::I16));
    lemma_has_at_window(first, 2, len, pos, int_suffix_text(IntWidth::I32));
    lemma_has_at_window(first, 2, len, pos, int_suffix_text(IntWidth::I64));
    lemma_has_at_window(first, 2, len, pos, int_suffix_text(IntWidth::U8));
    lemma_has_at_window(first, 2, len, pos, int_suffix_text(IntWidth::U16));
    lemma_has_at_window(first, 2, len, pos, int_suffix_text(IntWidth::U32));
    lemma_has_at_window(first, 2, len, pos, int_suffix_text(IntWidth::U64));
    lemma_has_at_window(second, 2, len, pos, int_suffix_text(IntWidth::I8));
    lemma_has_at_window(second, 2, len, pos, int_suffix_text(IntWidth::I16));
    lemma_has_at_window(second, 2, len, pos, int_suffix_text(IntWidth::I32));
    lemma_has_at_window(second, 2, len, pos, int_suffix_text(IntWidth::I64));
    lemma_has_at_window(second, 2, len, pos, int_suffix_text(IntWidth::U8));
    lemma_has_at_window(second, 2, len, pos, int_suffix_text(IntWidth::U16));
    lemma_has_at_window(second, 2, len, pos, int_suffix_text(IntWidth::U32));
    lemma_has_at_window(second, 2, len, pos, int_suffix_text(IntWidth::U64));
}

/// Ten to the power of `exponent`.
pub open spec fn power_of_ten(exponent: nat) -> int
    decreases exponent,
{
    if exponent == 0 {
        1
    } else {
        10 * power_of_ten((exponent - 1) as nat)
    }
}

/// The number that decimal digits denote by their places: the digit at
/// place `i` of `n` counts ten to the power of `n - 1 - i` times its value.
pub open spec fn decimal_number(digits: Seq<u8>) -> int
    decreases digits.len(),
{
    if digits.len() == 0 {
        0
    } else {
        digit_value(digits[0]) * power_of_ten((digits.len() - 1) as nat) + decimal_number(
            digits.skip(1),
        )
    }
}

/// One more digit behind a number multiplies it by ten and adds the digit.
proof fn lemma_decimal_number_push(digits: Seq<u8>, last: u8)
    ensures
        decimal_number(digits.push(last)) == decimal_number(digits) * 10 + digit_value(last),
    decreases digits.len(),
{
    let longer = digits.push(last);
    assert(longer.len() == digits.len() + 1);
    assert(decimal_number(longer) == digit_value(longer[0]) * power_of_ten(
        (longer.len() - 1) as nat,
    ) + decimal_number(longer.skip(1)));
    if digits.len() == 0 {
        assert(longer.skip(1) =~= Seq::<u8>::empty());
        assert(decimal_number(longer.skip(1)) == 0);
        assert(power_of_ten(0) == 1);
        assert(longer[0] == last);
    } else {
        lemma_decimal_number_push(digits.skip(1), last);
        assert(longer.skip(1) =~= digits.skip(1).push(last));
        assert(longer[0] == digits[0]);
        let head = digit_value(digits[0]);
        let weight = power_of_ten((digits.len() - 1) as nat);
        let rest = decimal_number(digits.skip(1));
        assert(decimal_number(digits) == head * weight + rest);
        assert(power_of_ten(digits.len()) == 10 * weight);
        assert(decimal_number(longer) == head * (10 * weight) + (rest * 10 + digit_value(last)));
        assert(head * (10 * weight) + (rest * 10 + digit_value(last)) == (head * weight + rest)
            * 10 + digit_value(last)) by (nonlinear_arith);
    }
}

/// Reading digits one after the other, as the tokenizer does, yields the
/// number that they denote by their places.
pub proof fn lemma_decimal_number(digits: Seq<u8>)
    requires
        forall|i: int| 0 <= i < digits.len() ==> digits[i] != ascii::UNDERSCORE,
    ensures
        digits_value(digits, 10) == decimal_number(digits),
    decreases digits.len(),
{
    if digits.len() > 0 {
        lemma_decimal_number(digits.drop_last());
        lemma_decimal_number_push(digits.drop_last(), digits.last());
        assert(digits.drop_last().push(digits.last()) =~= digits);
    }
}

/// A run without its separators holds no separator.
pub proof fn lemma_stripped_holds_no_separator(run: Seq<u8>)
    ensures
        forall|i: int|
            0 <= i < strip_separators(run).len() ==> strip_separators(run)[i] != ascii::UNDERSCORE,
    decreases run.len(),
{
    if run.len() > 0 {
        lemma_stripped_holds_no_separator(run.drop_last());
        let shorter = strip_separators(run.drop_last());
        assert forall|i: int| 0 <= i < strip_separators(run).len() implies strip_separators(
            run,
        )[i] != ascii::UNDERSCORE by {
            if run.last() != ascii::UNDERSCORE && i < shorter.len() {
                assert(shorter.push(run.last())[i] == shorter[i]);
            }
        }
    }
}

/// A point needs a digit: a decimal literal with a point that no digit
/// follows is the incomplete-mantissa error, whatever stands behind it, an
/// exponent included. The error reaches from the first digit to behind the
/// point and the separators that follow it.
pub proof fn lemma_point_needs_digit(input: Seq<u8>, pos: int)
    requires
        0 <= pos < input.len() <= usize::MAX,
        is_decimal_digit(input[pos]),
        prefix_class(input, pos) is None,
        scan(input, pos, ByteClass::DecimalDigits) < input.len(),
        input[scan(input, pos, ByteClass::DecimalDigits)] == ascii::PERIOD,
        !has_digit(
            input.subrange(
                scan(input, pos, ByteClass::DecimalDigits) + 1,
                scan(input, scan(input, pos, ByteClass::DecimalDigits) + 1, ByteClass::DecimalDigits),
            ),
        ),
    ensures
        lex(input, pos) == Err::<TokenView, LexerErrorView>(
            LexerErrorView {
                kind: LexerErrorKind::InvalidNumericLiteral(NumericFault::IncompleteMantissa),
                raw: input.subrange(
                    pos,
                    scan(
                        input,
                        scan(input, pos, ByteClass::DecimalDigits) + 1,
                        ByteClass::DecimalDigits,
                    ),
                ),
                span: Span {
                    start: pos as usize,
                    end: scan(
                        input,
                        scan(input, pos, ByteClass::DecimalDigits) + 1,
                        ByteClass::DecimalDigits,
                    ) as usize,
                },
            },
        ),
{
    reveal(lex);
    reveal(lexeme_at);
    assert(!is_whitespace(input[pos]));
    assert(scan(input, pos, ByteClass::Whitespace) == pos);
    lemma_scan(input, pos, ByteClass::DecimalDigits);
}

/// A decimal literal is a float exactly where it has a point, an exponent
/// or a float suffix, and a literal that is read has a digit behind its
/// point, if it has a point, and behind its exponent marker, if it has one.
pub proof fn lemma_decimal_literal(input: Seq<u8>, pos: int)
    requires
        0 <= pos < input.len() <= usize::MAX,
        is_decimal_digit(input[pos]),
        prefix_class(input, pos) is None,
        lex_number(input, pos).outcome is Ok,
    ensures
        ({
            let int_end = scan(input, pos, ByteClass::DecimalDigits);
            let point = int_end < input.len() && input[int_end] == ascii::PERIOD;
            let frac_end = scan(input, int_end + 1, ByteClass::DecimalDigits);
            let mantissa_end = if point {
                frac_end
            } else {
                int_end
            };
            let exponent = is_exponent_marker(input, mantissa_end);
            let suffix = float_suffix(input, mantissa_end).1 != mantissa_end;
            &&& point ==> has_digit(input.subrange(int_end + 1, frac_end))
            &&& lex_number(input, pos).outcome->Ok_0.0 is FloatLit <==> point || exponent || suffix
            &&& lex_number(input, pos).outcome->Ok_0.0 is IntLit <==> !(point || exponent
                || suffix)
        }),
{
    lemma_scan(input, pos, ByteClass::DecimalDigits);
    let int_end = scan(input, pos, ByteClass::DecimalDigits);
    if int_end < input.len() {
        lemma_scan(input, int_end + 1, ByteClass::DecimalDigits);
    }
}

} // verus!
