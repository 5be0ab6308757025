//! String literals: where they close, and what their escapes decode to.

use crate::lexer::ascii;
use crate::lexer::chars::{byte_digit_value, digit_value, is_line_end};
use vstd::prelude::*;

verus! {

/// Where the scan for the closing quote of a string literal stopped.
pub enum StringEnd {
    /// The position of the closing quote.
    Closed(usize),
    /// The position of the line end that was met before a closing quote, or
    /// the length of the input if the input ended first.
    Unterminated(usize),
}

/// Scans the body of a string literal from `pos` for its closing quote.
///
/// A backslash and the byte after it are passed over together, so an escaped
/// quote does not close the literal; a line end is never passed over.
pub open spec fn string_end(input: Seq<u8>, pos: int) -> StringEnd
    decreases input.len() - pos,
{
    if pos < 0 || pos >= input.len() {
        StringEnd::Unterminated(input.len() as usize)
    } else if is_line_end(input[pos]) {
        StringEnd::Unterminated(pos as usize)
    } else if input[pos] == ascii::QUOTE {
        StringEnd::Closed(pos as usize)
    } else if input[pos] == ascii::BACKSLASH && pos + 1 < input.len() && !is_line_end(
        input[pos + 1],
    ) {
        string_end(input, pos + 2)
    } else {
        string_end(input, pos + 1)
    }
}

/// The scan stops inside the input, at or after its start, and a closing
/// quote that it reports is a quote.
pub proof fn lemma_string_end(input: Seq<u8>, pos: int)
    requires
        0 <= pos <= input.len() <= usize::MAX,
    ensures
        match string_end(input, pos) {
            StringEnd::Closed(close) => pos <= close < input.len() && input[close as int]
                == ascii::QUOTE,
            StringEnd::Unterminated(stop) => pos <= stop <= input.len() && (stop < input.len()
                ==> is_line_end(input[stop as int])),
        },
    decreases input.len() - pos,
{
    if pos < input.len() && !is_line_end(input[pos]) && input[pos] != ascii::QUOTE {
        if input[pos] == ascii::BACKSLASH && pos + 1 < input.len() && !is_line_end(
            input[pos + 1],
        ) {
            lemma_string_end(input, pos + 2);
        } else {
            lemma_string_end(input, pos + 1);
        }
    }
}

/// Whether the four bytes from `pos` on are hexadecimal digits that lie before `to`.
pub open spec fn four_hex_digits(input: Seq<u8>, pos: int, to: int) -> bool {
    0 <= pos && pos + 4 <= to <= input.len() && digit_value(input[pos]) < 16 && digit_value(
        input[pos + 1],
    ) < 16 && digit_value(input[pos + 2]) < 16 && digit_value(input[pos + 3]) < 16
}

/// The bytes that the escape sequence at `pos` stands for and the position
/// after the sequence, or `None` where no known escape stands at `pos`.
///
/// `\n`, `\r`, `\t`, `\\` and `\"` stand for one byte each. `\u` takes four
/// hexadecimal digits and stands for those four digits.
pub open spec fn escape(input: Seq<u8>, pos: int, to: int) -> Option<(Seq<u8>, int)> {
    if 0 <= pos && pos + 1 < to <= input.len() {
        let selector = input[pos + 1];
        if selector == ascii::LOWER_N {
            Some((seq![ascii::LINE_FEED], pos + 2))
        } else if selector == ascii::LOWER_R {
            Some((seq![ascii::CARRIAGE_RETURN], pos + 2))
        } else if selector == ascii::LOWER_T {
            Some((seq![ascii::TAB], pos + 2))
        } else if selector == ascii::BACKSLASH {
            Some((seq![ascii::BACKSLASH], pos + 2))
        } else if selector == ascii::QUOTE {
            Some((seq![ascii::QUOTE], pos + 2))
        } else if selector == ascii::LOWER_U && four_hex_digits(input, pos + 2, to) {
            Some((input.subrange(pos + 2, pos + 6), pos + 6))
        } else {
            None
        }
    } else {
        None
    }
}

pub open spec fn prepend(bytes: Seq<u8>, rest: Option<Seq<u8>>) -> Option<Seq<u8>> {
    match rest {
        Some(rest) => Some(bytes + rest),
        None => None,
    }
}

/// The contents of the string literal whose body is `input[pos..to)`, with
/// every escape sequence replaced by what it stands for, or `None` where the
/// body holds a backslash that starts no known escape.
pub open spec fn decode(input: Seq<u8>, pos: int, to: int) -> Option<Seq<u8>>
    decreases to - pos,
{
    if pos < 0 || pos >= to || to > input.len() {
        Some(Seq::empty())
    } else if input[pos] != ascii::BACKSLASH {
        prepend(seq![input[pos]], decode(input, pos + 1, to))
    } else {
        match escape(input, pos, to) {
            Some((bytes, next)) => prepend(bytes, decode(input, next, to)),
            None => None,
        }
    }
}

/// Finds where the string literal whose body starts at `pos` closes.
pub fn find_string_end(input: &[u8], pos: usize) -> (end: StringEnd)
    requires
        pos <= input@.len(),
    ensures
        end == string_end(input@, pos as int),
{
    let len = input.len();
    let mut i: usize = pos;
    loop
        invariant
            pos <= i <= len == input@.len(),
            string_end(input@, pos as int) == string_end(input@, i as int),
        decreases len - i,
    {
        if i >= len {
            return StringEnd::Unterminated(len);
        }
        let b = input[i];
        if b == ascii::CARRIAGE_RETURN || b == ascii::LINE_FEED {
            return StringEnd::Unterminated(i);
        }
        if b == ascii::QUOTE {
            return StringEnd::Closed(i);
        }
        if b == ascii::BACKSLASH && len - i > 1 && !(input[i + 1] == ascii::CARRIAGE_RETURN
            || input[i + 1] == ascii::LINE_FEED) {
            i = i + 2;
        } else {
            i = i + 1;
        }
    }
}

fn is_hex_digit(b: u8) -> (r: bool)
    ensures
        r == (digit_value(b) < 16),
{
    byte_digit_value(b) < 16
}

/// Decodes the body `input[from..to)` of a string literal.
pub fn decode_string(input: &[u8], from: usize, to: usize) -> (text: Option<Vec<u8>>)
    requires
        from <= to <= input@.len(),
    ensures
        text is Some == decode(input@, from as int, to as int) is Some,
        text is Some ==> text->0@ == decode(input@, from as int, to as int)->0,
{
    let mut text: Vec<u8> = Vec::new();
    let mut i: usize = from;
    while i < to
        invariant
            from <= i <= to <= input@.len(),
            decode(input@, from as int, to as int) == prepend(
                text@,
                decode(input@, i as int, to as int),
            ),
        decreases to - i,
    {
        let ghost before = text@;
        let b = input[i];
        if b != ascii::BACKSLASH {
            text.push(b);
            i = i + 1;
            proof {
                let rest = decode(input@, i as int, to as int);
                if rest is Some {
                    assert(before + (seq![b] + rest->0) == before.push(b) + rest->0);
                }
            }
        } else {
            if to - i < 2 {
                return None;
            }
            let selector = input[i + 1];
            let single = if selector == ascii::LOWER_N {
                Some(ascii::LINE_FEED)
            } else if selector == ascii::LOWER_R {
                Some(ascii::CARRIAGE_RETURN)
            } else if selector == ascii::LOWER_T {
                Some(ascii::TAB)
            } else if selector == ascii::BACKSLASH {
                Some(ascii::BACKSLASH)
            } else if selector == ascii::QUOTE {
                Some(ascii::QUOTE)
            } else {
                None
            };
            match single {
                Some(byte) => {
                    text.push(byte);
                    i = i + 2;
                    proof {
                        let rest = decode(input@, i as int, to as int);
                        if rest is Some {
                            assert(before + (seq![byte] + rest->0) == before.push(byte) + rest->0);
                        }
                    }
                },
                None => {
                    if selector == ascii::LOWER_U && to - i >= 6 && is_hex_digit(input[i + 2])
                        && is_hex_digit(input[i + 3]) && is_hex_digit(input[i + 4])
                        && is_hex_digit(input[i + 5]) {
                        text.push(input[i + 2]);
                        text.push(input[i + 3]);
                        text.push(input[i + 4]);
                        text.push(input[i + 5]);
                        proof {
                            let digits = input@.subrange(i + 2, i + 6);
                            let rest = decode(input@, i + 6, to as int);
                            assert(text@ == before + digits);
                            if rest is Some {
                                assert(before + (digits + rest->0) == (before + digits) + rest->0);
                            }
                        }
                        i = i + 6;
                    } else {
                        return None;
                    }
                },
            }
        }
    }
    proof {
        assert(text@ + Seq::<u8>::empty() == text@);
    }
    Some(text)
}

} // verus!
