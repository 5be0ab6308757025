//! The ASCII bytes that the grammar of tokens names.

use vstd::prelude::*;

verus! {

pub const TAB: u8 = 9;

pub const LINE_FEED: u8 = 10;

pub const CARRIAGE_RETURN: u8 = 13;

pub const SPACE: u8 = 32;

pub const BANG: u8 = 33;

pub const QUOTE: u8 = 34;

pub const PERCENT: u8 = 37;

pub const AMPERSAND: u8 = 38;

pub const LEFT_PAREN: u8 = 40;

pub const RIGHT_PAREN: u8 = 41;

pub const STAR: u8 = 42;

pub const PLUS: u8 = 43;

pub const COMMA: u8 = 44;

pub const MINUS: u8 = 45;

pub const PERIOD: u8 = 46;

pub const SLASH: u8 = 47;

pub const DIGIT_0: u8 = 48;

pub const DIGIT_9: u8 = 57;

pub const COLON: u8 = 58;

pub const SEMICOLON: u8 = 59;

pub const LESS: u8 = 60;

pub const EQUALS: u8 = 61;

pub const GREATER: u8 = 62;

pub const UPPER_A: u8 = 65;

pub const UPPER_B: u8 = 66;

pub const UPPER_E: u8 = 69;

pub const UPPER_F: u8 = 70;

pub const UPPER_O: u8 = 79;

pub const UPPER_X: u8 = 88;

pub const UPPER_Z: u8 = 90;

pub const LEFT_BRACKET: u8 = 91;

pub const BACKSLASH: u8 = 92;

pub const RIGHT_BRACKET: u8 = 93;

pub const CARET: u8 = 94;

pub const UNDERSCORE: u8 = 95;

pub const LOWER_A: u8 = 97;

pub const LOWER_B: u8 = 98;

pub const LOWER_E: u8 = 101;

pub const LOWER_F: u8 = 102;

pub const LOWER_N: u8 = 110;

pub const LOWER_O: u8 = 111;

pub const LOWER_R: u8 = 114;

pub const LOWER_T: u8 = 116;

pub const LOWER_U: u8 = 117;

pub const LOWER_X: u8 = 120;

pub const LOWER_Z: u8 = 122;

pub const LEFT_BRACE: u8 = 123;

pub const PIPE: u8 = 124;

pub const RIGHT_BRACE: u8 = 125;

pub const TILDE: u8 = 126;

} // verus!
