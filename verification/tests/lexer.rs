use haikulang::lexer::error::{LexerError, LexerErrorKind, NumericFault};
use haikulang::lexer::token::{FloatWidth, IntLit, IntWidth, Token, TokenType};
use haikulang::lexer::token_stream::TokenStream;
use haikulang::lexer::tokenizer::Tokenizer;
use haikulang::span::Span;

fn lex_all(source: &str) -> Vec<Result<Token, LexerError>> {
    let mut tokenizer = Tokenizer::new(source.as_bytes());
    let mut out = Vec::new();
    loop {
        let next = tokenizer.next_token();
        let done = matches!(&next, Ok(token) if token.token_type == TokenType::Eof);
        out.push(next);
        if done {
            return out;
        }
    }
}

fn types(source: &str) -> Vec<TokenType> {
    lex_all(source)
        .into_iter()
        .map(|result| result.expect("tokenization failed").token_type)
        .collect()
}

fn single(source: &str) -> Result<Token, LexerError> {
    let mut all = lex_all(source);
    assert_eq!(all.len(), 2, "expected one lexeme and the end of input in {:?}", source);
    all.remove(0)
}

#[test]
fn hex_literal_with_u64_suffix_holds_the_largest_value() {
    let token = single("0xFFFFFFFFFFFFFFFFu64").unwrap();
    assert_eq!(token.token_type, TokenType::IntLit(IntLit::U64(18446744073709551615)));
    assert_eq!(token.raw, b"0xFFFFFFFFFFFFFFFFu64".to_vec());
    assert_eq!(token.span, Span::new(0, 21));
}

#[test]
fn hex_literal_without_suffix_overflows_the_default_width() {
    let error = single("0xFFFFFFFFFFFFFFFF").unwrap_err();
    assert_eq!(
        error.kind,
        LexerErrorKind::InvalidNumericLiteral(NumericFault::Overflow(IntWidth::Untyped))
    );
    assert_eq!(error.span, Span::new(0, 18));
}

#[test]
fn bare_hex_prefix_is_a_malformed_literal_spanning_the_prefix() {
    let error = single("0x").unwrap_err();
    assert_eq!(
        error.kind,
        LexerErrorKind::InvalidNumericLiteral(NumericFault::MissingHexDigits)
    );
    assert_eq!(error.span, Span::new(0, 2));
    assert_eq!(error.raw, b"0x".to_vec());
}

#[test]
fn one_hundred_in_every_base_and_prefix_case() {
    for source in ["0b1100100", "0B1100100", "0o144", "0O144", "100", "0x64", "0X64"] {
        let token = single(source).unwrap();
        assert_eq!(token.token_type, TokenType::IntLit(IntLit::Untyped(100)), "{}", source);
    }
}

#[test]
fn default_integer_parsing_agrees_with_native_parsing() {
    for source in ["0", "7", "42", "012345", "2147483647", "1_000_000", "9_9"] {
        let stripped: String = source.chars().filter(|c| *c != '_').collect();
        let native: i32 = stripped.parse().unwrap();
        let token = single(source).unwrap();
        assert_eq!(token.token_type, TokenType::IntLit(IntLit::Untyped(native)), "{}", source);
    }
    for source in ["2147483648", "99999999999999999999999"] {
        assert!(source.parse::<i32>().is_err());
        let error = single(source).unwrap_err();
        assert_eq!(
            error.kind,
            LexerErrorKind::InvalidNumericLiteral(NumericFault::Overflow(IntWidth::Untyped))
        );
    }
}

#[test]
fn width_suffixes_select_the_type() {
    assert_eq!(single("127i8").unwrap().token_type, TokenType::IntLit(IntLit::I8(127)));
    assert_eq!(single("255u8").unwrap().token_type, TokenType::IntLit(IntLit::U8(255)));
    assert_eq!(single("0xffu16").unwrap().token_type, TokenType::IntLit(IntLit::U16(255)));
    assert_eq!(single("1_000i64").unwrap().token_type, TokenType::IntLit(IntLit::I64(1000)));
    assert_eq!(
        single("128i8").unwrap_err().kind,
        LexerErrorKind::InvalidNumericLiteral(NumericFault::Overflow(IntWidth::I8))
    );
}

#[test]
fn float_literals_carry_their_digits() {
    let token = single("1_234.5e-3").unwrap();
    assert_eq!(token.token_type, TokenType::FloatLit(FloatWidth::Untyped));
    assert_eq!(token.text, b"1234.5e-3".to_vec());
    assert_eq!(token.text.iter().map(|b| *b as char).collect::<String>().parse::<f64>(), Ok(1234.5e-3));
    let token = single("2f32").unwrap();
    assert_eq!(token.token_type, TokenType::FloatLit(FloatWidth::Single));
    assert_eq!(token.text, b"2".to_vec());
    let token = single("123.0e4f64").unwrap();
    assert_eq!(token.token_type, TokenType::FloatLit(FloatWidth::Double));
    assert_eq!(token.text, b"123.0e4".to_vec());
    let token = single("1_2e3").unwrap();
    assert_eq!(token.token_type, TokenType::FloatLit(FloatWidth::Untyped));
    assert_eq!(token.text, b"12e3".to_vec());
}

#[test]
fn a_point_needs_a_digit_even_before_an_exponent() {
    let all = lex_all("123.e4");
    let error = all[0].as_ref().unwrap_err();
    assert_eq!(
        error.kind,
        LexerErrorKind::InvalidNumericLiteral(NumericFault::IncompleteMantissa)
    );
    assert_eq!(error.span, Span::new(0, 4));
    assert_eq!(error.raw, b"123.".to_vec());
    assert_eq!(all[1].as_ref().unwrap().token_type, TokenType::Identifier);
    assert_eq!(
        single("1._").unwrap_err().kind,
        LexerErrorKind::InvalidNumericLiteral(NumericFault::IncompleteMantissa)
    );
    assert_eq!(single("1._5").unwrap().text, b"1.5".to_vec());
}

#[test]
fn incomplete_floats_are_malformed() {
    assert_eq!(
        single("1.").unwrap_err().kind,
        LexerErrorKind::InvalidNumericLiteral(NumericFault::IncompleteMantissa)
    );
    let error = single("1e+").unwrap_err();
    assert_eq!(
        error.kind,
        LexerErrorKind::InvalidNumericLiteral(NumericFault::IncompleteExponent)
    );
    assert_eq!(error.span, Span::new(0, 3));
    assert_eq!(
        single("0b").unwrap_err().kind,
        LexerErrorKind::InvalidNumericLiteral(NumericFault::MissingBinaryDigits)
    );
    assert_eq!(
        single("0o_").unwrap_err().kind,
        LexerErrorKind::InvalidNumericLiteral(NumericFault::MissingOctalDigits)
    );
}

#[test]
fn strings_decode_their_escapes() {
    let token = single(r#""a\n\r\t\\\"b""#).unwrap();
    assert_eq!(token.token_type, TokenType::StringLit);
    assert_eq!(token.text, b"a\n\r\t\\\"b".to_vec());
    let token = single("\"\\u0041\"").unwrap();
    assert_eq!(token.text, b"0041".to_vec());
}

#[test]
fn unterminated_strings_fail_at_the_end_of_the_line_or_input() {
    let error = single("\"abc").unwrap_err();
    assert_eq!(error.kind, LexerErrorKind::UnexpectedEndOfLine);
    assert_eq!(error.span, Span::new(0, 4));
    let all = lex_all("\"abc\ndef");
    let error = all[0].as_ref().unwrap_err();
    assert_eq!(error.kind, LexerErrorKind::UnexpectedEndOfLine);
    assert_eq!(error.span, Span::new(0, 4));
    assert_eq!(all[1].as_ref().unwrap().token_type, TokenType::Identifier);
    let error = single("\"abc\\\"").unwrap_err();
    assert_eq!(error.kind, LexerErrorKind::UnexpectedEndOfLine);
    let error = single("\"ab\\q").unwrap_err();
    assert_eq!(error.kind, LexerErrorKind::UnexpectedEndOfLine);
}

#[test]
fn unknown_escapes_fail_over_the_whole_literal() {
    let error = single(r#""a\qb""#).unwrap_err();
    assert_eq!(error.kind, LexerErrorKind::UnrecognisedStringEscape);
    assert_eq!(error.span, Span::new(0, 6));
    assert_eq!(
        single(r#""\u12""#).unwrap_err().kind,
        LexerErrorKind::UnrecognisedStringEscape
    );
}

#[test]
fn keywords_and_identifiers() {
    assert_eq!(
        types("fn extern struct use let if else while break continue return true false"),
        vec![
            TokenType::Fn,
            TokenType::Extern,
            TokenType::Struct,
            TokenType::Use,
            TokenType::Let,
            TokenType::If,
            TokenType::Else,
            TokenType::While,
            TokenType::Break,
            TokenType::Continue,
            TokenType::Return,
            TokenType::True,
            TokenType::False,
            TokenType::Eof,
        ]
    );
    let token = single("_foo9").unwrap();
    assert_eq!(token.token_type, TokenType::Identifier);
    assert_eq!(token.text, b"_foo9".to_vec());
    assert_eq!(single("iffy").unwrap().token_type, TokenType::Identifier);
}

#[test]
fn operators_match_longest_first() {
    assert_eq!(
        types("** * **= *= <= << <<= < >>= >> >= > :: : == = != ! && & &= || | |= ^ ^= ~ -> - -= + += / /= % %="),
        vec![
            TokenType::Pow,
            TokenType::Mul,
            TokenType::PowAssign,
            TokenType::MulAssign,
            TokenType::LessEq,
            TokenType::BinaryShl,
            TokenType::BinaryShlAssign,
            TokenType::Less,
            TokenType::BinaryShrAssign,
            TokenType::BinaryShr,
            TokenType::GreaterEq,
            TokenType::Greater,
            TokenType::DoubleColon,
            TokenType::Colon,
            TokenType::Eq,
            TokenType::Assign,
            TokenType::NotEq,
            TokenType::BoolNot,
            TokenType::BoolAnd,
            TokenType::BinaryAnd,
            TokenType::BinaryAndAssign,
            TokenType::BoolOr,
            TokenType::BinaryOr,
            TokenType::BinaryOrAssign,
            TokenType::BinaryXor,
            TokenType::BinaryXorAssign,
            TokenType::BinaryNot,
            TokenType::Arrow,
            TokenType::Sub,
            TokenType::SubAssign,
            TokenType::Add,
            TokenType::AddAssign,
            TokenType::Div,
            TokenType::DivAssign,
            TokenType::Mod,
            TokenType::ModAssign,
            TokenType::Eof,
        ]
    );
    assert_eq!(
        types(". , ; ( ) [ ] { }"),
        vec![
            TokenType::Period,
            TokenType::Comma,
            TokenType::Semicolon,
            TokenType::LeftParen,
            TokenType::RightParen,
            TokenType::LeftBracket,
            TokenType::RightBracket,
            TokenType::LeftBrace,
            TokenType::RightBrace,
            TokenType::Eof,
        ]
    );
}

#[test]
fn comments_are_tokens() {
    let all = lex_all("a // rest of line\n/* block\n * more */ b /* open");
    let kinds: Vec<TokenType> = all.iter().map(|r| r.as_ref().unwrap().token_type).collect();
    assert_eq!(
        kinds,
        vec![
            TokenType::Identifier,
            TokenType::InlineComment,
            TokenType::MultilineComment,
            TokenType::Identifier,
            TokenType::Div,
            TokenType::Mul,
            TokenType::Identifier,
            TokenType::Eof,
        ]
    );
    assert_eq!(all[1].as_ref().unwrap().text, b" rest of line".to_vec());
    assert_eq!(all[2].as_ref().unwrap().text, b" block\n * more ".to_vec());
    let all = lex_all("/* a */ */");
    assert_eq!(all[0].as_ref().unwrap().raw, b"/* a */".to_vec());
}

#[test]
fn unknown_characters_are_errors_that_take_the_whole_character() {
    let all = lex_all("a # \u{e9} b");
    assert_eq!(all[1].as_ref().unwrap_err().kind, LexerErrorKind::UnrecognisedCharacter);
    assert_eq!(all[1].as_ref().unwrap_err().span, Span::new(2, 3));
    assert_eq!(all[2].as_ref().unwrap_err().kind, LexerErrorKind::UnrecognisedCharacter);
    assert_eq!(all[2].as_ref().unwrap_err().span, Span::new(4, 6));
    assert_eq!(all[3].as_ref().unwrap().token_type, TokenType::Identifier);
}

#[test]
fn end_of_input_is_idempotent() {
    let mut tokenizer = Tokenizer::new(b"x  ");
    assert_eq!(tokenizer.next_token().unwrap().token_type, TokenType::Identifier);
    for _ in 0..3 {
        let token = tokenizer.next_token().unwrap();
        assert_eq!(token.token_type, TokenType::Eof);
        assert_eq!(token.span, Span::new(3, 3));
        assert!(token.raw.is_empty());
    }
}

#[test]
fn retokenizing_the_raw_text_reproduces_the_token() {
    let source = "let x1 = 0x1F_u8 + 12.5e3f32 ** \"s\\n\" // c\n/* d */ <<= foo::bar";
    for result in lex_all(source) {
        let token = result.unwrap();
        let mut again = Tokenizer::new(&token.raw);
        let copy = again.next_token().unwrap();
        assert_eq!(copy.token_type, token.token_type);
        assert_eq!(copy.raw, token.raw);
        assert_eq!(copy.text, token.text);
        assert_eq!(copy.span, Span::new(0, token.raw.len()));
    }
}

#[test]
fn messages_name_the_error() {
    assert_eq!(LexerErrorKind::UnrecognisedCharacter.message(), "unexpected character in input");
    assert_eq!(
        LexerErrorKind::UnrecognisedStringEscape.message(),
        "unrecognised escape sequence in string"
    );
    assert_eq!(LexerErrorKind::UnexpectedEndOfLine.message(), "unexpected line end");
    assert_eq!(
        LexerErrorKind::InvalidNumericLiteral(NumericFault::MissingHexDigits).message(),
        "failed to parse numeric literal: missing hexadecimal literal value"
    );
    assert_eq!(
        LexerErrorKind::InvalidNumericLiteral(NumericFault::Overflow(IntWidth::U8)).message(),
        "failed to parse numeric literal: number too large to fit in target type"
    );
}

#[test]
fn token_stream_shows_the_current_lexeme_until_advanced() {
    let mut stream = TokenStream::new(b"a 0x b");
    assert_eq!(stream.current().as_ref().unwrap().token_type, TokenType::Identifier);
    assert_eq!(stream.current().as_ref().unwrap().span, Span::new(0, 1));
    assert_eq!(stream.peek().unwrap().text, b"a".to_vec());
    stream.advance();
    assert!(stream.current().is_err());
    assert_eq!(stream.current_span(), Span::new(2, 4));
    let taken = stream.next();
    assert!(taken.is_err());
    assert_eq!(stream.next().unwrap().text, b"b".to_vec());
    assert_eq!(stream.current().as_ref().unwrap().token_type, TokenType::Eof);
    stream.advance();
    assert_eq!(stream.current().as_ref().unwrap().token_type, TokenType::Eof);
    assert_eq!(stream.current_span(), Span::new(6, 6));
}
