//! Syntax errors, and lexical errors in the shape of syntax errors.

use crate::lexer::error::LexerErrorKind;
use crate::span::Spanned;
use vstd::prelude::*;
use vstd::string::StringExecFns;

verus! {

/// What the parser expected where it found something else.
#[derive(Clone, Copy, Debug, PartialEq, Eq, Structural)]
pub enum Expected {
    Semicolon,
    Colon,
    LeftParen,
    RightParen,
    RightBracket,
    LeftBrace,
    RightBrace,
    IfKeyword,
    WhileKeyword,
    UseKeyword,
    LetKeyword,
    BreakKeyword,
    ContinueKeyword,
    ReturnKeyword,
    ExternKeyword,
    FnKeyword,
    StructKeyword,
    Identifier,
    /// A literal, an identifier or an expression in parentheses.
    Atom,
    /// An identifier path, a member access or an index on the left of an assignment.
    AssignmentTarget,
    /// A type or an initial value in a variable declaration.
    TypeOrValue,
    /// A `use`, a function or a struct at the top level.
    Declaration,
}

impl Expected {
    pub open spec fn description(self) -> Seq<char> {
        match self {
            Expected::Semicolon => "semicolon"@,
            Expected::Colon => "colon"@,
            Expected::LeftParen => "left parenthesis"@,
            Expected::RightParen => "right parenthesis"@,
            Expected::RightBracket => "right square bracket"@,
            Expected::LeftBrace => "left brace"@,
            Expected::RightBrace => "right brace"@,
            Expected::IfKeyword => "'if' keyword"@,
            Expected::WhileKeyword => "'while' keyword"@,
            Expected::UseKeyword => "'use' keyword"@,
            Expected::LetKeyword => "'let' keyword"@,
            Expected::BreakKeyword => "'break' keyword"@,
            Expected::ContinueKeyword => "'continue' keyword"@,
            Expected::ReturnKeyword => "'return' keyword"@,
            Expected::ExternKeyword => "'extern' keyword"@,
            Expected::FnKeyword => "'fn' keyword"@,
            Expected::StructKeyword => "'struct' keyword"@,
            Expected::Identifier => "identifier"@,
            Expected::Atom => "atom (literal, identifier, or expression within parenthesis)"@,
            Expected::AssignmentTarget => "assignable expression on the left of the assignment"@,
            Expected::TypeOrValue =>
                "colon and type name or assignment in variable declaration"@,
            Expected::Declaration =>
                "a top-level declaration (use statement, function declaration, or struct declaration)"@,
        }
    }

    /// The words for what was expected.
    pub fn describe(self) -> (text: &'static str)
        ensures
            text@ == self.description(),
    {
        match self {
            Expected::Semicolon => "semicolon",
            Expected::Colon => "colon",
            Expected::LeftParen => "left parenthesis",
            Expected::RightParen => "right parenthesis",
            Expected::RightBracket => "right square bracket",
            Expected::LeftBrace => "left brace",
            Expected::RightBrace => "right brace",
            Expected::IfKeyword => "'if' keyword",
            Expected::WhileKeyword => "'while' keyword",
            Expected::UseKeyword => "'use' keyword",
            Expected::LetKeyword => "'let' keyword",
            Expected::BreakKeyword => "'break' keyword",
            Expected::ContinueKeyword => "'continue' keyword",
            Expected::ReturnKeyword => "'return' keyword",
            Expected::ExternKeyword => "'extern' keyword",
            Expected::FnKeyword => "'fn' keyword",
            Expected::StructKeyword => "'struct' keyword",
            Expected::Identifier => "identifier",
            Expected::Atom => "atom (literal, identifier, or expression within parenthesis)",
            Expected::AssignmentTarget => "assignable expression on the left of the assignment",
            Expected::TypeOrValue => "colon and type name or assignment in variable declaration",
            Expected::Declaration =>
                "a top-level declaration (use statement, function declaration, or struct declaration)",
        }
    }
}

/// An error of the parser. A lexical error that reaches the parser through
/// the token stream is carried in the same shape as a syntax error.
#[derive(Clone, Copy, Debug, PartialEq, Eq, Structural)]
pub enum ParserError {
    SyntaxError(Expected),
    LexerError(LexerErrorKind),
}

impl ParserError {
    pub open spec fn message_text(self) -> Seq<char> {
        match self {
            ParserError::SyntaxError(expected) => "expected "@ + expected.description(),
            ParserError::LexerError(kind) => kind.message_text(),
        }
    }

    pub fn message(&self) -> (message: String)
        ensures
            message@ == self.message_text(),
    {
        match self {
            ParserError::SyntaxError(expected) => String::from_str("expected ").concat(
                expected.describe(),
            ),
            ParserError::LexerError(kind) => kind.message(),
        }
    }
}

/// An error with the span of the text it was raised on.
pub type ParseError = Spanned<ParserError>;

/// What a parsing function hands out: a spanned node, or the error that
/// ended the parse.
pub type ParserResult<T> = Result<Spanned<T>, ParseError>;

/// Receives the errors of a parse. Whether the first error ends the work or
/// all errors are gathered is for the implementation to choose; what it has
/// been handed is a matter of record either way.
pub trait ErrorReporter {
    /// The errors that the reporter has been handed, in order.
    spec fn reported(&self) -> Seq<ParseError>;

    fn report(&mut self, error: &ParseError)
        ensures
            final(self).reported() == old(self).reported().push(*error),
    ;
}

/// A reporter that keeps every error it is handed, in order.
#[derive(Debug)]
pub struct CollectingReporter {
    pub errors: Vec<ParseError>,
}

impl CollectingReporter {
    pub fn new() -> (reporter: CollectingReporter)
        ensures
            reporter.errors@.len() == 0,
            reporter.reported() == Seq::<ParseError>::empty(),
    {
        CollectingReporter { errors: Vec::new() }
    }
}

impl ErrorReporter for CollectingReporter {
    open spec fn reported(&self) -> Seq<ParseError> {
        self.errors@
    }

    fn report(&mut self, error: &ParseError) {
        self.errors.push(Spanned { value: error.value, span: error.span });
    }
}

/// A reporter that drops what it is handed.
pub struct SilentReporter {
    handed: Ghost<Seq<ParseError>>,
}

impl SilentReporter {
    pub fn new() -> (reporter: SilentReporter)
        ensures
            reporter.reported() == Seq::<ParseError>::empty(),
    {
        SilentReporter { handed: Ghost(Seq::empty()) }
    }
}

impl ErrorReporter for SilentReporter {
    closed spec fn reported(&self) -> Seq<ParseError> {
        self.handed@
    }

    fn report(&mut self, error: &ParseError) {
        self.handed = Ghost(self.handed@.push(*error));
    }
}

} // verus!
