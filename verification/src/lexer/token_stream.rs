//! A buffer of one lexeme over the tokenizer.

use crate::lexer::error::LexerError;
use crate::lexer::token::Token;
use crate::lexer::tokenizer::{
    is_eof, lemma_lex_span, lex, lex_span, lex_view, LexView, Tokenizer,
};
use crate::span::Span;
use vstd::prelude::*;
use vstd::slice::slice_to_vec;

verus! {

/// The tokenizer with its next lexeme read ahead: `current` shows the
/// lexeme without taking it, `advance` drops it and reads the one after.
/// Tokens and lexical errors come through the same channel, and the end of
/// the input is an ordinary token.
pub struct TokenStream<'src> {
    tokenizer: Tokenizer<'src>,
    start: usize,
    current: Result<Token, LexerError>,
}

/// A copy of a token.
pub fn copy_token(token: &Token) -> (copy: Token)
    ensures
        copy@ == token@,
{
    Token {
        token_type: token.token_type,
        raw: slice_to_vec(token.raw.as_slice()),
        text: slice_to_vec(token.text.as_slice()),
        span: token.span,
    }
}

/// A copy of a lexical error.
pub fn copy_error(error: &LexerError) -> (copy: LexerError)
    ensures
        copy@ == error@,
{
    LexerError { kind: error.kind, raw: slice_to_vec(error.raw.as_slice()), span: error.span }
}

/// A copy of what the tokenizer handed out.
pub fn copy_result(result: &Result<Token, LexerError>) -> (copy: Result<Token, LexerError>)
    ensures
        lex_view(copy) == lex_view(*result),
{
    match result {
        Ok(token) => Ok(copy_token(token)),
        Err(error) => Err(copy_error(error)),
    }
}

impl<'src> TokenStream<'src> {
    /// The buffered lexeme is the one that the tokenizer reads from the
    /// position of the stream.
    pub closed spec fn wf(self) -> bool {
        &&& 0 <= self.start <= self.tokenizer.source().len() <= usize::MAX
        &&& lex_view(self.current) == lex(self.tokenizer.source(), self.start as int)
        &&& self.tokenizer.position() == lex_span(lex_view(self.current)).end
    }

    /// The source text.
    pub closed spec fn source(self) -> Seq<u8> {
        self.tokenizer.source()
    }

    /// The offset from which the current lexeme was read.
    pub closed spec fn position(self) -> int {
        self.start as int
    }

    /// The current lexeme.
    pub open spec fn current_view(self) -> LexView {
        lex(self.source(), self.position())
    }

    pub fn new(source: &'src [u8]) -> (stream: Self)
        ensures
            stream.wf(),
            stream.source() == source@,
            stream.position() == 0,
    {
        let mut tokenizer = Tokenizer::new(source);
        let current = tokenizer.next_token();
        TokenStream { tokenizer, start: 0, current }
    }

    /// The offset from which the current lexeme was read.
    pub fn offset(&self) -> (offset: usize)
        requires
            self.wf(),
        ensures
            offset == self.position(),
            offset <= self.source().len(),
    {
        self.start
    }

    /// The current lexeme, which stays in the stream.
    pub fn current(&self) -> (current: &Result<Token, LexerError>)
        requires
            self.wf(),
        ensures
            lex_view(*current) == self.current_view(),
    {
        &self.current
    }

    /// The span of the current lexeme, token or error.
    pub fn current_span(&self) -> (span: Span)
        requires
            self.wf(),
        ensures
            span == lex_span(self.current_view()),
    {
        match &self.current {
            Ok(token) => token.span,
            Err(error) => error.span,
        }
    }

    /// Drops the current lexeme and reads the next. At the end of the input
    /// the current lexeme stays the end-of-input token.
    pub fn advance(&mut self)
        requires
            old(self).wf(),
        ensures
            final(self).wf(),
            final(self).source() == old(self).source(),
            final(self).position() == lex_span(old(self).current_view()).end,
            old(self).position() <= final(self).position() <= old(self).source().len(),
            !is_eof(old(self).current_view()) ==> old(self).position() < final(self).position(),
    {
        let start = self.tokenizer.offset();
        let ghost source = self.tokenizer.source();
        let ghost before = lex_view(self.current);
        proof {
            lemma_lex_span(source, self.start as int);
        }
        let next = self.tokenizer.next_token();
        self.start = start;
        self.current = next;
    }

    /// A copy of the current lexeme, which stays in the stream.
    pub fn peek(&self) -> (current: Result<Token, LexerError>)
        requires
            self.wf(),
        ensures
            lex_view(current) == self.current_view(),
    {
        copy_result(&self.current)
    }

    /// Takes the current lexeme out of the stream and reads the next.
    pub fn next(&mut self) -> (taken: Result<Token, LexerError>)
        requires
            old(self).wf(),
        ensures
            final(self).wf(),
            lex_view(taken) == old(self).current_view(),
            final(self).source() == old(self).source(),
            final(self).position() == lex_span(old(self).current_view()).end,
            old(self).position() <= final(self).position() <= old(self).source().len(),
    {
        let taken = self.peek();
        self.advance();
        taken
    }

    /// A well-formed stream stands inside its source.
    pub proof fn lemma_position(self)
        requires
            self.wf(),
        ensures
            0 <= self.position() <= self.source().len() <= usize::MAX,
    {
    }
}

} // verus!
