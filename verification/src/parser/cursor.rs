//! The parser's state and the primitives every rule is built from.

use crate::ast::tree::{spanned_tree, Syntax};
use crate::lexer::token::TokenType;
use crate::lexer::token_stream::TokenStream;
use crate::lexer::tokenizer::{is_eof, lemma_lex_span, lex, lex_span};
use crate::parser::error::{Expected, ParseError, ParserError, ParserResult};
use crate::parser::grammar::{
    advance, current, current_span, eat, skip_comments, syntax_error, Eaten, Parsed,
};
use crate::span::{Span, Spanned};
use vstd::prelude::*;
use vstd::slice::slice_to_vec;

verus! {

/// A parser over the tokens of one source text.
pub struct Parser<'src> {
    pub(crate) stream: TokenStream<'src>,
}

/// What a parsing function handed out, as the grammar states it.
pub open spec fn parsed<T: Syntax>(result: ParserResult<T>, next: int) -> Parsed {
    Parsed {
        result: match result {
            Ok(node) => Ok(spanned_tree(node)),
            Err(error) => Err(error),
        },
        next,
    }
}

impl<'src> Parser<'src> {
    /// The source text.
    pub closed spec fn source(self) -> Seq<u8> {
        self.stream.source()
    }

    /// The offset from which the current token is read.
    pub closed spec fn position(self) -> int {
        self.stream.position()
    }

    /// The parser stands inside its source, on a lexeme that is no comment.
    pub closed spec fn wf(self) -> bool {
        &&& self.stream.wf()
        &&& 0 <= self.stream.position() <= self.stream.source().len() <= usize::MAX
        &&& skip_comments(self.stream.source(), self.stream.position()) == self.stream.position()
    }

    /// The parser went from `before` to `self` by the rule that yields
    /// `rule` at the position of `before`, and handed out `result`: the
    /// source is the same, the result and the new position are those of the
    /// rule, and a success has consumed at least one token.
    pub open spec fn follows<T: Syntax>(self, before: Self, result: ParserResult<T>, rule: Parsed)
        -> bool {
        &&& self.wf()
        &&& self.source() == before.source()
        &&& parsed(result, self.position()) == rule
        &&& before.position() <= self.position() <= before.source().len()
        &&& result is Ok ==> before.position() < self.position()
    }

    /// A well-formed parser stands inside its source.
    pub proof fn lemma_bounds(self)
        requires
            self.wf(),
        ensures
            0 <= self.position() <= self.source().len() <= usize::MAX,
    {
    }

    /// A parser at the first token of `stream` that is no comment.
    pub fn new(stream: TokenStream<'src>) -> (parser: Self)
        requires
            stream.wf(),
        ensures
            parser.wf(),
            parser.source() == stream.source(),
            parser.position() == skip_comments(stream.source(), stream.position()),
    {
        let mut parser = Parser { stream };
        proof {
            parser.stream.lemma_position();
        }
        parser.consume_comments();
        parser
    }

    /// Passes over the comments at the current position.
    fn consume_comments(&mut self)
        requires
            old(self).stream.wf(),
            0 <= old(self).stream.position() <= old(self).stream.source().len() <= usize::MAX,
        ensures
            final(self).wf(),
            final(self).source() == old(self).source(),
            final(self).position() == skip_comments(old(self).source(), old(self).position()),
            old(self).position() <= final(self).position() <= old(self).source().len(),
    {
        let ghost source = self.stream.source();
        let ghost start = self.stream.position();
        loop
            invariant
                self.stream.wf(),
                self.stream.source() == source,
                0 <= start <= self.stream.position() <= source.len() <= usize::MAX,
                skip_comments(source, start) == skip_comments(source, self.stream.position()),
            ensures
                self.wf(),
                self.stream.source() == source,
                start <= self.stream.position() <= source.len(),
                skip_comments(source, start) == self.stream.position(),
            decreases source.len() - self.stream.position(),
        {
            let is_comment = match self.stream.current() {
                Ok(token) => match token.token_type {
                    TokenType::InlineComment => true,
                    TokenType::MultilineComment => true,
                    _ => false,
                },
                Err(_) => false,
            };
            if !is_comment {
                assert(skip_comments(source, self.stream.position()) == self.stream.position());
                break ;
            }
            proof {
                lemma_lex_span(source, self.stream.position());
            }
            self.stream.advance();
        }
    }

    /// The type of the current token, or the lexical error that stands in
    /// its place.
    pub fn token_type(&self) -> (token_type: Result<TokenType, ParseError>)
        requires
            self.wf(),
        ensures
            token_type == match current(self.source(), self.position()) {
                Ok(token) => Ok::<TokenType, ParseError>(token.token_type),
                Err(error) => Err(error),
            },
            0 <= self.position() <= self.source().len() <= usize::MAX,
    {
        match self.stream.current() {
            Ok(token) => Ok(token.token_type),
            Err(error) => Err(
                Spanned { value: ParserError::LexerError(error.kind), span: error.span },
            ),
        }
    }

    /// The span of the current token or lexical error.
    pub fn span(&self) -> (span: Span)
        requires
            self.wf(),
        ensures
            span == current_span(self.source(), self.position()),
            0 <= self.position() <= self.source().len() <= usize::MAX,
    {
        self.stream.current_span()
    }

    /// A copy of the text that the current token carries; no text where a
    /// lexical error stands in its place.
    pub fn text(&self) -> (text: Vec<u8>)
        requires
            self.wf(),
        ensures
            text@ == (match lex(self.source(), self.position()) {
                Ok(token) => token.text,
                Err(_) => Seq::empty(),
            }),
    {
        match self.stream.current() {
            Ok(token) => slice_to_vec(token.text.as_slice()),
            Err(_) => Vec::new(),
        }
    }

    /// Passes the current token and the comments behind it.
    pub fn advance(&mut self)
        requires
            old(self).wf(),
        ensures
            final(self).wf(),
            final(self).source() == old(self).source(),
            final(self).position() == advance(old(self).source(), old(self).position()),
            old(self).position() <= final(self).position() <= old(self).source().len(),
            !is_eof(lex(old(self).source(), old(self).position())) ==> old(self).position()
                < final(self).position(),
    {
        self.stream.advance();
        self.consume_comments();
    }

    /// Takes the current token if it is of type `wanted`, and hands out its
    /// span. If another token stands there, or a lexical error, nothing is
    /// consumed, and the error says what was `expected`, on the span of
    /// what stands there. A token that is taken is passed, which moves the
    /// parser forward unless the token is the end of the input.
    pub fn eat(&mut self, wanted: TokenType, expected: Expected) -> (eaten: Result<Span, ParseError>)
        requires
            old(self).wf(),
        ensures
            final(self).wf(),
            final(self).source() == old(self).source(),
            eat(old(self).source(), old(self).position(), wanted, expected) == (Eaten {
                result: eaten,
                next: final(self).position(),
            }),
            old(self).position() <= final(self).position() <= old(self).source().len(),
            eaten is Err ==> final(self).position() == old(self).position(),
            eaten is Ok && wanted != TokenType::Eof ==> old(self).position()
                < final(self).position(),
    {
        let span = self.span();
        match self.token_type() {
            Err(error) => Err(error),
            Ok(token_type) => if token_type == wanted {
                self.advance();
                Ok(span)
            } else {
                Err(Spanned { value: ParserError::SyntaxError(expected), span })
            },
        }
    }
}

} // verus!
