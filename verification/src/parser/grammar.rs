//! The grammar, as functions from a position in the source to the tree that
//! is parsed from there and the position after it.
//!
//! A position is an offset in the source from which the current token is
//! read. Comments are passed over whenever the position moves. Every rule
//! that succeeds consumes at least one token; the definitions below test
//! that progress before they go on, which is what makes them well founded.

use crate::ast::expr::{BinaryOp, UnaryOp};
use crate::ast::tree::{NodeKind, Tree};
use crate::lexer::token::{TokenType, TokenView};
use crate::lexer::tokenizer::{is_eof, lemma_lex_span, lex, lex_span};
use crate::parser::error::{Expected, ParseError, ParserError};
use crate::span::{Span, Spanned};
use vstd::prelude::*;

verus! {

/// What a rule of the grammar yields at a position: the tree or the error
/// that ended the parse, and the position where the parser then stands.
pub ghost struct Parsed {
    pub result: Result<Tree, ParseError>,
    pub next: int,
}

impl Parsed {
    pub open spec fn done(tree: Tree, next: int) -> Parsed {
        Parsed { result: Ok(tree), next }
    }

    pub open spec fn fail(error: ParseError, next: int) -> Parsed {
        Parsed { result: Err(error), next }
    }

    /// The rule succeeded and left the parser after `from`, inside the input.
    pub open spec fn advanced(self, input: Seq<u8>, from: int) -> bool {
        self.result is Ok && from < self.next <= input.len()
    }

    /// The tree of a rule that succeeded.
    pub open spec fn tree(self) -> Tree {
        self.result->Ok_0
    }
}

/// What taking one expected token yields: the span of the token, or the
/// error, and the position where the parser then stands.
pub ghost struct Eaten {
    pub result: Result<Span, ParseError>,
    pub next: int,
}

impl Eaten {
    pub open spec fn advanced(self, input: Seq<u8>, from: int) -> bool {
        self.result is Ok && from < self.next <= input.len()
    }

    pub open spec fn span(self) -> Span {
        self.result->Ok_0
    }

    /// The outcome of the rule that could not take its token.
    pub open spec fn failure(self) -> Parsed {
        match self.result {
            Err(error) => Parsed::fail(error, self.next),
            Ok(span) => Parsed::fail(syntax_error(Expected::Atom, span), self.next),
        }
    }
}

pub open spec fn syntax_error(expected: Expected, span: Span) -> ParseError {
    Spanned { value: ParserError::SyntaxError(expected), span }
}

/// The first position at or after `pos` where no comment is read.
pub open spec fn skip_comments(input: Seq<u8>, pos: int) -> int
    decreases input.len() - pos,
{
    match lex(input, pos) {
        Ok(token) => if token.token_type.is_comment() && pos < token.span.end <= input.len() {
            skip_comments(input, token.span.end as int)
        } else {
            pos
        },
        Err(_) => pos,
    }
}

/// The position after the token at `pos` and the comments behind it.
pub open spec fn advance(input: Seq<u8>, pos: int) -> int {
    skip_comments(input, lex_span(lex(input, pos)).end as int)
}

/// Whether passing the token at `pos` moves the parser forward inside the input.
pub open spec fn ahead(input: Seq<u8>, pos: int) -> bool {
    pos < advance(input, pos) <= input.len()
}

/// Passing over comments never moves backwards nor out of the input, and
/// ends on a lexeme that is no comment.
pub proof fn lemma_skip_comments(input: Seq<u8>, pos: int)
    requires
        0 <= pos <= input.len() <= usize::MAX,
    ensures
        pos <= skip_comments(input, pos) <= input.len(),
        skip_comments(input, skip_comments(input, pos)) == skip_comments(input, pos),
        !(lex(input, skip_comments(input, pos)) matches Ok(token) && token.token_type.is_comment()),
    decreases input.len() - pos,
{
    lemma_lex_span(input, pos);
    match lex(input, pos) {
        Ok(token) => {
            if token.token_type.is_comment() && pos < token.span.end <= input.len() {
                lemma_skip_comments(input, token.span.end as int);
            }
        },
        Err(_) => {},
    }
}

/// Passing a token moves the parser forward inside the input: only at the
/// end of the input is there nothing to pass.
pub proof fn lemma_ahead(input: Seq<u8>, pos: int)
    requires
        0 <= pos <= input.len() <= usize::MAX,
        !is_eof(lex(input, pos)),
    ensures
        ahead(input, pos),
{
    lemma_lex_span(input, pos);
    lemma_skip_comments(input, lex_span(lex(input, pos)).end as int);
}

/// The token at `pos`, or the lexical error there as an error of the parser.
pub open spec fn current(input: Seq<u8>, pos: int) -> Result<TokenView, ParseError> {
    match lex(input, pos) {
        Ok(token) => Ok(token),
        Err(error) => Err(Spanned { value: ParserError::LexerError(error.kind), span: error.span }),
    }
}

/// The span of the token or the lexical error at `pos`.
pub open spec fn current_span(input: Seq<u8>, pos: int) -> Span {
    lex_span(lex(input, pos))
}

/// Takes the token at `pos` if it is of type `wanted`; fails with what was
/// `expected`, on the span of the token that stands there, if it is not.
/// Nothing is consumed on failure.
pub open spec fn eat(input: Seq<u8>, pos: int, wanted: TokenType, expected: Expected) -> Eaten {
    match current(input, pos) {
        Err(error) => Eaten { result: Err(error), next: pos },
        Ok(token) => if token.token_type == wanted {
            Eaten { result: Ok(token.span), next: advance(input, pos) }
        } else {
            Eaten { result: Err(syntax_error(expected, token.span)), next: pos }
        },
    }
}

/// `identifier ::= IDENTIFIER`
pub open spec fn identifier(input: Seq<u8>, pos: int) -> Parsed {
    match current(input, pos) {
        Err(error) => Parsed::fail(error, pos),
        Ok(token) => if token.token_type == TokenType::Identifier {
            Parsed::done(
                Tree::leaf(NodeKind::Identifier(token.text), token.span),
                advance(input, pos),
            )
        } else {
            Parsed::fail(syntax_error(Expected::Identifier, token.span), pos)
        },
    }
}

/// The rest of an identifier path of which `qualifier` has been read.
pub open spec fn path_tail(input: Seq<u8>, first: Span, qualifier: Seq<Tree>, pos: int) -> Parsed
    decreases input.len() - pos,
{
    let name = identifier(input, pos);
    if !name.advanced(input, pos) {
        name
    } else {
        match current(input, name.next) {
            Err(error) => Parsed::fail(error, name.next),
            Ok(token) => if token.token_type == TokenType::DoubleColon && ahead(input, name.next) {
                path_tail(input, first, qualifier.push(name.tree()), advance(input, name.next))
            } else {
                Parsed::done(
                    Tree::node(
                        NodeKind::IdentifierPath,
                        first.cover(name.tree().span),
                        qualifier.push(name.tree()),
                    ),
                    name.next,
                )
            },
        }
    }
}

/// `identifier_path ::= identifier ( '::' identifier )*`
pub open spec fn identifier_path(input: Seq<u8>, pos: int) -> Parsed {
    path_tail(input, current_span(input, pos), Seq::empty(), pos)
}

/// The operator of a compound assignment, `None` for the plain one; the
/// outer `None` for a token that is no assignment operator.
pub open spec fn assignment_op(token_type: TokenType) -> Option<Option<BinaryOp>> {
    match token_type {
        TokenType::Assign => Some(None),
        TokenType::AddAssign => Some(Some(BinaryOp::Add)),
        TokenType::SubAssign => Some(Some(BinaryOp::Sub)),
        TokenType::MulAssign => Some(Some(BinaryOp::Mul)),
        TokenType::DivAssign => Some(Some(BinaryOp::Div)),
        TokenType::ModAssign => Some(Some(BinaryOp::Mod)),
        TokenType::PowAssign => Some(Some(BinaryOp::Pow)),
        TokenType::BinaryAndAssign => Some(Some(BinaryOp::BinaryAnd)),
        TokenType::BinaryOrAssign => Some(Some(BinaryOp::BinaryOr)),
        TokenType::BinaryXorAssign => Some(Some(BinaryOp::BinaryXor)),
        TokenType::BinaryShlAssign => Some(Some(BinaryOp::BinaryShl)),
        TokenType::BinaryShrAssign => Some(Some(BinaryOp::BinaryShr)),
        _ => None,
    }
}

/// The binary operator that a token is at a level of precedence. The levels
/// run from the loosest, 0, to the tightest, 9: logical or, logical and,
/// bitwise or, bitwise xor, bitwise and, equality, relational, shift,
/// additive, multiplicative.
pub open spec fn binary_op(level: int, token_type: TokenType) -> Option<BinaryOp> {
    if level == 0 {
        match token_type {
            TokenType::BoolOr => Some(BinaryOp::BoolOr),
            _ => None,
        }
    } else if level == 1 {
        match token_type {
            TokenType::BoolAnd => Some(BinaryOp::BoolAnd),
            _ => None,
        }
    } else if level == 2 {
        match token_type {
            TokenType::BinaryOr => Some(BinaryOp::BinaryOr),
            _ => None,
        }
    } else if level == 3 {
        match token_type {
            TokenType::BinaryXor => Some(BinaryOp::BinaryXor),
            _ => None,
        }
    } else if level == 4 {
        match token_type {
            TokenType::BinaryAnd => Some(BinaryOp::BinaryAnd),
            _ => None,
        }
    } else if level == 5 {
        match token_type {
            TokenType::Eq => Some(BinaryOp::Eq),
            TokenType::NotEq => Some(BinaryOp::NotEq),
            _ => None,
        }
    } else if level == 6 {
        match token_type {
            TokenType::Less => Some(BinaryOp::Less),
            TokenType::LessEq => Some(BinaryOp::LessEq),
            TokenType::Greater => Some(BinaryOp::Greater),
            TokenType::GreaterEq => Some(BinaryOp::GreaterEq),
            _ => None,
        }
    } else if level == 7 {
        match token_type {
            TokenType::BinaryShl => Some(BinaryOp::BinaryShl),
            TokenType::BinaryShr => Some(BinaryOp::BinaryShr),
            _ => None,
        }
    } else if level == 8 {
        match token_type {
            TokenType::Add => Some(BinaryOp::Add),
            TokenType::Sub => Some(BinaryOp::Sub),
            _ => None,
        }
    } else if level == 9 {
        match token_type {
            TokenType::Mul => Some(BinaryOp::Mul),
            TokenType::Div => Some(BinaryOp::Div),
            TokenType::Mod => Some(BinaryOp::Mod),
            _ => None,
        }
    } else {
        None
    }
}

pub open spec fn unary_op(token_type: TokenType) -> Option<UnaryOp> {
    match token_type {
        TokenType::Add => Some(UnaryOp::Plus),
        TokenType::Sub => Some(UnaryOp::Minus),
        TokenType::BinaryNot => Some(UnaryOp::Invert),
        TokenType::BoolNot => Some(UnaryOp::Not),
        _ => None,
    }
}

/// Whether an expression can stand on the left of an assignment: an
/// identifier path, a member access or an index.
pub open spec fn is_assignable(tree: Tree) -> bool {
    tree.kind is IdentifierPath || tree.kind is MemberAccess || tree.kind is Index
}

/// The node of a binary operation over two operands.
pub open spec fn binary_node(left: Tree, op: BinaryOp, right: Tree) -> Tree {
    Tree::node(NodeKind::Binary(op), left.span.cover(right.span), seq![left, right])
}

/// `expr ::= assignment`
pub open spec fn expr(input: Seq<u8>, pos: int) -> Parsed
    decreases input.len() - pos, 40int,
{
    assignment(input, pos)
}

/// `assignment ::= binary(0) ( assignment_operator assignment )?`
///
/// Assignment associates to the right. Its left side must be assignable.
pub open spec fn assignment(input: Seq<u8>, pos: int) -> Parsed
    decreases input.len() - pos, 39int,
{
    let left = binary(input, pos, 0);
    if !left.advanced(input, pos) {
        left
    } else {
        match current(input, left.next) {
            Err(error) => Parsed::fail(error, left.next),
            Ok(token) => match assignment_op(token.token_type) {
                None => left,
                Some(op) => if !is_assignable(left.tree()) {
                    Parsed::fail(
                        syntax_error(Expected::AssignmentTarget, left.tree().span),
                        left.next,
                    )
                } else if !ahead(input, left.next) {
                    left
                } else {
                    let right = assignment(input, advance(input, left.next));
                    if !right.advanced(input, left.next) {
                        right
                    } else {
                        Parsed::done(
                            Tree::node(
                                NodeKind::Assignment(op),
                                left.tree().span.cover(right.tree().span),
                                seq![left.tree(), right.tree()],
                            ),
                            right.next,
                        )
                    }
                },
            },
        }
    }
}

/// The level of precedence nearest to `level` among those there are.
pub open spec fn clamp_level(level: int) -> int {
    if level < 0 {
        0
    } else if level > 9 {
        9
    } else {
        level
    }
}

/// An operand of the binary operators of a level: an operation of the next
/// tighter level, or a unary expression at the tightest.
pub open spec fn operand(input: Seq<u8>, pos: int, level: int) -> Parsed
    decreases input.len() - pos, 37 - 2 * clamp_level(level),
{
    if 0 <= level < 9 {
        binary(input, pos, level + 1)
    } else {
        unary(input, pos)
    }
}

/// `binary(level) ::= operand(level) ( operator(level) operand(level) )*`
///
/// The operators of one level associate to the left.
pub open spec fn binary(input: Seq<u8>, pos: int, level: int) -> Parsed
    decreases input.len() - pos, 38 - 2 * clamp_level(level),
{
    if 0 <= level <= 9 {
        let first = operand(input, pos, level);
        if !first.advanced(input, pos) {
            first
        } else {
            binary_tail(input, first.next, level, first.tree())
        }
    } else {
        unary(input, pos)
    }
}

/// The rest of a run of binary operations of one level, of which `left` has been read.
pub open spec fn binary_tail(input: Seq<u8>, pos: int, level: int, left: Tree) -> Parsed
    decreases input.len() - pos, 0int,
{
    match current(input, pos) {
        Err(error) => Parsed::fail(error, pos),
        Ok(token) => match binary_op(level, token.token_type) {
            None => Parsed::done(left, pos),
            Some(op) => if !ahead(input, pos) {
                Parsed::done(left, pos)
            } else {
                let right = operand(input, advance(input, pos), level);
                if !right.advanced(input, pos) {
                    right
                } else {
                    binary_tail(input, right.next, level, binary_node(left, op, right.tree()))
                }
            },
        },
    }
}

/// `unary ::= ( '+' | '-' | '~' | '!' ) unary | power`
pub open spec fn unary(input: Seq<u8>, pos: int) -> Parsed
    decreases input.len() - pos, 18int,
{
    match current(input, pos) {
        Err(error) => Parsed::fail(error, pos),
        Ok(token) => match unary_op(token.token_type) {
            None => power(input, pos),
            Some(op) => if !ahead(input, pos) {
                power(input, pos)
            } else {
                let value = unary(input, advance(input, pos));
                if !value.advanced(input, pos) {
                    value
                } else {
                    Parsed::done(
                        Tree::node(
                            NodeKind::Unary(op),
                            token.span.cover(value.tree().span),
                            seq![value.tree()],
                        ),
                        value.next,
                    )
                }
            },
        },
    }
}

/// `power ::= primary ( '**' power )?`
///
/// Exponentiation associates to the right.
pub open spec fn power(input: Seq<u8>, pos: int) -> Parsed
    decreases input.len() - pos, 17int,
{
    let left = primary(input, pos);
    if !left.advanced(input, pos) {
        left
    } else {
        match current(input, left.next) {
            Err(error) => Parsed::fail(error, left.next),
            Ok(token) => if token.token_type == TokenType::Pow && ahead(input, left.next) {
                let right = power(input, advance(input, left.next));
                if !right.advanced(input, left.next) {
                    right
                } else {
                    Parsed::done(binary_node(left.tree(), BinaryOp::Pow, right.tree()), right.next)
                }
            } else {
                left
            },
        }
    }
}

/// `primary ::= atom ( '.' identifier | '[' expr ']' | '(' arguments ')' )*`
pub open spec fn primary(input: Seq<u8>, pos: int) -> Parsed
    decreases input.len() - pos, 16int,
{
    let first = atom(input, pos);
    if !first.advanced(input, pos) {
        first
    } else {
        postfix_tail(input, first.next, first.tree())
    }
}

/// `member_access ::= '.' identifier`, behind the expression `owner`.
pub open spec fn member_access(input: Seq<u8>, pos: int, owner: Tree) -> Parsed {
    if !ahead(input, pos) {
        Parsed::done(owner, pos)
    } else {
        let member = identifier(input, advance(input, pos));
        if !member.advanced(input, pos) {
            member
        } else {
            Parsed::done(
                Tree::node(
                    NodeKind::MemberAccess,
                    owner.span.cover(member.tree().span),
                    seq![owner, member.tree()],
                ),
                member.next,
            )
        }
    }
}

/// `index ::= '[' expr ']'`, behind the expression `owner`.
pub open spec fn index(input: Seq<u8>, pos: int, owner: Tree) -> Parsed
    decreases input.len() - pos, 0int,
{
    if !ahead(input, pos) {
        Parsed::done(owner, pos)
    } else {
        let index = expr(input, advance(input, pos));
        if !index.advanced(input, pos) {
            index
        } else {
            let close = eat(input, index.next, TokenType::RightBracket, Expected::RightBracket);
            if !close.advanced(input, pos) {
                close.failure()
            } else {
                Parsed::done(
                    Tree::node(
                        NodeKind::Index,
                        owner.span.cover(close.span()),
                        seq![owner, index.tree()],
                    ),
                    close.next,
                )
            }
        }
    }
}

/// `function_call ::= '(' arguments ')'`, behind the expression `owner`.
/// The argument list spans the parentheses and what is between them.
pub open spec fn function_call(input: Seq<u8>, pos: int, owner: Tree) -> Parsed
    decreases input.len() - pos, 0int,
{
    if !ahead(input, pos) {
        Parsed::done(owner, pos)
    } else {
        let list = arguments(input, advance(input, pos), Seq::empty());
        if !list.advanced(input, pos) {
            list
        } else {
            let close = eat(input, list.next, TokenType::RightParen, Expected::RightParen);
            if !close.advanced(input, pos) {
                close.failure()
            } else {
                Parsed::done(
                    Tree::node(
                        NodeKind::FunctionCall,
                        owner.span.cover(close.span()),
                        seq![
                            owner,
                            Tree::node(
                                NodeKind::Arguments,
                                current_span(input, pos).cover(close.span()),
                                list.tree().children,
                            ),
                        ],
                    ),
                    close.next,
                )
            }
        }
    }
}

/// The rest of a chain of postfix operations, of which `owner` has been read.
/// Each operation widens the span of the node to its own end.
pub open spec fn postfix_tail(input: Seq<u8>, pos: int, owner: Tree) -> Parsed
    decreases input.len() - pos, 1int,
{
    match current(input, pos) {
        Err(error) => Parsed::fail(error, pos),
        Ok(token) => {
            let step = match token.token_type {
                TokenType::Period => Some(member_access(input, pos, owner)),
                TokenType::LeftBracket => Some(index(input, pos, owner)),
                TokenType::LeftParen => Some(function_call(input, pos, owner)),
                _ => None,
            };
            match step {
                None => Parsed::done(owner, pos),
                Some(step) => if !step.advanced(input, pos) {
                    step
                } else {
                    postfix_tail(input, step.next, step.tree())
                },
            }
        },
    }
}

/// `arguments ::= ( expr ( ',' expr )* ','? )?`, up to the closing
/// parenthesis, which is left in place. `read` holds the arguments read so
/// far; the result holds all of them as its children, and has no span yet.
pub open spec fn arguments(input: Seq<u8>, pos: int, read: Seq<Tree>) -> Parsed
    decreases input.len() - pos, 41int,
{
    match current(input, pos) {
        Err(error) => Parsed::fail(error, pos),
        Ok(token) => if token.token_type == TokenType::RightParen {
            Parsed::done(Tree::node(NodeKind::Arguments, Span::unset(), read), pos)
        } else {
            let argument = expr(input, pos);
            if !argument.advanced(input, pos) {
                argument
            } else {
                match current(input, argument.next) {
                    Err(error) => Parsed::fail(error, argument.next),
                    Ok(after) => if after.token_type == TokenType::Comma && ahead(
                        input,
                        argument.next,
                    ) {
                        arguments(input, advance(input, argument.next), read.push(argument.tree()))
                    } else {
                        Parsed::done(
                            Tree::node(
                                NodeKind::Arguments,
                                Span::unset(),
                                read.push(argument.tree()),
                            ),
                            argument.next,
                        )
                    },
                }
            }
        },
    }
}

/// The trees of the arguments that were read, in a list without a span.
pub open spec fn unspanned_arguments(result: Result<Seq<Tree>, ParseError>, next: int) -> Parsed {
    Parsed {
        result: match result {
            Ok(trees) => Ok(Tree::node(NodeKind::Arguments, Span::unset(), trees)),
            Err(error) => Err(error),
        },
        next,
    }
}

/// `atom ::= '(' expr ')' | 'true' | 'false' | INT | FLOAT | STRING | identifier_path`
///
/// An expression in parentheses keeps its own span.
pub open spec fn atom(input: Seq<u8>, pos: int) -> Parsed
    decreases input.len() - pos, 14int,
{
    match current(input, pos) {
        Err(error) => Parsed::fail(error, pos),
        Ok(token) => match token.token_type {
            TokenType::LeftParen => if !ahead(input, pos) {
                Parsed::fail(syntax_error(Expected::Atom, token.span), pos)
            } else {
                let inner = expr(input, advance(input, pos));
                if !inner.advanced(input, pos) {
                    inner
                } else {
                    let close = eat(input, inner.next, TokenType::RightParen, Expected::RightParen);
                    if !close.advanced(input, pos) {
                        close.failure()
                    } else {
                        Parsed::done(inner.tree(), close.next)
                    }
                }
            },
            TokenType::Identifier => identifier_path(input, pos),
            TokenType::True => Parsed::done(
                Tree::leaf(NodeKind::Bool(true), token.span),
                advance(input, pos),
            ),
            TokenType::False => Parsed::done(
                Tree::leaf(NodeKind::Bool(false), token.span),
                advance(input, pos),
            ),
            TokenType::IntLit(value) => Parsed::done(
                Tree::leaf(NodeKind::Int(value), token.span),
                advance(input, pos),
            ),
            TokenType::FloatLit(width) => Parsed::done(
                Tree::leaf(NodeKind::Float(width, token.text), token.span),
                advance(input, pos),
            ),
            TokenType::StringLit => Parsed::done(
                Tree::leaf(NodeKind::String(token.text), token.span),
                advance(input, pos),
            ),
            _ => Parsed::fail(syntax_error(Expected::Atom, token.span), pos),
        },
    }
}

} // verus!
