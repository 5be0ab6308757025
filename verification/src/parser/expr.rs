//! Expressions, by precedence climbing: one rule per level, the loosest first.

use crate::ast::expr::{
    expr_trees, AssignmentExpr, BinaryExpr, BinaryOp, Expr, FloatLit, FunctionCallExpr, IndexExpr,
    MemberAccessExpr, UnaryExpr, UnaryOp,
};
use crate::ast::tree::{spanned_tree, Tree};
use crate::lexer::token::TokenType;
use crate::parser::cursor::Parser;
use crate::parser::error::{Expected, ParseError, ParserError, ParserResult};
use crate::parser::grammar::{
    arguments, assignment, assignment_op, atom, binary, binary_op, binary_tail, current, expr,
    function_call, index, is_assignable, member_access, operand, postfix_tail, power, primary,
    unary, unary_op, unspanned_arguments,
};
use crate::span::Spanned;
use vstd::prelude::*;

verus! {

/// The operator of a compound assignment that a token is, `None` for the
/// plain assignment; the outer `None` for a token that is no assignment operator.
pub fn assignment_op_of(token_type: TokenType) -> (op: Option<Option<BinaryOp>>)
    ensures
        op == assignment_op(token_type),
{
    match token_type {
        TokenType::Assign => Some(None),
        TokenType::AddAssign => Some(Some(BinaryOp::Add)),
        TokenType::SubAssign => Some(Some(BinaryOp::Sub)),
        TokenType::MulAssign => Some(Some(BinaryOp::Mul)),
        TokenType::DivAssign => Some(Some(BinaryOp::Div)),
        TokenType::ModAssign => Some(Some(BinaryOp::Mod)),
        TokenType::PowAssign => Some(Some(BinaryOp::Pow)),
        TokenType::BinaryAndAssign => Some(Some(BinaryOp::BinaryAnd)),
        TokenType::BinaryOrAssign => Some(Some(BinaryOp::BinaryOr)),
        TokenType::BinaryXorAssign => Some(Some(BinaryOp::BinaryXor)),
        TokenType::BinaryShlAssign => Some(Some(BinaryOp::BinaryShl)),
        TokenType::BinaryShrAssign => Some(Some(BinaryOp::BinaryShr)),
        _ => None,
    }
}

/// The binary operator that a token is at a level of precedence.
pub fn binary_op_of(level: u8, token_type: TokenType) -> (op: Option<BinaryOp>)
    ensures
        op == binary_op(level as int, token_type),
{
    if level == 0 {
        match token_type {
            TokenType::BoolOr => Some(BinaryOp::BoolOr),
            _ => None,
        }
    } else if level == 1 {
        match token_type {
            TokenType::BoolAnd => Some(BinaryOp::BoolAnd),
            _ => None,
        }
    } else if level == 2 {
        match token_type {
            TokenType::BinaryOr => Some(BinaryOp::BinaryOr),
            _ => None,
        }
    } else if level == 3 {
        match token_type {
            TokenType::BinaryXor => Some(BinaryOp::BinaryXor),
            _ => None,
        }
    } else if level == 4 {
        match token_type {
            TokenType::BinaryAnd => Some(BinaryOp::BinaryAnd),
            _ => None,
        }
    } else if level == 5 {
        match token_type {
            TokenType::Eq => Some(BinaryOp::Eq),
            TokenType::NotEq => Some(BinaryOp::NotEq),
            _ => None,
        }
    } else if level == 6 {
        match token_type {
            TokenType::Less => Some(BinaryOp::Less),
            TokenType::LessEq => Some(BinaryOp::LessEq),
            TokenType::Greater => Some(BinaryOp::Greater),
            TokenType::GreaterEq => Some(BinaryOp::GreaterEq),
            _ => None,
        }
    } else if level == 7 {
        match token_type {
            TokenType::BinaryShl => Some(BinaryOp::BinaryShl),
            TokenType::BinaryShr => Some(BinaryOp::BinaryShr),
            _ => None,
        }
    } else if level == 8 {
        match token_type {
            TokenType::Add => Some(BinaryOp::Add),
            TokenType::Sub => Some(BinaryOp::Sub),
            _ => None,
        }
    } else if level == 9 {
        match token_type {
            TokenType::Mul => Some(BinaryOp::Mul),
            TokenType::Div => Some(BinaryOp::Div),
            TokenType::Mod => Some(BinaryOp::Mod),
            _ => None,
        }
    } else {
        None
    }
}

pub fn unary_op_of(token_type: TokenType) -> (op: Option<UnaryOp>)
    ensures
        op == unary_op(token_type),
{
    match token_type {
        TokenType::Add => Some(UnaryOp::Plus),
        TokenType::Sub => Some(UnaryOp::Minus),
        TokenType::BinaryNot => Some(UnaryOp::Invert),
        TokenType::BoolNot => Some(UnaryOp::Not),
        _ => None,
    }
}

/// The trees of the arguments that a parse handed out.
pub open spec fn argument_trees(result: Result<Vec<Spanned<Expr>>, ParseError>) -> Result<
    Seq<Tree>,
    ParseError,
> {
    match result {
        Ok(list) => Ok(expr_trees(list@)),
        Err(error) => Err(error),
    }
}

/// Whether an expression can stand on the left of an assignment.
pub fn expr_is_assignable(expr: &Spanned<Expr>) -> (assignable: bool)
    ensures
        assignable == is_assignable(spanned_tree(*expr)),
{
    match &expr.value {
        Expr::IdentifierPath(_) => true,
        Expr::MemberAccess(_) => true,
        Expr::Index(_) => true,
        _ => false,
    }
}

impl<'src> Parser<'src> {
    /// `expr ::= assignment`
    pub fn parse_expr(&mut self) -> (result: ParserResult<Expr>)
        requires
            old(self).wf(),
        ensures
            final(self).follows(*old(self), result, expr(old(self).source(), old(self).position())),
        decreases old(self).source().len() - old(self).position(), 40int,
    {
        self.parse_assignment_expr()
    }

    /// `assignment ::= binary(0) ( assignment_operator assignment )?`
    pub fn parse_assignment_expr(&mut self) -> (result: ParserResult<Expr>)
        requires
            old(self).wf(),
        ensures
            final(self).follows(
                *old(self),
                result,
                assignment(old(self).source(), old(self).position()),
            ),
        decreases old(self).source().len() - old(self).position(), 39int,
    {
        let lvalue = match self.parse_binary_op_left_assoc(0) {
            Ok(lvalue) => lvalue,
            Err(error) => {
                return Err(error);
            },
        };
        let token_type = match self.token_type() {
            Ok(token_type) => token_type,
            Err(error) => {
                return Err(error);
            },
        };
        let op = match assignment_op_of(token_type) {
            Some(op) => op,
            None => {
                return Ok(lvalue);
            },
        };
        if !expr_is_assignable(&lvalue) {
            return Err(
                Spanned {
                    value: ParserError::SyntaxError(Expected::AssignmentTarget),
                    span: lvalue.span,
                },
            );
        }
        self.advance();
        let rvalue = match self.parse_assignment_expr() {
            Ok(rvalue) => rvalue,
            Err(error) => {
                return Err(error);
            },
        };
        let span = lvalue.span.to(rvalue.span);
        Ok(Spanned { value: Expr::Assignment(Box::new(AssignmentExpr { lvalue, op, rvalue })), span })
    }

    /// An operand of the binary operators of a level.
    fn parse_operand(&mut self, level: u8) -> (result: ParserResult<Expr>)
        requires
            old(self).wf(),
            level <= 9,
        ensures
            final(self).follows(
                *old(self),
                result,
                operand(old(self).source(), old(self).position(), level as int),
            ),
        decreases old(self).source().len() - old(self).position(), 37 - 2 * level,
    {
        if level < 9 {
            self.parse_binary_op_left_assoc(level + 1)
        } else {
            self.parse_unary_expr()
        }
    }

    /// `binary(level) ::= operand(level) ( operator(level) operand(level) )*`
    ///
    /// The operators of one level associate to the left.
    pub fn parse_binary_op_left_assoc(&mut self, level: u8) -> (result: ParserResult<Expr>)
        requires
            old(self).wf(),
            level <= 9,
        ensures
            final(self).follows(
                *old(self),
                result,
                binary(old(self).source(), old(self).position(), level as int),
            ),
        decreases old(self).source().len() - old(self).position(), 38 - 2 * level,
    {
        let ghost input = self.source();
        let ghost start = self.position();
        proof {
            self.lemma_bounds();
        }
        let mut left = match self.parse_operand(level) {
            Ok(left) => left,
            Err(error) => {
                return Err(error);
            },
        };
        loop
            invariant
                self.wf(),
                level <= 9,
                input == old(self).source(),
                start == old(self).position(),
                self.source() == input,
                0 <= start < self.position() <= input.len(),
                binary(input, start, level as int) == binary_tail(
                    input,
                    self.position(),
                    level as int,
                    spanned_tree(left),
                ),
            decreases input.len() - self.position(),
        {
            let token_type = match self.token_type() {
                Ok(token_type) => token_type,
                Err(error) => {
                    return Err(error);
                },
            };
            let op = match binary_op_of(level, token_type) {
                Some(op) => op,
                None => {
                    return Ok(left);
                },
            };
            self.advance();
            let right = match self.parse_operand(level) {
                Ok(right) => right,
                Err(error) => {
                    return Err(error);
                },
            };
            let span = left.span.to(right.span);
            left = Spanned { value: Expr::Binary(Box::new(BinaryExpr { left, op, right })), span };
        }
    }

    /// `bool_or ::= bool_and ( '||' bool_and )*`
    pub fn parse_bool_or_expr(&mut self) -> (result: ParserResult<Expr>)
        requires
            old(self).wf(),
        ensures
            final(self).follows(
                *old(self),
                result,
                binary(old(self).source(), old(self).position(), 0),
            ),
    {
        self.parse_binary_op_left_assoc(0)
    }

    /// `bool_and ::= binary_or ( '&&' binary_or )*`
    pub fn parse_bool_and_expr(&mut self) -> (result: ParserResult<Expr>)
        requires
            old(self).wf(),
        ensures
            final(self).follows(
                *old(self),
                result,
                binary(old(self).source(), old(self).position(), 1),
            ),
    {
        self.parse_binary_op_left_assoc(1)
    }

    /// `binary_or ::= binary_xor ( '|' binary_xor )*`
    pub fn parse_binary_or_expr(&mut self) -> (result: ParserResult<Expr>)
        requires
            old(self).wf(),
        ensures
            final(self).follows(
                *old(self),
                result,
                binary(old(self).source(), old(self).position(), 2),
            ),
    {
        self.parse_binary_op_left_assoc(2)
    }

    /// `binary_xor ::= binary_and ( '^' binary_and )*`
    pub fn parse_binary_xor_expr(&mut self) -> (result: ParserResult<Expr>)
        requires
            old(self).wf(),
        ensures
            final(self).follows(
                *old(self),
                result,
                binary(old(self).source(), old(self).position(), 3),
            ),
    {
        self.parse_binary_op_left_assoc(3)
    }

    /// `binary_and ::= equality ( '&' equality )*`
    pub fn parse_binary_and_expr(&mut self) -> (result: ParserResult<Expr>)
        requires
            old(self).wf(),
        ensures
            final(self).follows(
                *old(self),
                result,
                binary(old(self).source(), old(self).position(), 4),
            ),
    {
        self.parse_binary_op_left_assoc(4)
    }

    /// `equality ::= compare ( ( '==' | '!=' ) compare )*`
    pub fn parse_equality_expr(&mut self) -> (result: ParserResult<Expr>)
        requires
            old(self).wf(),
        ensures
            final(self).follows(
                *old(self),
                result,
                binary(old(self).source(), old(self).position(), 5),
            ),
    {
        self.parse_binary_op_left_assoc(5)
    }

    /// `compare ::= binary_shift ( ( '<' | '<=' | '>' | '>=' ) binary_shift )*`
    pub fn parse_compare_expr(&mut self) -> (result: ParserResult<Expr>)
        requires
            old(self).wf(),
        ensures
            final(self).follows(
                *old(self),
                result,
                binary(old(self).source(), old(self).position(), 6),
            ),
    {
        self.parse_binary_op_left_assoc(6)
    }

    /// `binary_shift ::= sum ( ( '<<' | '>>' ) sum )*`
    pub fn parse_binary_shift_expr(&mut self) -> (result: ParserResult<Expr>)
        requires
            old(self).wf(),
        ensures
            final(self).follows(
                *old(self),
                result,
                binary(old(self).source(), old(self).position(), 7),
            ),
    {
        self.parse_binary_op_left_assoc(7)
    }

    /// `sum ::= factor ( ( '+' | '-' ) factor )*`
    pub fn parse_sum_expr(&mut self) -> (result: ParserResult<Expr>)
        requires
            old(self).wf(),
        ensures
            final(self).follows(
                *old(self),
                result,
                binary(old(self).source(), old(self).position(), 8),
            ),
    {
        self.parse_binary_op_left_assoc(8)
    }

    /// `factor ::= unary ( ( '*' | '/' | '%' ) unary )*`
    pub fn parse_factor_expr(&mut self) -> (result: ParserResult<Expr>)
        requires
            old(self).wf(),
        ensures
            final(self).follows(
                *old(self),
                result,
                binary(old(self).source(), old(self).position(), 9),
            ),
    {
        self.parse_binary_op_left_assoc(9)
    }

    /// `unary ::= ( '+' | '-' | '~' | '!' ) unary | power`
    pub fn parse_unary_expr(&mut self) -> (result: ParserResult<Expr>)
        requires
            old(self).wf(),
        ensures
            final(self).follows(*old(self), result, unary(old(self).source(), old(self).position())),
        decreases old(self).source().len() - old(self).position(), 18int,
    {
        let first = self.span();
        let token_type = match self.token_type() {
            Ok(token_type) => token_type,
            Err(error) => {
                return Err(error);
            },
        };
        let op = match unary_op_of(token_type) {
            Some(op) => op,
            None => {
                return self.parse_pow_expr();
            },
        };
        self.advance();
        let value = match self.parse_unary_expr() {
            Ok(value) => value,
            Err(error) => {
                return Err(error);
            },
        };
        let span = first.to(value.span);
        Ok(Spanned { value: Expr::Unary(Box::new(UnaryExpr { op, value })), span })
    }

    /// `power ::= primary ( '**' power )?`
    pub fn parse_pow_expr(&mut self) -> (result: ParserResult<Expr>)
        requires
            old(self).wf(),
        ensures
            final(self).follows(*old(self), result, power(old(self).source(), old(self).position())),
        decreases old(self).source().len() - old(self).position(), 17int,
    {
        let left = match self.parse_primary_expr() {
            Ok(left) => left,
            Err(error) => {
                return Err(error);
            },
        };
        match self.token_type() {
            Err(error) => Err(error),
            Ok(TokenType::Pow) => {
                self.advance();
                let right = match self.parse_pow_expr() {
                    Ok(right) => right,
                    Err(error) => {
                        return Err(error);
                    },
                };
                let span = left.span.to(right.span);
                Ok(
                    Spanned {
                        value: Expr::Binary(Box::new(BinaryExpr { left, op: BinaryOp::Pow, right })),
                        span,
                    },
                )
            },
            Ok(_) => Ok(left),
        }
    }

    /// `primary ::= atom ( '.' identifier | '[' expr ']' | '(' arguments ')' )*`
    pub fn parse_primary_expr(&mut self) -> (result: ParserResult<Expr>)
        requires
            old(self).wf(),
        ensures
            final(self).follows(
                *old(self),
                result,
                primary(old(self).source(), old(self).position()),
            ),
        decreases old(self).source().len() - old(self).position(), 16int,
    {
        let ghost input = self.source();
        let ghost start = self.position();
        proof {
            self.lemma_bounds();
        }
        let mut owner = match self.parse_atom() {
            Ok(owner) => owner,
            Err(error) => {
                return Err(error);
            },
        };
        loop
            invariant
                self.wf(),
                input == old(self).source(),
                start == old(self).position(),
                self.source() == input,
                0 <= start < self.position() <= input.len(),
                primary(input, start) == postfix_tail(input, self.position(), spanned_tree(owner)),
            decreases input.len() - self.position(),
        {
            let token_type = match self.token_type() {
                Ok(token_type) => token_type,
                Err(error) => {
                    return Err(error);
                },
            };
            let step = match token_type {
                TokenType::Period => self.parse_member_access_expr(owner),
                TokenType::LeftBracket => self.parse_index_expr(owner),
                TokenType::LeftParen => self.parse_function_call(owner),
                _ => {
                    return Ok(owner);
                },
            };
            owner =
            match step {
                Ok(next) => next,
                Err(error) => {
                    return Err(error);
                },
            };
        }
    }

    /// `member_access ::= '.' identifier`, behind the expression `owner`.
    fn parse_member_access_expr(&mut self, owner: Spanned<Expr>) -> (result: ParserResult<Expr>)
        requires
            old(self).wf(),
            current(old(self).source(), old(self).position()) matches Ok(token)
                && token.token_type == TokenType::Period,
        ensures
            final(self).follows(
                *old(self),
                result,
                member_access(old(self).source(), old(self).position(), spanned_tree(owner)),
            ),
    {
        self.advance();
        let member = match self.parse_identifier() {
            Ok(member) => member,
            Err(error) => {
                return Err(error);
            },
        };
        let span = owner.span.to(member.span);
        Ok(Spanned { value: Expr::MemberAccess(Box::new(MemberAccessExpr { owner, member })), span })
    }

    /// `index ::= '[' expr ']'`, behind the expression `owner`.
    fn parse_index_expr(&mut self, owner: Spanned<Expr>) -> (result: ParserResult<Expr>)
        requires
            old(self).wf(),
            current(old(self).source(), old(self).position()) matches Ok(token)
                && token.token_type == TokenType::LeftBracket,
        ensures
            final(self).follows(
                *old(self),
                result,
                index(old(self).source(), old(self).position(), spanned_tree(owner)),
            ),
        decreases old(self).source().len() - old(self).position(), 0int,
    {
        self.advance();
        let index = match self.parse_expr() {
            Ok(index) => index,
            Err(error) => {
                return Err(error);
            },
        };
        let close = match self.eat(TokenType::RightBracket, Expected::RightBracket) {
            Ok(close) => close,
            Err(error) => {
                return Err(error);
            },
        };
        let span = owner.span.to(close);
        Ok(Spanned { value: Expr::Index(Box::new(IndexExpr { owner, index })), span })
    }

    /// `function_call ::= '(' arguments ')'`, behind the expression `owner`.
    fn parse_function_call(&mut self, owner: Spanned<Expr>) -> (result: ParserResult<Expr>)
        requires
            old(self).wf(),
            current(old(self).source(), old(self).position()) matches Ok(token)
                && token.token_type == TokenType::LeftParen,
        ensures
            final(self).follows(
                *old(self),
                result,
                function_call(old(self).source(), old(self).position(), spanned_tree(owner)),
            ),
        decreases old(self).source().len() - old(self).position(), 0int,
    {
        let open = self.span();
        self.advance();
        let list = match self.parse_arguments() {
            Ok(list) => list,
            Err(error) => {
                return Err(error);
            },
        };
        let close = match self.eat(TokenType::RightParen, Expected::RightParen) {
            Ok(close) => close,
            Err(error) => {
                return Err(error);
            },
        };
        let span = owner.span.to(close);
        let arguments = Spanned { value: list, span: open.to(close) };
        Ok(
            Spanned {
                value: Expr::FunctionCall(Box::new(FunctionCallExpr { identity: owner, arguments })),
                span,
            },
        )
    }

    /// `arguments ::= ( expr ( ',' expr )* ','? )?`, up to the closing
    /// parenthesis, which is left in place.
    fn parse_arguments(&mut self) -> (result: Result<Vec<Spanned<Expr>>, ParseError>)
        requires
            old(self).wf(),
        ensures
            final(self).wf(),
            final(self).source() == old(self).source(),
            old(self).position() <= final(self).position() <= old(self).source().len(),
            arguments(old(self).source(), old(self).position(), Seq::empty())
                == unspanned_arguments(argument_trees(result), final(self).position()),
        decreases old(self).source().len() - old(self).position(), 41int,
    {
        let ghost input = self.source();
        let ghost start = self.position();
        proof {
            self.lemma_bounds();
        }
        let mut list: Vec<Spanned<Expr>> = Vec::new();
        loop
            invariant
                self.wf(),
                input == old(self).source(),
                start == old(self).position(),
                self.source() == input,
                0 <= start <= self.position() <= input.len(),
                arguments(input, start, Seq::empty()) == arguments(
                    input,
                    self.position(),
                    expr_trees(list@),
                ),
            decreases input.len() - self.position(),
        {
            let ghost before = list@;
            match self.token_type() {
                Err(error) => {
                    return Err(error);
                },
                Ok(TokenType::RightParen) => {
                    return Ok(list);
                },
                Ok(_) => {},
            }
            let argument = match self.parse_expr() {
                Ok(argument) => argument,
                Err(error) => {
                    return Err(error);
                },
            };
            list.push(argument);
            assert(list@.drop_last() == before);
            match self.token_type() {
                Err(error) => {
                    return Err(error);
                },
                Ok(TokenType::Comma) => {
                    self.advance();
                },
                Ok(_) => {
                    return Ok(list);
                },
            }
        }
    }

    /// `atom ::= '(' expr ')' | 'true' | 'false' | INT | FLOAT | STRING | identifier_path`
    pub fn parse_atom(&mut self) -> (result: ParserResult<Expr>)
        requires
            old(self).wf(),
        ensures
            final(self).follows(*old(self), result, atom(old(self).source(), old(self).position())),
        decreases old(self).source().len() - old(self).position(), 14int,
    {
        let span = self.span();
        let token_type = match self.token_type() {
            Ok(token_type) => token_type,
            Err(error) => {
                return Err(error);
            },
        };
        match token_type {
            TokenType::LeftParen => {
                self.advance();
                let inner = match self.parse_expr() {
                    Ok(inner) => inner,
                    Err(error) => {
                        return Err(error);
                    },
                };
                match self.eat(TokenType::RightParen, Expected::RightParen) {
                    Ok(_) => Ok(inner),
                    Err(error) => Err(error),
                }
            },
            TokenType::Identifier => {
                match self.parse_identifier_path() {
                    Ok(path) => Ok(
                        Spanned { value: Expr::IdentifierPath(Box::new(path.value)), span: path.span },
                    ),
                    Err(error) => Err(error),
                }
            },
            TokenType::True => {
                self.advance();
                Ok(Spanned { value: Expr::Bool(true), span })
            },
            TokenType::False => {
                self.advance();
                Ok(Spanned { value: Expr::Bool(false), span })
            },
            TokenType::IntLit(value) => {
                self.advance();
                Ok(Spanned { value: Expr::Int(value), span })
            },
            TokenType::FloatLit(width) => {
                let digits = self.text();
                self.advance();
                Ok(Spanned { value: Expr::Float(Box::new(FloatLit { width, digits })), span })
            },
            TokenType::StringLit => {
                let text = self.text();
                self.advance();
                Ok(Spanned { value: Expr::String(Box::new(text)), span })
            },
            _ => Err(Spanned { value: ParserError::SyntaxError(Expected::Atom), span }),
        }
    }
}

} // verus!
