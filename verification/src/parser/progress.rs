//! Every rule of the grammar moves forward: a rule that succeeds has
//! consumed at least one token, and no rule leaves the input. The tests
//! for progress in the definitions of the rules therefore never fail.

use crate::lexer::token::TokenType;
use crate::lexer::tokenizer::{is_eof, lemma_lex_span, lex};
use crate::parser::error::Expected;
use crate::parser::func::{
    extern_function, function, function_body, parameter, parameters, parameters_tail,
    return_type, signature, Signature,
};
use crate::parser::grammar::{
    advance, ahead, arguments, assignment, assignment_op, atom, binary, binary_op, binary_tail,
    current, eat, expr, function_call, identifier, identifier_path, index, lemma_ahead,
    member_access, operand, path_tail, postfix_tail, power, primary, unary, unary_op, Parsed,
};
use crate::parser::stmt::{
    block, block_tail, break_statement, closing, condition, continue_statement, empty_statement,
    expr_statement, if_statement, line, return_statement, statement, use_statement, var_decl,
    var_decl_value, while_statement,
};
use crate::parser::structs::{members_tail, struct_decl, struct_member};
use crate::parser::unit::{compilation_unit, unit_member, unit_tail, use_decl};
use crate::ast::tree::Tree;
use crate::span::Span;
use vstd::prelude::*;

verus! {

impl Parsed {
    /// The rule that started at `from` stayed inside the input, and moved
    /// forward if it succeeded.
    pub open spec fn moved(self, input: Seq<u8>, from: int) -> bool {
        from <= self.next <= input.len() && (self.result is Ok ==> from < self.next)
    }
}

/// A position in an input that a slice can hold.
pub open spec fn inside(input: Seq<u8>, pos: int) -> bool {
    0 <= pos <= input.len() <= usize::MAX
}

/// Taking a token stays inside the input, and moves forward unless the
/// token is the end of the input.
pub proof fn lemma_eat(input: Seq<u8>, pos: int, wanted: TokenType, expected: Expected)
    requires
        inside(input, pos),
    ensures
        pos <= eat(input, pos, wanted, expected).next <= input.len(),
        eat(input, pos, wanted, expected).result is Ok && wanted != TokenType::Eof ==> eat(
            input,
            pos,
            wanted,
            expected,
        ).advanced(input, pos),
{
    if eat(input, pos, wanted, expected).result is Ok {
        if wanted != TokenType::Eof {
            lemma_ahead(input, pos);
        } else {
            lemma_lex_span(input, pos);
            crate::parser::grammar::lemma_skip_comments(
                input,
                crate::lexer::tokenizer::lex_span(lex(input, pos)).end as int,
            );
        }
    }
}

/// Passing a token that the tokenizer handed out, of a type that is not the
/// end of the input, moves forward.
pub proof fn lemma_token_ahead(input: Seq<u8>, pos: int)
    requires
        inside(input, pos),
        current(input, pos) matches Ok(token) && token.token_type != TokenType::Eof,
    ensures
        ahead(input, pos),
{
    lemma_ahead(input, pos);
}

/// The rule `identifier` moves forward.
pub proof fn lemma_identifier(input: Seq<u8>, pos: int)
    requires
        inside(input, pos),
    ensures
        identifier(input, pos).moved(input, pos),
{
    if identifier(input, pos).result is Ok {
        lemma_ahead(input, pos);
    }
}

/// The rule `path_tail` moves forward.
pub proof fn lemma_path_tail(input: Seq<u8>, first: Span, qualifier: Seq<Tree>, pos: int)
    requires
        inside(input, pos),
    ensures
        path_tail(input, first, qualifier, pos).moved(input, pos),
    decreases input.len() - pos,
{
    lemma_identifier(input, pos);
    let name = identifier(input, pos);
    if name.advanced(input, pos) {
        if current(input, name.next) matches Ok(token) && token.token_type
            == TokenType::DoubleColon {
            lemma_token_ahead(input, name.next);
            lemma_path_tail(input, first, qualifier.push(name.tree()), advance(input, name.next));
        }
    }
}

/// The rule `identifier_path` moves forward.
pub proof fn lemma_identifier_path(input: Seq<u8>, pos: int)
    requires
        inside(input, pos),
    ensures
        identifier_path(input, pos).moved(input, pos),
{
    lemma_path_tail(input, crate::parser::grammar::current_span(input, pos), Seq::empty(), pos);
}

/// The rule `expr` moves forward.
pub proof fn lemma_expr(input: Seq<u8>, pos: int)
    requires
        inside(input, pos),
    ensures
        expr(input, pos).moved(input, pos),
    decreases input.len() - pos, 40int,
{
    lemma_assignment(input, pos);
}

/// The rule `assignment` moves forward.
pub proof fn lemma_assignment(input: Seq<u8>, pos: int)
    requires
        inside(input, pos),
    ensures
        assignment(input, pos).moved(input, pos),
    decreases input.len() - pos, 39int,
{
    lemma_binary(input, pos, 0);
    let left = binary(input, pos, 0);
    if left.advanced(input, pos) {
        if current(input, left.next) matches Ok(token) && assignment_op(token.token_type) is Some {
            lemma_token_ahead(input, left.next);
            lemma_assignment(input, advance(input, left.next));
        }
    }
}

/// The rule `operand` moves forward.
pub proof fn lemma_operand(input: Seq<u8>, pos: int, level: int)
    requires
        inside(input, pos),
    ensures
        operand(input, pos, level).moved(input, pos),
    decreases input.len() - pos, 37 - 2 * crate::parser::grammar::clamp_level(level),
{
    if 0 <= level < 9 {
        lemma_binary(input, pos, level + 1);
    } else {
        lemma_unary(input, pos);
    }
}

/// The rule `binary` moves forward.
pub proof fn lemma_binary(input: Seq<u8>, pos: int, level: int)
    requires
        inside(input, pos),
    ensures
        binary(input, pos, level).moved(input, pos),
    decreases input.len() - pos, 38 - 2 * crate::parser::grammar::clamp_level(level),
{
    if 0 <= level <= 9 {
        lemma_operand(input, pos, level);
        let first = operand(input, pos, level);
        if first.advanced(input, pos) {
            lemma_binary_tail(input, first.next, level, first.tree());
        }
    } else {
        lemma_unary(input, pos);
    }
}

/// What follows in `binary_tail` stays inside the input.
pub proof fn lemma_binary_tail(input: Seq<u8>, pos: int, level: int, left: Tree)
    requires
        inside(input, pos),
    ensures
        pos <= binary_tail(input, pos, level, left).next <= input.len(),
    decreases input.len() - pos, 0int,
{
    if current(input, pos) matches Ok(token) && binary_op(level, token.token_type) is Some {
        let op = binary_op(level, current(input, pos)->Ok_0.token_type)->0;
        lemma_token_ahead(input, pos);
        lemma_operand(input, advance(input, pos), level);
        let right = operand(input, advance(input, pos), level);
        if right.advanced(input, pos) {
            lemma_binary_tail(
                input,
                right.next,
                level,
                crate::parser::grammar::binary_node(left, op, right.tree()),
            );
        }
    }
}

/// The rule `unary` moves forward.
pub proof fn lemma_unary(input: Seq<u8>, pos: int)
    requires
        inside(input, pos),
    ensures
        unary(input, pos).moved(input, pos),
    decreases input.len() - pos, 18int,
{
    if current(input, pos) matches Ok(token) && unary_op(token.token_type) is Some {
        lemma_token_ahead(input, pos);
        lemma_unary(input, advance(input, pos));
    } else {
        lemma_power(input, pos);
    }
}

/// The rule `power` moves forward.
pub proof fn lemma_power(input: Seq<u8>, pos: int)
    requires
        inside(input, pos),
    ensures
        power(input, pos).moved(input, pos),
    decreases input.len() - pos, 17int,
{
    lemma_primary(input, pos);
    let left = primary(input, pos);
    if left.advanced(input, pos) {
        if current(input, left.next) matches Ok(token) && token.token_type == TokenType::Pow {
            lemma_token_ahead(input, left.next);
            lemma_power(input, advance(input, left.next));
        }
    }
}

/// The rule `primary` moves forward.
pub proof fn lemma_primary(input: Seq<u8>, pos: int)
    requires
        inside(input, pos),
    ensures
        primary(input, pos).moved(input, pos),
    decreases input.len() - pos, 16int,
{
    lemma_atom(input, pos);
    let first = atom(input, pos);
    if first.advanced(input, pos) {
        lemma_postfix_tail(input, first.next, first.tree());
    }
}

/// The rule `member_access` moves forward.
pub proof fn lemma_member_access(input: Seq<u8>, pos: int, owner: Tree)
    requires
        inside(input, pos),
        current(input, pos) matches Ok(token) && token.token_type == TokenType::Period,
    ensures
        member_access(input, pos, owner).moved(input, pos),
{
    lemma_token_ahead(input, pos);
    lemma_identifier(input, advance(input, pos));
}

/// The rule `index` moves forward.
pub proof fn lemma_index(input: Seq<u8>, pos: int, owner: Tree)
    requires
        inside(input, pos),
        current(input, pos) matches Ok(token) && token.token_type == TokenType::LeftBracket,
    ensures
        index(input, pos, owner).moved(input, pos),
    decreases input.len() - pos, 0int,
{
    lemma_token_ahead(input, pos);
    lemma_expr(input, advance(input, pos));
    let place = expr(input, advance(input, pos));
    if place.advanced(input, pos) {
        lemma_eat(input, place.next, TokenType::RightBracket, Expected::RightBracket);
    }
}

/// The rule `function_call` moves forward.
pub proof fn lemma_function_call(input: Seq<u8>, pos: int, owner: Tree)
    requires
        inside(input, pos),
        current(input, pos) matches Ok(token) && token.token_type == TokenType::LeftParen,
    ensures
        function_call(input, pos, owner).moved(input, pos),
    decreases input.len() - pos, 0int,
{
    lemma_token_ahead(input, pos);
    lemma_arguments(input, advance(input, pos), Seq::empty());
    let list = arguments(input, advance(input, pos), Seq::empty());
    if list.advanced(input, pos) {
        lemma_eat(input, list.next, TokenType::RightParen, Expected::RightParen);
    }
}

/// What follows in `postfix_tail` stays inside the input.
pub proof fn lemma_postfix_tail(input: Seq<u8>, pos: int, owner: Tree)
    requires
        inside(input, pos),
    ensures
        pos <= postfix_tail(input, pos, owner).next <= input.len(),
    decreases input.len() - pos, 1int,
{
    match current(input, pos) {
        Err(_) => {},
        Ok(token) => {
            match token.token_type {
                TokenType::Period => {
                    lemma_member_access(input, pos, owner);
                    let step = member_access(input, pos, owner);
                    if step.advanced(input, pos) {
                        lemma_postfix_tail(input, step.next, step.tree());
                    }
                },
                TokenType::LeftBracket => {
                    lemma_index(input, pos, owner);
                    let step = index(input, pos, owner);
                    if step.advanced(input, pos) {
                        lemma_postfix_tail(input, step.next, step.tree());
                    }
                },
                TokenType::LeftParen => {
                    lemma_function_call(input, pos, owner);
                    let step = function_call(input, pos, owner);
                    if step.advanced(input, pos) {
                        lemma_postfix_tail(input, step.next, step.tree());
                    }
                },
                _ => {},
            }
        },
    }
}

/// What follows in `arguments` stays inside the input.
pub proof fn lemma_arguments(input: Seq<u8>, pos: int, read: Seq<Tree>)
    requires
        inside(input, pos),
    ensures
        pos <= arguments(input, pos, read).next <= input.len(),
    decreases input.len() - pos, 41int,
{
    if current(input, pos) matches Ok(token) && token.token_type != TokenType::RightParen {
        lemma_expr(input, pos);
        let argument = expr(input, pos);
        if argument.advanced(input, pos) {
            if current(input, argument.next) matches Ok(after) && after.token_type
                == TokenType::Comma {
                lemma_token_ahead(input, argument.next);
                lemma_arguments(
                    input,
                    advance(input, argument.next),
                    read.push(argument.tree()),
                );
            }
        }
    }
}

/// The rule `atom` moves forward.
pub proof fn lemma_atom(input: Seq<u8>, pos: int)
    requires
        inside(input, pos),
    ensures
        atom(input, pos).moved(input, pos),
    decreases input.len() - pos, 14int,
{
    match current(input, pos) {
        Err(_) => {},
        Ok(token) => {
            match token.token_type {
                TokenType::LeftParen => {
                    lemma_token_ahead(input, pos);
                    lemma_expr(input, advance(input, pos));
                    let inner = expr(input, advance(input, pos));
                    if inner.advanced(input, pos) {
                        lemma_eat(input, inner.next, TokenType::RightParen, Expected::RightParen);
                    }
                },
                TokenType::Identifier => {
                    lemma_identifier_path(input, pos);
                },
                TokenType::True
                | TokenType::False
                | TokenType::IntLit(_)
                | TokenType::FloatLit(_)
                | TokenType::StringLit => {
                    lemma_token_ahead(input, pos);
                },
                _ => {},
            }
        },
    }
}

/// The rule `closing` moves forward.
pub proof fn lemma_closing(input: Seq<u8>, pos: int, tree: Tree)
    requires
        inside(input, pos),
    ensures
        closing(input, pos, tree).moved(input, pos),
{
    lemma_eat(input, pos, TokenType::Semicolon, Expected::Semicolon);
}

/// A statement that moved forward still has when its semicolon is taken.
pub proof fn lemma_line(input: Seq<u8>, pos: int, open: Parsed)
    requires
        inside(input, pos),
        open.moved(input, pos),
    ensures
        line(input, pos, open).moved(input, pos),
{
    if open.advanced(input, pos) {
        lemma_closing(input, open.next, open.tree());
    }
}

/// The rule `return_statement` moves forward.
pub proof fn lemma_return_statement(input: Seq<u8>, pos: int)
    requires
        inside(input, pos),
    ensures
        return_statement(input, pos).moved(input, pos),
{
    lemma_eat(input, pos, TokenType::Return, Expected::ReturnKeyword);
    let keyword = eat(input, pos, TokenType::Return, Expected::ReturnKeyword);
    if keyword.advanced(input, pos) {
        lemma_expr(input, keyword.next);
    }
}

/// The rule `expr_statement` moves forward.
pub proof fn lemma_expr_statement(input: Seq<u8>, pos: int)
    requires
        inside(input, pos),
    ensures
        expr_statement(input, pos).moved(input, pos),
{
    lemma_expr(input, pos);
}

/// The rule `use_statement` moves forward.
pub proof fn lemma_use_statement(input: Seq<u8>, pos: int)
    requires
        inside(input, pos),
    ensures
        use_statement(input, pos).moved(input, pos),
{
    lemma_eat(input, pos, TokenType::Use, Expected::UseKeyword);
    let keyword = eat(input, pos, TokenType::Use, Expected::UseKeyword);
    if keyword.advanced(input, pos) {
        lemma_identifier_path(input, keyword.next);
    }
}

/// What follows in `var_decl_value` stays inside the input.
pub proof fn lemma_var_decl_value(
    input: Seq<u8>,
    pos: int,
    start: Span,
    name: Tree,
    type_path: Option<Tree>,
)
    requires
        inside(input, pos),
    ensures
        pos <= var_decl_value(input, pos, start, name, type_path).next <= input.len(),
{
    if current(input, pos) matches Ok(token) && token.token_type == TokenType::Assign {
        lemma_token_ahead(input, pos);
        lemma_expr(input, advance(input, pos));
    }
}

/// The rule `var_decl` moves forward.
pub proof fn lemma_var_decl(input: Seq<u8>, pos: int)
    requires
        inside(input, pos),
    ensures
        var_decl(input, pos).moved(input, pos),
{
    lemma_eat(input, pos, TokenType::Let, Expected::LetKeyword);
    let keyword = eat(input, pos, TokenType::Let, Expected::LetKeyword);
    if keyword.advanced(input, pos) {
        lemma_identifier(input, keyword.next);
        let name = identifier(input, keyword.next);
        if name.advanced(input, pos) {
            if current(input, name.next) matches Ok(token) && token.token_type
                == TokenType::Colon {
                lemma_token_ahead(input, name.next);
                lemma_identifier_path(input, advance(input, name.next));
                let path = identifier_path(input, advance(input, name.next));
                if path.advanced(input, pos) {
                    lemma_var_decl_value(
                        input,
                        path.next,
                        keyword.span(),
                        name.tree(),
                        Some(path.tree()),
                    );
                }
            } else {
                lemma_var_decl_value(input, name.next, keyword.span(), name.tree(), None);
            }
        }
    }
}

/// The rule `condition` moves forward.
pub proof fn lemma_condition(input: Seq<u8>, pos: int)
    requires
        inside(input, pos),
    ensures
        condition(input, pos).moved(input, pos),
{
    lemma_eat(input, pos, TokenType::LeftParen, Expected::LeftParen);
    let open = eat(input, pos, TokenType::LeftParen, Expected::LeftParen);
    if open.advanced(input, pos) {
        lemma_expr(input, open.next);
        let value = expr(input, open.next);
        if value.advanced(input, pos) {
            lemma_eat(input, value.next, TokenType::RightParen, Expected::RightParen);
        }
    }
}

/// The rule `statement` moves forward.
pub proof fn lemma_statement(input: Seq<u8>, pos: int)
    requires
        inside(input, pos),
    ensures
        statement(input, pos).moved(input, pos),
    decreases input.len() - pos, 60int,
{
    match current(input, pos) {
        Err(_) => {},
        Ok(token) => {
            match token.token_type {
                TokenType::If => {
                    lemma_if_statement(input, pos);
                },
                TokenType::While => {
                    lemma_while_statement(input, pos);
                },
                TokenType::LeftBrace => {
                    lemma_block(input, pos);
                },
                TokenType::Semicolon => {
                    lemma_eat(input, pos, TokenType::Semicolon, Expected::Semicolon);
                },
                TokenType::Use => {
                    lemma_use_statement(input, pos);
                    lemma_line(input, pos, use_statement(input, pos));
                },
                TokenType::Let => {
                    lemma_var_decl(input, pos);
                    lemma_line(input, pos, var_decl(input, pos));
                },
                TokenType::Break => {
                    lemma_eat(input, pos, TokenType::Break, Expected::BreakKeyword);
                    lemma_line(input, pos, break_statement(input, pos));
                },
                TokenType::Continue => {
                    lemma_eat(input, pos, TokenType::Continue, Expected::ContinueKeyword);
                    lemma_line(input, pos, continue_statement(input, pos));
                },
                TokenType::Return => {
                    lemma_return_statement(input, pos);
                    lemma_line(input, pos, return_statement(input, pos));
                },
                _ => {
                    lemma_expr_statement(input, pos);
                    lemma_line(input, pos, expr_statement(input, pos));
                },
            }
        },
    }
}

/// The rule `if_statement` moves forward.
pub proof fn lemma_if_statement(input: Seq<u8>, pos: int)
    requires
        inside(input, pos),
    ensures
        if_statement(input, pos).moved(input, pos),
    decreases input.len() - pos, 59int,
{
    lemma_eat(input, pos, TokenType::If, Expected::IfKeyword);
    let keyword = eat(input, pos, TokenType::If, Expected::IfKeyword);
    if keyword.advanced(input, pos) {
        lemma_condition(input, keyword.next);
        let test = condition(input, keyword.next);
        if test.advanced(input, pos) {
            lemma_statement(input, test.next);
            let body = statement(input, test.next);
            if body.advanced(input, pos) {
                if current(input, body.next) matches Ok(token) && token.token_type
                    == TokenType::Else {
                    lemma_token_ahead(input, body.next);
                    lemma_statement(input, advance(input, body.next));
                }
            }
        }
    }
}

/// The rule `while_statement` moves forward.
pub proof fn lemma_while_statement(input: Seq<u8>, pos: int)
    requires
        inside(input, pos),
    ensures
        while_statement(input, pos).moved(input, pos),
    decreases input.len() - pos, 59int,
{
    lemma_eat(input, pos, TokenType::While, Expected::WhileKeyword);
    let keyword = eat(input, pos, TokenType::While, Expected::WhileKeyword);
    if keyword.advanced(input, pos) {
        lemma_condition(input, keyword.next);
        let test = condition(input, keyword.next);
        if test.advanced(input, pos) {
            lemma_statement(input, test.next);
        }
    }
}

/// The rule `block` moves forward.
pub proof fn lemma_block(input: Seq<u8>, pos: int)
    requires
        inside(input, pos),
    ensures
        block(input, pos).moved(input, pos),
    decreases input.len() - pos, 59int,
{
    lemma_eat(input, pos, TokenType::LeftBrace, Expected::LeftBrace);
    let open = eat(input, pos, TokenType::LeftBrace, Expected::LeftBrace);
    if open.advanced(input, pos) {
        lemma_block_tail(input, open.next, open.span(), Seq::empty());
    }
}

/// The rule `block_tail` moves forward.
pub proof fn lemma_block_tail(input: Seq<u8>, pos: int, open: Span, read: Seq<Tree>)
    requires
        inside(input, pos),
    ensures
        block_tail(input, pos, open, read).moved(input, pos),
    decreases input.len() - pos, 61int,
{
    match current(input, pos) {
        Err(_) => {},
        Ok(token) => {
            if token.token_type == TokenType::RightBrace {
                lemma_token_ahead(input, pos);
            } else {
                lemma_statement(input, pos);
                let next = statement(input, pos);
                if next.advanced(input, pos) {
                    lemma_block_tail(input, next.next, open, read.push(next.tree()));
                }
            }
        },
    }
}

/// The rule `parameter` moves forward.
pub proof fn lemma_parameter(input: Seq<u8>, pos: int)
    requires
        inside(input, pos),
    ensures
        parameter(input, pos).moved(input, pos),
{
    lemma_identifier(input, pos);
    let name = identifier(input, pos);
    if name.advanced(input, pos) {
        lemma_eat(input, name.next, TokenType::Colon, Expected::Colon);
        let colon = eat(input, name.next, TokenType::Colon, Expected::Colon);
        if colon.advanced(input, pos) {
            lemma_identifier_path(input, colon.next);
        }
    }
}

/// The rule `parameters_tail` moves forward.
pub proof fn lemma_parameters_tail(input: Seq<u8>, pos: int, open: Span, read: Seq<Tree>)
    requires
        inside(input, pos),
    ensures
        parameters_tail(input, pos, open, read).moved(input, pos),
    decreases input.len() - pos,
{
    lemma_parameter(input, pos);
    let next = parameter(input, pos);
    if next.advanced(input, pos) {
        if current(input, next.next) matches Ok(token) && token.token_type == TokenType::Comma {
            lemma_token_ahead(input, next.next);
            lemma_parameters_tail(
                input,
                advance(input, next.next),
                open,
                read.push(next.tree()),
            );
        } else {
            lemma_eat(input, next.next, TokenType::RightParen, Expected::RightParen);
        }
    }
}

/// The rule `parameters` moves forward.
pub proof fn lemma_parameters(input: Seq<u8>, pos: int)
    requires
        inside(input, pos),
    ensures
        parameters(input, pos).moved(input, pos),
{
    lemma_eat(input, pos, TokenType::LeftParen, Expected::LeftParen);
    let open = eat(input, pos, TokenType::LeftParen, Expected::LeftParen);
    if open.advanced(input, pos) {
        if current(input, open.next) matches Ok(token) && token.token_type
            == TokenType::RightParen {
            lemma_token_ahead(input, open.next);
        } else {
            lemma_parameters_tail(input, open.next, open.span(), Seq::empty());
        }
    }
}

/// What follows in `return_type` stays inside the input.
pub proof fn lemma_return_type(input: Seq<u8>, pos: int)
    requires
        inside(input, pos),
    ensures
        pos <= return_type(input, pos).next <= input.len(),
{
    if current(input, pos) matches Ok(token) && token.token_type == TokenType::Arrow {
        lemma_token_ahead(input, pos);
        lemma_identifier_path(input, advance(input, pos));
    }
}

/// The rule `signature` moves forward.
pub proof fn lemma_signature(input: Seq<u8>, pos: int)
    requires
        inside(input, pos),
    ensures
        pos <= signature(input, pos).next <= input.len(),
        signature(input, pos).result is Ok ==> pos < signature(input, pos).next,
{
    lemma_identifier(input, pos);
    let name = identifier(input, pos);
    if name.advanced(input, pos) {
        lemma_parameters(input, name.next);
        let list = parameters(input, name.next);
        if list.advanced(input, pos) {
            lemma_return_type(input, list.next);
        }
    }
}

/// The rule `extern_function` moves forward.
pub proof fn lemma_extern_function(input: Seq<u8>, pos: int)
    requires
        inside(input, pos),
    ensures
        extern_function(input, pos).moved(input, pos),
{
    lemma_eat(input, pos, TokenType::Extern, Expected::ExternKeyword);
    let keyword = eat(input, pos, TokenType::Extern, Expected::ExternKeyword);
    if keyword.advanced(input, pos) {
        lemma_eat(input, keyword.next, TokenType::Fn, Expected::FnKeyword);
        let function = eat(input, keyword.next, TokenType::Fn, Expected::FnKeyword);
        if function.advanced(input, pos) {
            lemma_signature(input, function.next);
        }
    }
}

/// The rule `function_body` moves forward.
pub proof fn lemma_function_body(input: Seq<u8>, pos: int, start: Span, header: Signature)
    requires
        inside(input, pos),
    ensures
        function_body(input, pos, start, header).moved(input, pos),
{
    if current(input, pos) matches Ok(token) && token.token_type == TokenType::Assign {
        lemma_token_ahead(input, pos);
        lemma_expr(input, advance(input, pos));
        let value = expr(input, advance(input, pos));
        if value.advanced(input, pos) {
            lemma_eat(input, value.next, TokenType::Semicolon, Expected::Semicolon);
        }
    } else {
        lemma_block(input, pos);
    }
}

/// The rule `function` moves forward.
pub proof fn lemma_function(input: Seq<u8>, pos: int)
    requires
        inside(input, pos),
    ensures
        function(input, pos).moved(input, pos),
{
    lemma_eat(input, pos, TokenType::Fn, Expected::FnKeyword);
    let keyword = eat(input, pos, TokenType::Fn, Expected::FnKeyword);
    if keyword.advanced(input, pos) {
        lemma_signature(input, keyword.next);
        let header = signature(input, keyword.next);
        if header.result is Ok {
            lemma_function_body(input, header.next, keyword.span(), header.result->Ok_0);
        }
    }
}

/// The rule `struct_member` moves forward.
pub proof fn lemma_struct_member(input: Seq<u8>, pos: int)
    requires
        inside(input, pos),
    ensures
        struct_member(input, pos).moved(input, pos),
{
    lemma_identifier(input, pos);
    let name = identifier(input, pos);
    if name.advanced(input, pos) {
        lemma_eat(input, name.next, TokenType::Colon, Expected::Colon);
        let colon = eat(input, name.next, TokenType::Colon, Expected::Colon);
        if colon.advanced(input, pos) {
            lemma_identifier_path(input, colon.next);
        }
    }
}

/// The rule `members_tail` moves forward.
pub proof fn lemma_members_tail(input: Seq<u8>, pos: int, start: Span, name: Tree, read: Seq<Tree>)
    requires
        inside(input, pos),
    ensures
        members_tail(input, pos, start, name, read).moved(input, pos),
    decreases input.len() - pos,
{
    lemma_struct_member(input, pos);
    let next = struct_member(input, pos);
    if next.advanced(input, pos) {
        if current(input, next.next) matches Ok(token) && token.token_type
            == TokenType::Semicolon {
            lemma_token_ahead(input, next.next);
            lemma_members_tail(
                input,
                advance(input, next.next),
                start,
                name,
                read.push(next.tree()),
            );
        } else {
            lemma_eat(input, next.next, TokenType::RightBrace, Expected::RightBrace);
        }
    }
}

/// The rule `struct_decl` moves forward.
pub proof fn lemma_struct_decl(input: Seq<u8>, pos: int)
    requires
        inside(input, pos),
    ensures
        struct_decl(input, pos).moved(input, pos),
{
    lemma_eat(input, pos, TokenType::Struct, Expected::StructKeyword);
    let keyword = eat(input, pos, TokenType::Struct, Expected::StructKeyword);
    if keyword.advanced(input, pos) {
        lemma_identifier(input, keyword.next);
        let name = identifier(input, keyword.next);
        if name.advanced(input, pos) {
            lemma_eat(input, name.next, TokenType::LeftBrace, Expected::LeftBrace);
            let open = eat(input, name.next, TokenType::LeftBrace, Expected::LeftBrace);
            if open.advanced(input, pos) {
                lemma_members_tail(input, open.next, keyword.span(), name.tree(), Seq::empty());
            }
        }
    }
}

/// The rule `use_decl` moves forward.
pub proof fn lemma_use_decl(input: Seq<u8>, pos: int)
    requires
        inside(input, pos),
    ensures
        use_decl(input, pos).moved(input, pos),
{
    lemma_eat(input, pos, TokenType::Use, Expected::UseKeyword);
    let keyword = eat(input, pos, TokenType::Use, Expected::UseKeyword);
    if keyword.advanced(input, pos) {
        lemma_identifier_path(input, keyword.next);
        let path = identifier_path(input, keyword.next);
        if path.advanced(input, pos) {
            lemma_eat(input, path.next, TokenType::Semicolon, Expected::Semicolon);
        }
    }
}

/// The rule `unit_member` moves forward.
pub proof fn lemma_unit_member(input: Seq<u8>, pos: int)
    requires
        inside(input, pos),
    ensures
        unit_member(input, pos).moved(input, pos),
{
    lemma_use_decl(input, pos);
    lemma_function(input, pos);
    lemma_extern_function(input, pos);
    lemma_struct_decl(input, pos);
}

/// What follows in `unit_tail` stays inside the input.
pub proof fn lemma_unit_tail(input: Seq<u8>, pos: int, start: Span, read: Seq<Tree>)
    requires
        inside(input, pos),
    ensures
        pos <= unit_tail(input, pos, start, read).next <= input.len(),
        unit_tail(input, pos, start, read).result is Ok ==> is_eof(
            lex(input, unit_tail(input, pos, start, read).next),
        ),
    decreases input.len() - pos,
{
    if current(input, pos) matches Ok(token) && token.token_type != TokenType::Eof {
        lemma_unit_member(input, pos);
        let next = unit_member(input, pos);
        if next.advanced(input, pos) {
            lemma_unit_tail(input, next.next, start, read.push(next.tree()));
        }
    }
}

/// A compilation unit that parses has taken the whole input: the parser
/// stands at its end.
pub proof fn lemma_compilation_unit(input: Seq<u8>, pos: int)
    requires
        inside(input, pos),
    ensures
        pos <= compilation_unit(input, pos).next <= input.len(),
        compilation_unit(input, pos).result is Ok ==> is_eof(
            lex(input, compilation_unit(input, pos).next),
        ),
{
    lemma_unit_tail(input, pos, crate::parser::grammar::current_span(input, pos), Seq::empty());
}

} // verus!
