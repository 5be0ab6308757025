use haikulang::ast::expr::{BinaryOp, Expr, UnaryOp};
use haikulang::ast::stmt::Statement;
use haikulang::ast::unit::{CompilationUnit, CompilationUnitMember};
use haikulang::lexer::error::{LexerErrorKind, NumericFault};
use haikulang::lexer::token::{FloatWidth, IntLit, TokenType};
use haikulang::lexer::token_stream::TokenStream;
use haikulang::parser::cursor::Parser;
use haikulang::parser::error::{
    CollectingReporter, Expected, ParseError, ParserError, SilentReporter,
};
use haikulang::span::{Span, Spanned};

fn parser(source: &str) -> Parser<'_> {
    Parser::new(TokenStream::new(source.as_bytes()))
}

fn expr(source: &str) -> Spanned<Expr> {
    let mut parser = parser(source);
    let parsed = parser.parse_expr().expect("the expression should parse");
    assert_eq!(parser.token_type(), Ok(TokenType::Eof), "trailing input in {:?}", source);
    parsed
}

fn expr_error(source: &str) -> ParseError {
    parser(source).parse_expr().expect_err("the expression should not parse")
}

fn statement(source: &str) -> Spanned<Statement> {
    let mut parser = parser(source);
    let parsed = parser.parse_statement().expect("the statement should parse");
    assert_eq!(parser.token_type(), Ok(TokenType::Eof), "trailing input in {:?}", source);
    parsed
}

fn statement_error(source: &str) -> ParseError {
    parser(source).parse_statement().expect_err("the statement should not parse")
}

fn unit(source: &str) -> Spanned<CompilationUnit> {
    parser(source)
        .parse_compilation_unit("test".to_string())
        .expect("the unit should parse")
}

fn unit_error(source: &str) -> ParseError {
    parser(source)
        .parse_compilation_unit("test".to_string())
        .expect_err("the unit should not parse")
}

fn number(value: i32) -> Expr {
    Expr::Int(IntLit::Untyped(value))
}

fn binary(node: &Spanned<Expr>) -> (&Spanned<Expr>, BinaryOp, &Spanned<Expr>) {
    match &node.value {
        Expr::Binary(inner) => (&inner.left, inner.op, &inner.right),
        other => panic!("expected a binary expression, got {:?}", other),
    }
}

fn name_of(node: &Spanned<Expr>) -> String {
    match &node.value {
        Expr::IdentifierPath(path) => {
            assert!(path.qualifier.is_empty());
            String::from_utf8(path.local_name.value.value.clone()).unwrap()
        }
        other => panic!("expected an identifier, got {:?}", other),
    }
}

#[test]
fn multiplication_binds_tighter_than_addition() {
    let sum = expr("1 + 2 * 3");
    let (left, op, right) = binary(&sum);
    assert_eq!(op, BinaryOp::Add);
    assert_eq!(left.value, number(1));
    let (inner_left, inner_op, inner_right) = binary(right);
    assert_eq!(inner_op, BinaryOp::Mul);
    assert_eq!(inner_left.value, number(2));
    assert_eq!(inner_right.value, number(3));
    assert_eq!(sum.span, Span::new(0, 9));
    assert_eq!(right.span, Span::new(4, 9));
}

#[test]
fn power_associates_to_the_right() {
    let power = expr("2 ** 3 ** 2");
    let (left, op, right) = binary(&power);
    assert_eq!(op, BinaryOp::Pow);
    assert_eq!(left.value, number(2));
    let (inner_left, inner_op, inner_right) = binary(right);
    assert_eq!(inner_op, BinaryOp::Pow);
    assert_eq!(inner_left.value, number(3));
    assert_eq!(inner_right.value, number(2));
}

#[test]
fn assignment_associates_to_the_right() {
    let outer = expr("a = b = c");
    match &outer.value {
        Expr::Assignment(first) => {
            assert_eq!(name_of(&first.lvalue), "a");
            assert_eq!(first.op, None);
            match &first.rvalue.value {
                Expr::Assignment(second) => {
                    assert_eq!(name_of(&second.lvalue), "b");
                    assert_eq!(name_of(&second.rvalue), "c");
                }
                other => panic!("expected an assignment, got {:?}", other),
            }
        }
        other => panic!("expected an assignment, got {:?}", other),
    }
}

#[test]
fn subtraction_associates_to_the_left() {
    let outer = expr("10 - 4 - 3");
    let (left, op, right) = binary(&outer);
    assert_eq!(op, BinaryOp::Sub);
    assert_eq!(right.value, number(3));
    let (inner_left, inner_op, inner_right) = binary(left);
    assert_eq!(inner_op, BinaryOp::Sub);
    assert_eq!(inner_left.value, number(10));
    assert_eq!(inner_right.value, number(4));
}

#[test]
fn every_level_of_precedence_nests_inside_the_looser_ones() {
    // Each operator binds tighter than the one before it.
    let source = "a || b && c | d ^ e & f == g < h << i + j * k";
    let expected = [
        BinaryOp::BoolOr,
        BinaryOp::BoolAnd,
        BinaryOp::BinaryOr,
        BinaryOp::BinaryXor,
        BinaryOp::BinaryAnd,
        BinaryOp::Eq,
        BinaryOp::Less,
        BinaryOp::BinaryShl,
        BinaryOp::Add,
        BinaryOp::Mul,
    ];
    let root = expr(source);
    let mut node = &root;
    for op in expected {
        let (left, found, right) = binary(node);
        assert_eq!(found, op);
        assert!(matches!(left.value, Expr::IdentifierPath(_)));
        node = right;
    }
    assert_eq!(name_of(node), "k");
}

#[test]
fn operators_of_one_level_are_told_apart() {
    for (source, op) in [
        ("a != b", BinaryOp::NotEq),
        ("a <= b", BinaryOp::LessEq),
        ("a > b", BinaryOp::Greater),
        ("a >= b", BinaryOp::GreaterEq),
        ("a >> b", BinaryOp::BinaryShr),
        ("a - b", BinaryOp::Sub),
        ("a / b", BinaryOp::Div),
        ("a % b", BinaryOp::Mod),
    ] {
        assert_eq!(binary(&expr(source)).1, op, "{}", source);
    }
}

#[test]
fn unary_operators_nest_to_the_right_and_bind_looser_than_power() {
    let node = expr("-~!+x");
    let mut current = &node;
    for op in [UnaryOp::Minus, UnaryOp::Invert, UnaryOp::Not, UnaryOp::Plus] {
        match &current.value {
            Expr::Unary(inner) => {
                assert_eq!(inner.op, op);
                current = &inner.value;
            }
            other => panic!("expected a unary expression, got {:?}", other),
        }
    }
    assert_eq!(name_of(current), "x");
    assert_eq!(node.span, Span::new(0, 5));

    let negated = expr("-2 ** 2");
    match &negated.value {
        Expr::Unary(inner) => assert_eq!(binary(&inner.value).1, BinaryOp::Pow),
        other => panic!("expected a unary expression, got {:?}", other),
    }
}

#[test]
fn compound_assignment_carries_its_operator() {
    for (source, op) in [
        ("x += 1", BinaryOp::Add),
        ("x -= 1", BinaryOp::Sub),
        ("x *= 1", BinaryOp::Mul),
        ("x /= 1", BinaryOp::Div),
        ("x %= 1", BinaryOp::Mod),
        ("x **= 1", BinaryOp::Pow),
        ("x &= 1", BinaryOp::BinaryAnd),
        ("x |= 1", BinaryOp::BinaryOr),
        ("x ^= 1", BinaryOp::BinaryXor),
        ("x <<= 1", BinaryOp::BinaryShl),
        ("x >>= 1", BinaryOp::BinaryShr),
    ] {
        match &expr(source).value {
            Expr::Assignment(inner) => assert_eq!(inner.op, Some(op), "{}", source),
            other => panic!("expected an assignment, got {:?}", other),
        }
    }
}

#[test]
fn assignment_needs_an_assignable_target() {
    assert!(matches!(expr("a.b = 1").value, Expr::Assignment(_)));
    assert!(matches!(expr("a[0] = 1").value, Expr::Assignment(_)));
    let error = expr_error("1 + 2 = 3");
    assert_eq!(error.value, ParserError::SyntaxError(Expected::AssignmentTarget));
    assert_eq!(error.span, Span::new(0, 5));
    let error = expr_error("f() = 3");
    assert_eq!(error.value, ParserError::SyntaxError(Expected::AssignmentTarget));
}

#[test]
fn postfix_operations_chain_to_the_left_and_widen_the_span() {
    let node = expr("a.b[1](2, x,).c");
    assert_eq!(node.span, Span::new(0, 15));
    let access = match &node.value {
        Expr::MemberAccess(access) => access,
        other => panic!("expected a member access, got {:?}", other),
    };
    assert_eq!(access.member.value.value, b"c".to_vec());
    let call = match &access.owner.value {
        Expr::FunctionCall(call) => call,
        other => panic!("expected a call, got {:?}", other),
    };
    assert_eq!(access.owner.span, Span::new(0, 13));
    assert_eq!(call.arguments.span, Span::new(6, 13));
    assert_eq!(call.arguments.value.len(), 2);
    assert_eq!(call.arguments.value[0].value, number(2));
    assert_eq!(name_of(&call.arguments.value[1]), "x");
    let index = match &call.identity.value {
        Expr::Index(index) => index,
        other => panic!("expected an index, got {:?}", other),
    };
    assert_eq!(call.identity.span, Span::new(0, 6));
    assert_eq!(index.index.value, number(1));
    assert!(matches!(index.owner.value, Expr::MemberAccess(_)));
    assert_eq!(index.owner.span, Span::new(0, 3));
}

#[test]
fn atoms() {
    assert_eq!(expr("true").value, Expr::Bool(true));
    assert_eq!(expr("false").value, Expr::Bool(false));
    assert_eq!(expr("7u8").value, Expr::Int(IntLit::U8(7)));
    match &expr("1.5f32").value {
        Expr::Float(float) => {
            assert_eq!(float.width, FloatWidth::Single);
            assert_eq!(float.digits, b"1.5".to_vec());
        }
        other => panic!("expected a float, got {:?}", other),
    }
    match &expr("\"hi\\n\"").value {
        Expr::String(text) => assert_eq!(**text, b"hi\n".to_vec()),
        other => panic!("expected a string, got {:?}", other),
    }
    let path = expr("a::b::c");
    match &path.value {
        Expr::IdentifierPath(path) => {
            assert_eq!(path.qualifier.len(), 2);
            assert_eq!(path.qualifier[0].value.value, b"a".to_vec());
            assert_eq!(path.qualifier[1].value.value, b"b".to_vec());
            assert_eq!(path.qualifier[1].span, Span::new(3, 4));
            assert_eq!(path.local_name.value.value, b"c".to_vec());
        }
        other => panic!("expected a path, got {:?}", other),
    }
    assert_eq!(path.span, Span::new(0, 7));
    let inner = expr("( 1 )");
    assert_eq!(inner.value, number(1));
    assert_eq!(inner.span, Span::new(2, 3));
}

#[test]
fn comments_are_skipped_wherever_they_stand() {
    let node = expr("/* a */ 1 // b\n + /* c */ 2 // d");
    let (left, op, right) = binary(&node);
    assert_eq!(op, BinaryOp::Add);
    assert_eq!(left.value, number(1));
    assert_eq!(right.value, number(2));
}

#[test]
fn expression_errors() {
    let error = expr_error("1 + ");
    assert_eq!(error.value, ParserError::SyntaxError(Expected::Atom));
    assert_eq!(error.span, Span::new(4, 4));
    let error = expr_error("(1 + 2");
    assert_eq!(error.value, ParserError::SyntaxError(Expected::RightParen));
    let error = expr_error("a[1");
    assert_eq!(error.value, ParserError::SyntaxError(Expected::RightBracket));
    let error = expr_error("f(1 2)");
    assert_eq!(error.value, ParserError::SyntaxError(Expected::RightParen));
    assert_eq!(error.span, Span::new(4, 5));
    let error = expr_error("a.1");
    assert_eq!(error.value, ParserError::SyntaxError(Expected::Identifier));
    let error = expr_error("a::");
    assert_eq!(error.value, ParserError::SyntaxError(Expected::Identifier));
}

#[test]
fn lexical_errors_come_in_the_shape_of_syntax_errors() {
    let error = expr_error("1 + 0x");
    assert_eq!(
        error.value,
        ParserError::LexerError(LexerErrorKind::InvalidNumericLiteral(
            NumericFault::MissingHexDigits
        ))
    );
    assert_eq!(error.span, Span::new(4, 6));
    let error = expr_error("#");
    assert_eq!(error.value, ParserError::LexerError(LexerErrorKind::UnrecognisedCharacter));
    let error = statement_error("let s = \"abc;");
    assert_eq!(error.value, ParserError::LexerError(LexerErrorKind::UnexpectedEndOfLine));
}

#[test]
fn eat_takes_the_expected_token_or_reports_without_consuming() {
    let mut parser = parser("; x");
    assert_eq!(
        parser.eat(TokenType::Semicolon, Expected::Semicolon),
        Ok(Span::new(0, 1))
    );
    let error = parser.eat(TokenType::Semicolon, Expected::Semicolon).unwrap_err();
    assert_eq!(error.value, ParserError::SyntaxError(Expected::Semicolon));
    assert_eq!(error.span, Span::new(2, 3));
    assert_eq!(parser.token_type(), Ok(TokenType::Identifier));
    assert_eq!(parser.span(), Span::new(2, 3));
}

#[test]
fn let_with_initial_value() {
    let node = statement("let x = 1 + 2;");
    assert_eq!(node.span, Span::new(0, 13));
    match &node.value {
        Statement::VarDecl(decl) => {
            assert_eq!(decl.identifier.value.value, b"x".to_vec());
            assert!(decl.type_path.is_none());
            let value = decl.expr.as_ref().unwrap();
            let (left, op, right) = binary(value);
            assert_eq!(op, BinaryOp::Add);
            assert_eq!(left.value, number(1));
            assert_eq!(right.value, number(2));
        }
        other => panic!("expected a declaration, got {:?}", other),
    }
}

#[test]
fn let_needs_a_type_or_a_value() {
    match &statement("let x: a::T;").value {
        Statement::VarDecl(decl) => {
            assert!(decl.type_path.is_some());
            assert!(decl.expr.is_none());
        }
        other => panic!("expected a declaration, got {:?}", other),
    }
    match &statement("let x: T = 1;").value {
        Statement::VarDecl(decl) => {
            assert!(decl.type_path.is_some());
            assert!(decl.expr.is_some());
        }
        other => panic!("expected a declaration, got {:?}", other),
    }
    let error = statement_error("let x;");
    assert_eq!(error.value, ParserError::SyntaxError(Expected::TypeOrValue));
    assert_eq!(error.span, Span::new(0, 6));
    let error = statement_error("let x = 1");
    assert_eq!(error.value, ParserError::SyntaxError(Expected::Semicolon));
}

#[test]
fn simple_statements() {
    assert_eq!(statement(";").value, Statement::Empty);
    assert_eq!(statement("break;").value, Statement::Break);
    assert_eq!(statement("continue;").value, Statement::Continue);
    assert_eq!(statement("break;").span, Span::new(0, 5));
    match &statement("return;").value {
        Statement::Return(inner) => assert!(inner.expr.is_none()),
        other => panic!("expected a return, got {:?}", other),
    }
    let node = statement("return 1;");
    assert_eq!(node.span, Span::new(0, 8));
    match &node.value {
        Statement::Return(inner) => assert_eq!(inner.expr.as_ref().unwrap().value, number(1)),
        other => panic!("expected a return, got {:?}", other),
    }
    match &statement("use a::b;").value {
        Statement::Use(inner) => assert_eq!(inner.path.value.qualifier.len(), 1),
        other => panic!("expected a use, got {:?}", other),
    }
    match &statement("f(1);").value {
        Statement::Expr(inner) => assert!(matches!(inner.expr.value, Expr::FunctionCall(_))),
        other => panic!("expected an expression statement, got {:?}", other),
    }
    assert_eq!(
        statement_error("break").value,
        ParserError::SyntaxError(Expected::Semicolon)
    );
}

#[test]
fn control_flow_statements() {
    let node = statement("if (a) b; else { c; }");
    assert_eq!(node.span, Span::new(0, 21));
    match &node.value {
        Statement::If(inner) => {
            assert_eq!(name_of(&inner.condition), "a");
            assert!(matches!(inner.body.value, Statement::Expr(_)));
            match &inner.otherwise.as_ref().unwrap().value {
                Statement::Block(block) => assert_eq!(block.statements.len(), 1),
                other => panic!("expected a block, got {:?}", other),
            }
        }
        other => panic!("expected an if, got {:?}", other),
    }
    match &statement("if (a) ;").value {
        Statement::If(inner) => assert!(inner.otherwise.is_none()),
        other => panic!("expected an if, got {:?}", other),
    }
    let node = statement("while (true) { break; continue; }");
    match &node.value {
        Statement::While(inner) => match &inner.body.value {
            Statement::Block(block) => {
                assert_eq!(block.statements.len(), 2);
                assert_eq!(block.statements[0].value, Statement::Break);
                assert_eq!(block.statements[1].value, Statement::Continue);
            }
            other => panic!("expected a block, got {:?}", other),
        },
        other => panic!("expected a while, got {:?}", other),
    }
    let node = statement("{ }");
    assert_eq!(node.span, Span::new(0, 3));
    assert_eq!(
        statement_error("if a) b;").value,
        ParserError::SyntaxError(Expected::LeftParen)
    );
    assert_eq!(
        statement_error("while (a b;").value,
        ParserError::SyntaxError(Expected::RightParen)
    );
    assert_eq!(
        statement_error("{ a;").value,
        ParserError::SyntaxError(Expected::Atom)
    );
}

#[test]
fn top_level_declarations() {
    let source = "use a::b;\nextern fn puts(s: str) -> int\nfn twice(x: int) -> int = x * 2;\nfn main() { twice(2); }\nstruct P { x: int; y: geo::Len }";
    let unit = unit(source);
    assert_eq!(unit.value.name, "test");
    assert_eq!(unit.span, Span::new(0, source.len()));
    let members = &unit.value.members;
    assert_eq!(members.len(), 5);
    assert!(matches!(members[0].value, CompilationUnitMember::Use(_)));
    assert_eq!(members[0].span, Span::new(0, 8));
    match &members[1].value {
        CompilationUnitMember::ExternFunction(decl) => {
            assert_eq!(decl.name.value.value, b"puts".to_vec());
            assert_eq!(decl.parameters.value.len(), 1);
            assert!(decl.return_type.is_some());
        }
        other => panic!("expected an extern function, got {:?}", other),
    }
    match &members[2].value {
        CompilationUnitMember::Function(decl) => {
            assert_eq!(decl.name.value.value, b"twice".to_vec());
            assert_eq!(decl.parameters.value[0].value.name.value.value, b"x".to_vec());
            assert!(decl.return_type.is_some());
            match &decl.body.value {
                Statement::Expr(inner) => assert_eq!(binary(&inner.expr).1, BinaryOp::Mul),
                other => panic!("expected an expression statement, got {:?}", other),
            }
        }
        other => panic!("expected a function, got {:?}", other),
    }
    match &members[3].value {
        CompilationUnitMember::Function(decl) => {
            assert!(decl.parameters.value.is_empty());
            assert!(decl.return_type.is_none());
            assert!(matches!(decl.body.value, Statement::Block(_)));
        }
        other => panic!("expected a function, got {:?}", other),
    }
    match &members[4].value {
        CompilationUnitMember::Struct(decl) => {
            assert_eq!(decl.identifier.value.value, b"P".to_vec());
            assert_eq!(decl.members.len(), 2);
            assert_eq!(decl.members[1].value.type_path.value.qualifier.len(), 1);
        }
        other => panic!("expected a struct, got {:?}", other),
    }
}

#[test]
fn top_level_errors() {
    assert_eq!(unit("").value.members.len(), 0);
    assert_eq!(unit("  // nothing\n").value.members.len(), 0);
    let error = unit_error("let x = 1;");
    assert_eq!(error.value, ParserError::SyntaxError(Expected::Declaration));
    assert_eq!(error.span, Span::new(0, 3));
    assert_eq!(
        unit_error("use a").value,
        ParserError::SyntaxError(Expected::Semicolon)
    );
    assert_eq!(
        unit_error("fn f(a) {}").value,
        ParserError::SyntaxError(Expected::Colon)
    );
    assert_eq!(
        unit_error("fn f() -> {}").value,
        ParserError::SyntaxError(Expected::Identifier)
    );
    assert_eq!(
        unit_error("fn f()").value,
        ParserError::SyntaxError(Expected::LeftBrace)
    );
    assert_eq!(
        unit_error("extern f()").value,
        ParserError::SyntaxError(Expected::FnKeyword)
    );
    assert_eq!(
        unit_error("struct S { }").value,
        ParserError::SyntaxError(Expected::Identifier)
    );
    assert_eq!(
        unit_error("struct S { a: b c: d }").value,
        ParserError::SyntaxError(Expected::RightBrace)
    );
    assert_eq!(
        unit_error("fn f(a: b,) {}").value,
        ParserError::SyntaxError(Expected::Identifier)
    );
}

#[test]
fn reporters_receive_the_error_that_ends_the_parse() {
    let mut reporter = CollectingReporter::new();
    let result = parser("fn f() { 1 + ; }").parse("unit".to_string(), &mut reporter);
    let error = result.unwrap_err();
    assert_eq!(reporter.errors, vec![error.clone()]);
    assert_eq!(error.value, ParserError::SyntaxError(Expected::Atom));

    let mut silent = SilentReporter::new();
    let again = parser("fn f() { 1 + ; }").parse("unit".to_string(), &mut silent);
    assert_eq!(again.unwrap_err(), error);

    let mut reporter = CollectingReporter::new();
    assert!(parser("fn f() { }").parse("unit".to_string(), &mut reporter).is_ok());
    assert!(reporter.errors.is_empty());
}

#[test]
fn error_messages() {
    assert_eq!(
        ParserError::SyntaxError(Expected::Semicolon).message(),
        "expected semicolon"
    );
    assert_eq!(
        ParserError::SyntaxError(Expected::IfKeyword).message(),
        "expected 'if' keyword"
    );
    assert_eq!(
        ParserError::LexerError(LexerErrorKind::UnexpectedEndOfLine).message(),
        "unexpected line end"
    );
    assert_eq!(Expected::RightBracket.describe(), "right square bracket");
}

#[test]
fn declarations_name_the_keyword_they_start_with() {
    assert_eq!(
        parser("x").parse_struct_decl().unwrap_err().value,
        ParserError::SyntaxError(Expected::StructKeyword)
    );
    assert_eq!(
        parser("x").parse_extern_function_decl().unwrap_err().value,
        ParserError::SyntaxError(Expected::ExternKeyword)
    );
    assert_eq!(
        parser("x").parse_function_decl().unwrap_err().value,
        ParserError::SyntaxError(Expected::FnKeyword)
    );
    assert_eq!(
        parser("x").parse_block_statement().unwrap_err().value,
        ParserError::SyntaxError(Expected::LeftBrace)
    );
    assert_eq!(
        parser("struct S { a: b").parse_struct_decl().unwrap_err().value,
        ParserError::SyntaxError(Expected::RightBrace)
    );
}

#[test]
fn each_level_of_precedence_can_be_entered_by_name() {
    // Entered at a level, the parser leaves the looser operators in place.
    let mut at_sum = parser("1 * 2 + 3 << 4");
    let sum = at_sum.parse_sum_expr().unwrap();
    assert_eq!(binary(&sum).1, BinaryOp::Add);
    assert_eq!(at_sum.token_type(), Ok(TokenType::BinaryShl));

    let mut at_factor = parser("1 * 2 + 3");
    let product = at_factor.parse_factor_expr().unwrap();
    assert_eq!(binary(&product).1, BinaryOp::Mul);
    assert_eq!(at_factor.token_type(), Ok(TokenType::Add));

    assert_eq!(binary(&parser("a || b").parse_bool_or_expr().unwrap()).1, BinaryOp::BoolOr);
    assert_eq!(binary(&parser("a && b").parse_bool_and_expr().unwrap()).1, BinaryOp::BoolAnd);
    assert_eq!(binary(&parser("a | b").parse_binary_or_expr().unwrap()).1, BinaryOp::BinaryOr);
    assert_eq!(binary(&parser("a ^ b").parse_binary_xor_expr().unwrap()).1, BinaryOp::BinaryXor);
    assert_eq!(binary(&parser("a & b").parse_binary_and_expr().unwrap()).1, BinaryOp::BinaryAnd);
    assert_eq!(binary(&parser("a == b").parse_equality_expr().unwrap()).1, BinaryOp::Eq);
    assert_eq!(binary(&parser("a < b").parse_compare_expr().unwrap()).1, BinaryOp::Less);
    assert_eq!(
        binary(&parser("a << b").parse_binary_shift_expr().unwrap()).1,
        BinaryOp::BinaryShl
    );
    let mut at_unary = parser("-a ** b * c");
    assert!(matches!(at_unary.parse_unary_expr().unwrap().value, Expr::Unary(_)));
    assert_eq!(at_unary.token_type(), Ok(TokenType::Mul));
    let mut at_power = parser("a ** b * c");
    assert_eq!(binary(&at_power.parse_pow_expr().unwrap()).1, BinaryOp::Pow);
    let mut at_primary = parser("a.b ** c");
    assert!(matches!(at_primary.parse_primary_expr().unwrap().value, Expr::MemberAccess(_)));
    assert_eq!(at_primary.token_type(), Ok(TokenType::Pow));
}

#[test]
fn eat_takes_the_end_of_input_and_stays_there() {
    let mut parser = parser("x ");
    let error = parser.eat(TokenType::Eof, Expected::Declaration).unwrap_err();
    assert_eq!(error.value, ParserError::SyntaxError(Expected::Declaration));
    assert_eq!(error.span, Span::new(0, 1));
    assert_eq!(parser.token_type(), Ok(TokenType::Identifier));
    parser.advance();
    assert_eq!(parser.eat(TokenType::Eof, Expected::Declaration), Ok(Span::new(2, 2)));
    assert_eq!(parser.eat(TokenType::Eof, Expected::Declaration), Ok(Span::new(2, 2)));
    assert_eq!(parser.token_type(), Ok(TokenType::Eof));
}
