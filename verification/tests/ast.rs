use haikulang::ast::expr::{
    AssignmentExpr, BinaryExpr, BinaryOp, Expr, FloatLit, FunctionCallExpr, IndexExpr,
    MemberAccessExpr, UnaryExpr, UnaryOp,
};
use haikulang::ast::ident::{Identifier, IdentifierPath};
use haikulang::ast::stmt::{
    BlockStatement, ExprStatement, IfStatement, ReturnStatement, Statement, UseStatement,
    VarDeclStatement, WhileStatement,
};
use haikulang::ast::unit::CompilationUnitMember;
use haikulang::lexer::token::{FloatWidth, IntLit};
use haikulang::span::{Span, Spanned};

fn number(value: i32) -> Expr {
    Expr::Int(IntLit::Untyped(value))
}

fn decimal(digits: &str) -> Expr {
    Expr::Float(Box::new(FloatLit {
        width: FloatWidth::Untyped,
        digits: digits.as_bytes().to_vec(),
    }))
}

fn path(name: &str, span: Span) -> Spanned<IdentifierPath> {
    Spanned::new(
        IdentifierPath {
            qualifier: Vec::new(),
            local_name: Spanned::new(Identifier::from_str(name), span),
        },
        span,
    )
}

fn identifier(name: &str, span: Span) -> Spanned<Expr> {
    Spanned::new(Expr::IdentifierPath(Box::new(path(name, span).value)), span)
}

fn name_of(expr: &Expr) -> &[u8] {
    match expr {
        Expr::IdentifierPath(path) => &path.local_name.value.value,
        other => panic!("Expected Identifier for name, got {:?}", other),
    }
}

#[test]
fn expr_enum_size_is_not_too_large() {
    let desired_max_size = 24;
    let size = std::mem::size_of::<Expr>();

    assert!(
        size <= desired_max_size,
        "Expr enum size is too large (wanted <= {} bytes, was {} bytes), consider boxing elements to reduce the size.",
        desired_max_size,
        size
    )
}

#[test]
fn statement_enum_size_is_not_too_large() {
    let desired_max_size = 24;
    let size = std::mem::size_of::<Statement>();

    assert!(
        size <= desired_max_size,
        "Statement enum size is too large (wanted <= {} bytes, was {} bytes), consider boxing elements to reduce the size.",
        desired_max_size,
        size
    )
}

#[test]
fn compilation_unit_member_enum_size_is_not_too_large() {
    let desired_max_size = 24;
    let size = std::mem::size_of::<CompilationUnitMember>();

    assert!(
        size <= desired_max_size,
        "CompilationUnitMember enum size is too large (wanted <= {} bytes, was {} bytes), consider boxing elements to reduce the size.",
        desired_max_size,
        size
    )
}

#[test]
fn binary_expr_constructs_correctly() {
    // Given
    let left = Spanned::new(number(123), Span::new(5, 8));
    let op = BinaryOp::Mul;
    let right = Spanned::new(number(456), Span::new(12, 15));

    // When
    let expr = BinaryExpr::new(left, op, right);

    // Then
    assert_eq!(expr.span(), Span::new(5, 15));
    match &expr.value {
        Expr::Binary(boxed_expr) => {
            assert!(
                boxed_expr.left.value == number(123),
                "expected Int(123), got {:?}",
                boxed_expr.left.value
            );
            assert_eq!(boxed_expr.left.span(), Span::new(5, 8));

            assert_eq!(boxed_expr.op, BinaryOp::Mul);

            assert!(
                boxed_expr.right.value == number(456),
                "expected Int(456), got {:?}",
                boxed_expr.right.value
            );
            assert_eq!(boxed_expr.right.span(), Span::new(12, 15));
        }
        other => panic!("Expected BinaryExpr, got {:?}", other),
    }
}

#[test]
fn unary_expr_constructs_correctly() {
    // Given
    let op_span = Span::new(11, 12);
    let op = UnaryOp::Invert;
    let value = Spanned::new(number(456), Span::new(12, 15));

    // When
    let expr = UnaryExpr::new(op_span, op, value);

    // Then
    assert_eq!(expr.span(), Span::new(11, 15));
    match &expr.value {
        Expr::Unary(boxed_expr) => {
            assert_eq!(boxed_expr.op, UnaryOp::Invert);

            assert!(
                boxed_expr.value.value == number(456),
                "expected Int(456), got {:?}",
                boxed_expr.value.value
            );
            assert_eq!(boxed_expr.value.span(), Span::new(12, 15));
        }
        other => panic!("Expected UnaryExpr, got {:?}", other),
    }
}

#[test]
fn assignment_expr_constructs_correctly() {
    // Given
    let left = Spanned::new(number(123), Span::new(5, 8));
    let op = BinaryOp::Mul;
    let right = Spanned::new(number(456), Span::new(12, 15));

    // When
    let expr = AssignmentExpr::new(left, Some(op), right);

    // Then
    assert_eq!(expr.span(), Span::new(5, 15));
    match &expr.value {
        Expr::Assignment(boxed_expr) => {
            assert!(
                boxed_expr.lvalue.value == number(123),
                "expected Int(123), got {:?}",
                boxed_expr.lvalue.value
            );
            assert_eq!(boxed_expr.lvalue.span(), Span::new(5, 8));

            assert!(matches!(boxed_expr.op, Some(BinaryOp::Mul)));

            assert!(
                boxed_expr.rvalue.value == number(456),
                "expected Int(456), got {:?}",
                boxed_expr.rvalue.value
            );
            assert_eq!(boxed_expr.rvalue.span(), Span::new(12, 15));
        }
        other => panic!("Expected AssignmentExpr, got {:?}", other),
    }
}

#[test]
fn member_access_expr_constructs_correctly() {
    // Given
    let owner = identifier("foo", Span::new(3, 6));
    let member = Spanned::new(Identifier::from_str("bar"), Span::new(7, 10));

    // When
    let expr = MemberAccessExpr::new(owner, member);

    // Then
    assert_eq!(expr.span(), Span::new(3, 10));
    match &expr.value {
        Expr::MemberAccess(boxed_expr) => {
            assert_eq!(name_of(&boxed_expr.owner.value), b"foo");
            assert_eq!(boxed_expr.owner.span(), Span::new(3, 6));

            assert_eq!(boxed_expr.member.value, Identifier::from_string("bar".to_string()));
            assert_eq!(boxed_expr.member.span(), Span::new(7, 10));
        }
        other => panic!("Expected MemberAccessExpr, got {:?}", other),
    }
}

#[test]
fn function_call_expr_constructs_correctly() {
    // Given
    let name = identifier("foo", Span::new(3, 6));
    let args: Vec<Spanned<Expr>> = vec![
        Spanned::new(number(64), Span::new(5, 7)),
        Spanned::new(decimal("69.1"), Span::new(10, 13)),
        BinaryExpr::new(
            Spanned::new(number(12), Span::new(15, 20)),
            BinaryOp::Div,
            Spanned::new(decimal("23.1"), Span::new(20, 25)),
        ),
    ];
    let close_paren_span = Span::new(27, 28);

    // When
    let expr = FunctionCallExpr::new(
        name,
        Spanned::new(args, Span::new(4, 28)),
        close_paren_span,
    );

    // Then
    assert_eq!(expr.span(), Span::new(3, 28));
    match &expr.value {
        Expr::FunctionCall(boxed_expr) => {
            assert_eq!(boxed_expr.identity.span(), Span::new(3, 6));
            assert_eq!(name_of(&boxed_expr.identity.value), b"foo");

            assert_eq!(boxed_expr.arguments.value.len(), 3);

            let first_arg = boxed_expr.arguments.value.get(0).unwrap();
            assert_eq!(first_arg.span(), Span::new(5, 7));
            assert!(first_arg.value == number(64));

            let second_arg = boxed_expr.arguments.value.get(1).unwrap();
            assert_eq!(second_arg.span(), Span::new(10, 13));
            assert!(second_arg.value == decimal("69.1"));
            match &second_arg.value {
                Expr::Float(literal) => assert_eq!(
                    String::from_utf8(literal.digits.clone()).unwrap().parse::<f64>(),
                    Ok(69.1)
                ),
                other => panic!("Expected Float, got {:?}", other),
            }

            let third_arg = boxed_expr.arguments.value.get(2).unwrap();
            assert_eq!(third_arg.span(), Span::new(15, 25));
            assert!(matches!(third_arg.value, Expr::Binary(_)));
        }
        other => panic!("Expected FunctionCallExpr, got {:?}", other),
    }
}

#[test]
fn index_expr_spans_to_the_closing_bracket() {
    let owner = identifier("a", Span::new(0, 1));
    let index = Spanned::new(number(3), Span::new(2, 3));
    let expr = IndexExpr::new(owner, index, Span::new(3, 4));
    assert_eq!(expr.span, Span::new(0, 4));
    assert!(matches!(expr.value, Expr::Index(_)));
}

#[test]
fn statements_construct_with_their_spans() {
    let value = || Spanned::new(number(1), Span::new(10, 11));
    let start = Span::new(2, 5);

    assert_eq!(ExprStatement::new(value()).span, Span::new(10, 11));

    let name = || Spanned::new(Identifier::from_str("x"), Span::new(6, 7));
    let ty = || path("T", Span::new(8, 9));
    assert_eq!(VarDeclStatement::new(start, name(), None, Some(value())).span, Span::new(2, 11));
    assert_eq!(VarDeclStatement::new(start, name(), Some(ty()), None).span, Span::new(2, 9));
    assert_eq!(VarDeclStatement::new(start, name(), None, None).span, Span::new(2, 7));

    assert_eq!(UseStatement::new(start, ty()).span, Span::new(2, 9));

    let body = || Spanned::new(Statement::Break, Span::new(12, 17));
    let other = || Spanned::new(Statement::Continue, Span::new(20, 28));
    assert_eq!(IfStatement::new(start, value(), body(), None).span, Span::new(2, 17));
    assert_eq!(IfStatement::new(start, value(), body(), Some(other())).span, Span::new(2, 28));
    assert_eq!(WhileStatement::new(start, value(), body()).span, Span::new(2, 17));

    let block = BlockStatement::new(start, vec![body(), other()], Span::new(30, 31));
    assert_eq!(block.span, Span::new(2, 31));
    match &block.value {
        Statement::Block(inner) => assert_eq!(inner.statements.len(), 2),
        other => panic!("expected a block, got {:?}", other),
    }

    assert_eq!(ReturnStatement::new(start, None).span, start);
    assert_eq!(ReturnStatement::new(start, Some(value())).span, Span::new(2, 11));
}

#[test]
fn identifiers_hold_the_bytes_of_their_name() {
    assert_eq!(Identifier::from_str("caf\u{e9}").value, "caf\u{e9}".as_bytes().to_vec());
    assert_eq!(Identifier::from_string("abc".to_string()).value, b"abc".to_vec());
    assert_eq!(Identifier::from_boxed_str(Box::from("abc")).value, b"abc".to_vec());
    assert_eq!(Identifier::from_bytes(b"abc".to_vec()), Identifier::from_str("abc"));
}
