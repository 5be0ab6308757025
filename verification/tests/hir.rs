use haikulang::ast::func::FunctionDecl;
use haikulang::ast::unit::{CompilationUnit, CompilationUnitMember};
use haikulang::hir::arena::InterningArena;
use haikulang::hir::context::{HirModuleContext, LowerError};
use haikulang::hir::lowerer::{HirFunctionContext, HirFunctionData};
use haikulang::hir::nodes::{
    HirExprBinaryOp, HirExprId, HirExprKind, HirExprUnaryOp, HirFunctionId, HirLiteralKind,
    HirStatementId, HirStatementKind, HirStringId, HirVariableId,
};
use haikulang::hir::sym::{DeclareError, SymbolTable};
use haikulang::lexer::token::FloatWidth;
use haikulang::lexer::token_stream::TokenStream;
use haikulang::parser::cursor::Parser;
use haikulang::span::{Span, Spanned};

fn unit(source: &str) -> Spanned<CompilationUnit> {
    Parser::new(TokenStream::new(source.as_bytes()))
        .parse_compilation_unit("test".to_string())
        .expect("the unit should parse")
}

fn function<'a>(unit: &'a Spanned<CompilationUnit>, index: usize) -> &'a FunctionDecl {
    match &unit.value.members[index].value {
        CompilationUnitMember::Function(decl) => decl,
        other => panic!("expected a function, got {:?}", other),
    }
}

/// Registers the functions of `source` and lowers the function at `index`.
fn lower(source: &str, index: usize) -> (HirModuleContext, Result<HirFunctionData, LowerError>) {
    let unit = unit(source);
    let mut module = HirModuleContext::new();
    module.pre_scan(&unit.value.members).expect("the functions should register");
    let decl = function(&unit, index);
    let name = module.intern(decl.name.value.value.clone()).unwrap();
    let id = module.lookup_function(name).expect("the function should be registered");
    let header = *module.get_function(id);
    let result = HirFunctionContext::new().lower_function(&mut module, header, decl);
    (module, result)
}

fn block_of(data: &HirFunctionData, id: HirStatementId) -> Vec<HirStatementId> {
    match &data.context.get_statement(id).kind {
        HirStatementKind::Block(statements) => statements.clone(),
        other => panic!("expected a block, got {:?}", other),
    }
}

#[test]
fn redeclaration_fails_in_the_same_scope_and_succeeds_in_a_new_one() {
    let mut table: SymbolTable<u32, &str> = SymbolTable::new();
    table.push();
    assert_eq!(table.declare(7, "first"), Ok(()));
    assert_eq!(table.declare(7, "second"), Err(DeclareError::AlreadyDeclared));
    assert_eq!(table.lookup(&7), Some(&"first"));
    table.push();
    assert_eq!(table.lookup(&7), Some(&"first"));
    assert_eq!(table.declare(7, "shadow"), Ok(()));
    assert_eq!(table.lookup(&7), Some(&"shadow"));
    assert_eq!(table.depth(), 2);
    table.pop();
    assert_eq!(table.lookup(&7), Some(&"first"));
    assert_eq!(table.lookup(&8), None);
    table.pop();
    assert_eq!(table.depth(), 0);
    assert_eq!(table.lookup(&7), None);
}

#[test]
fn lookup_scans_from_the_innermost_scope_outwards() {
    let mut table: SymbolTable<u64, u8> = SymbolTable::new();
    table.push();
    table.declare(1, 10).unwrap();
    table.declare(2, 20).unwrap();
    table.push();
    table.declare(2, 21).unwrap();
    table.push();
    table.declare(3, 30).unwrap();
    assert_eq!(table.lookup(&1), Some(&10));
    assert_eq!(table.lookup(&2), Some(&21));
    assert_eq!(table.lookup(&3), Some(&30));
    table.pop();
    assert_eq!(table.lookup(&3), None);
}

#[test]
fn interning_keeps_each_string_once() {
    let mut interner = InterningArena::new();
    let a = interner.intern(b"alpha".to_vec()).unwrap();
    let b = interner.intern(b"beta".to_vec()).unwrap();
    let again = interner.intern(b"alpha".to_vec()).unwrap();
    assert_eq!(a, HirStringId { raw: 0 });
    assert_eq!(b, HirStringId { raw: 1 });
    assert_eq!(again, a);
    assert_eq!(interner.len(), 2);
    assert_eq!(interner.get(a), &b"alpha".to_vec());
    assert_eq!(interner.get(b), &b"beta".to_vec());
    assert_eq!(interner.find(b"beta"), Some(b));
    assert_eq!(interner.find(b"gamma"), None);
    let empty = interner.intern(Vec::new()).unwrap();
    assert_eq!(empty, HirStringId { raw: 2 });
}

#[test]
fn let_allocates_one_variable_and_refers_to_one_expression() {
    let (module, result) = lower("fn f() { let x = 1 + 2; }", 0);
    let data = result.unwrap();
    let (exprs, statements, variables) = data.context.sizes();
    assert_eq!(variables, 1);
    assert_eq!(exprs, 3);
    assert_eq!(statements, 2);
    let body = block_of(&data, data.root_statement);
    assert_eq!(body.len(), 1);
    let decl = data.context.get_statement(body[0]);
    assert_eq!(decl.span, Span::new(9, 22));
    let (variable, expr) = match &decl.kind {
        HirStatementKind::VarDecl { variable, expr } => (*variable, expr.unwrap()),
        other => panic!("expected a declaration, got {:?}", other),
    };
    assert_eq!(variable, HirVariableId { raw: 0 });
    let stored = data.context.get_variable(variable);
    assert_eq!(data.context.get_string(&module, stored.name), &b"x".to_vec());
    assert_eq!(stored.location, Span::new(9, 22));
    match &data.context.get_expr(expr).kind {
        HirExprKind::BinaryOp { left, op, right } => {
            assert_eq!(*op, HirExprBinaryOp::Add);
            match &data.context.get_expr(*left).kind {
                HirExprKind::LoadLiteral(literal) => {
                    assert_eq!(literal.kind, HirLiteralKind::I32(1))
                }
                other => panic!("expected a literal, got {:?}", other),
            }
            match &data.context.get_expr(*right).kind {
                HirExprKind::LoadLiteral(literal) => {
                    assert_eq!(literal.kind, HirLiteralKind::I32(2))
                }
                other => panic!("expected a literal, got {:?}", other),
            }
            assert_eq!((*left, *right, expr), (HirExprId { raw: 0 }, HirExprId { raw: 1 }, HirExprId { raw: 2 }));
        }
        other => panic!("expected a binary operation, got {:?}", other),
    }
}

#[test]
fn a_function_declared_later_resolves_through_the_pre_scan() {
    let source = "fn first() { second(1); } fn second(x: int) { }";
    let (module, result) = lower(source, 0);
    let data = result.unwrap();
    let body = block_of(&data, data.root_statement);
    let call = match &data.context.get_statement(body[0]).kind {
        HirStatementKind::Expr(call) => *call,
        other => panic!("expected an expression statement, got {:?}", other),
    };
    match &data.context.get_expr(call).kind {
        HirExprKind::Call { callee, arguments } => {
            assert_eq!(arguments.len(), 1);
            match &data.context.get_expr(*callee).kind {
                HirExprKind::LoadFunction(id) => {
                    assert_eq!(*id, HirFunctionId { raw: 1 });
                    let header = module.get_function(*id);
                    assert_eq!(module.get_string(header.name), &b"second".to_vec());
                }
                other => panic!("expected a function, got {:?}", other),
            }
        }
        other => panic!("expected a call, got {:?}", other),
    }
}

#[test]
fn redeclaring_in_one_block_fails_and_in_a_nested_block_succeeds() {
    let (module, result) = lower("fn f() { let x = 1; let x = 2; }", 0);
    match result.unwrap_err() {
        LowerError::DuplicateDeclaration { name, span } => {
            assert_eq!(module.get_string(name), &b"x".to_vec());
            assert_eq!(span, Span::new(24, 25));
        }
        other => panic!("expected a duplicate declaration, got {:?}", other),
    }
    let (_, result) = lower("fn f() { let x = 1; { let x = 2; } let y = x; }", 0);
    let data = result.unwrap();
    assert_eq!(data.context.sizes().2, 3);
    let body = block_of(&data, data.root_statement);
    // The `x` after the nested block is the outer one again.
    match &data.context.get_statement(body[2]).kind {
        HirStatementKind::VarDecl { expr, .. } => {
            match &data.context.get_expr(expr.unwrap()).kind {
                HirExprKind::LoadVariable(variable) => assert_eq!(*variable, HirVariableId { raw: 0 }),
                other => panic!("expected a variable, got {:?}", other),
            }
        }
        other => panic!("expected a declaration, got {:?}", other),
    }
}

#[test]
fn parameters_are_declared_in_order_and_clash_with_each_other_only() {
    let (module, result) = lower("fn f(a: int, b: int) { let c = b; { let a = a; } }", 0);
    let data = result.unwrap();
    assert_eq!(data.context.sizes().2, 4);
    let names: Vec<Vec<u8>> = (0..4)
        .map(|raw| {
            let variable = data.context.get_variable(HirVariableId { raw });
            module.get_string(variable.name).clone()
        })
        .collect();
    assert_eq!(names, vec![b"a".to_vec(), b"b".to_vec(), b"c".to_vec(), b"a".to_vec()]);
    assert_eq!(data.context.get_variable(HirVariableId { raw: 0 }).location, Span::new(5, 11));

    let (_, result) = lower("fn f(a: int, a: int) { }", 0);
    assert!(matches!(result, Err(LowerError::DuplicateDeclaration { .. })));
    // The body is a block, which has a scope of its own inside that of the parameters.
    let (_, result) = lower("fn f(a: int) { let a = 1; }", 0);
    assert!(result.is_ok());
    // The body of the short form is lowered in the scope of the parameters.
    let (_, result) = lower("fn f(a: int) = a;", 0);
    assert!(result.is_ok());
}

#[test]
fn duplicate_functions_are_refused_by_the_pre_scan() {
    let unit = unit("fn f() { } fn g() { } fn f() { }");
    let mut module = HirModuleContext::new();
    match module.pre_scan(&unit.value.members) {
        Err(LowerError::DuplicateDeclaration { name, span }) => {
            assert_eq!(module.get_string(name), &b"f".to_vec());
            assert_eq!(span, Span::new(25, 26));
        }
        other => panic!("expected a duplicate declaration, got {:?}", other),
    }
}

#[test]
fn names_resolve_to_variables_then_functions_then_stay_unresolved() {
    let source = "fn f(f: int) { f; g; h; a::b; } fn g() { }";
    let (module, result) = lower(source, 0);
    let data = result.unwrap();
    let body = block_of(&data, data.root_statement);
    let kinds: Vec<HirExprKind> = body
        .iter()
        .map(|id| match &data.context.get_statement(*id).kind {
            HirStatementKind::Expr(expr) => data.context.get_expr(*expr).kind.clone(),
            other => panic!("expected an expression statement, got {:?}", other),
        })
        .collect();
    assert_eq!(kinds[0], HirExprKind::LoadVariable(HirVariableId { raw: 0 }));
    assert_eq!(kinds[1], HirExprKind::LoadFunction(HirFunctionId { raw: 1 }));
    match &kinds[2] {
        HirExprKind::Unresolved(name) => assert_eq!(module.get_string(*name), &b"h".to_vec()),
        other => panic!("expected an unresolved name, got {:?}", other),
    }
    match &kinds[3] {
        HirExprKind::Unresolved(name) => assert_eq!(module.get_string(*name), &b"a::b".to_vec()),
        other => panic!("expected an unresolved name, got {:?}", other),
    }
}

#[test]
fn expressions_lower_their_parts_first() {
    let source = "fn f(a: int) { a.b[-a] += g(1.5f32, \"s\", true, +a); }";
    let (module, result) = lower(source, 0);
    let data = result.unwrap();
    let body = block_of(&data, data.root_statement);
    let root = match &data.context.get_statement(body[0]).kind {
        HirStatementKind::Expr(root) => *root,
        other => panic!("expected an expression statement, got {:?}", other),
    };
    let (target, op, value) = match &data.context.get_expr(root).kind {
        HirExprKind::Assignment { target, op, value } => (*target, *op, *value),
        other => panic!("expected an assignment, got {:?}", other),
    };
    assert_eq!(op, Some(HirExprBinaryOp::Add));
    assert!(target.raw < value.raw && value.raw < root.raw);
    let (owner, index) = match &data.context.get_expr(target).kind {
        HirExprKind::Index { owner, index } => (*owner, *index),
        other => panic!("expected an index, got {:?}", other),
    };
    match &data.context.get_expr(owner).kind {
        HirExprKind::MemberAccess { owner, member } => {
            assert_eq!(module.get_string(*member), &b"b".to_vec());
            assert_eq!(
                data.context.get_expr(*owner).kind,
                HirExprKind::LoadVariable(HirVariableId { raw: 0 })
            );
        }
        other => panic!("expected a member access, got {:?}", other),
    }
    match &data.context.get_expr(index).kind {
        HirExprKind::UnaryOp { op, .. } => assert_eq!(*op, HirExprUnaryOp::Negate),
        other => panic!("expected a unary operation, got {:?}", other),
    }
    let arguments = match &data.context.get_expr(value).kind {
        HirExprKind::Call { callee, arguments } => {
            assert!(matches!(data.context.get_expr(*callee).kind, HirExprKind::Unresolved(_)));
            arguments.clone()
        }
        other => panic!("expected a call, got {:?}", other),
    };
    assert_eq!(arguments.len(), 4);
    match &data.context.get_expr(arguments[0]).kind {
        HirExprKind::LoadLiteral(literal) => match literal.kind {
            HirLiteralKind::Float(width, digits) => {
                assert_eq!(width, FloatWidth::Single);
                assert_eq!(module.get_string(digits), &b"1.5".to_vec());
            }
            other => panic!("expected a float, got {:?}", other),
        },
        other => panic!("expected a literal, got {:?}", other),
    }
    match &data.context.get_expr(arguments[1]).kind {
        HirExprKind::LoadLiteral(literal) => match literal.kind {
            HirLiteralKind::String(text) => assert_eq!(module.get_string(text), &b"s".to_vec()),
            other => panic!("expected a string, got {:?}", other),
        },
        other => panic!("expected a literal, got {:?}", other),
    }
    match &data.context.get_expr(arguments[2]).kind {
        HirExprKind::LoadLiteral(literal) => assert_eq!(literal.kind, HirLiteralKind::Bool(true)),
        other => panic!("expected a literal, got {:?}", other),
    }
    // A unary plus leaves its operand as it is.
    assert_eq!(
        data.context.get_expr(arguments[3]).kind,
        HirExprKind::LoadVariable(HirVariableId { raw: 0 })
    );
}

#[test]
fn statements_map_one_to_one() {
    let source = "fn f() { ; use a::b; if (true) break; else continue; while (false) { } return; return 1u8; }";
    let (module, result) = lower(source, 0);
    let data = result.unwrap();
    let body = block_of(&data, data.root_statement);
    assert_eq!(body.len(), 6);
    assert_eq!(data.context.get_statement(body[0]).kind, HirStatementKind::Empty);
    match &data.context.get_statement(body[1]).kind {
        HirStatementKind::Use(path) => assert_eq!(module.get_string(*path), &b"a::b".to_vec()),
        other => panic!("expected a use, got {:?}", other),
    }
    match &data.context.get_statement(body[2]).kind {
        HirStatementKind::If { body, otherwise, .. } => {
            assert_eq!(data.context.get_statement(*body).kind, HirStatementKind::Break);
            assert_eq!(
                data.context.get_statement(otherwise.unwrap()).kind,
                HirStatementKind::Continue
            );
        }
        other => panic!("expected an if, got {:?}", other),
    }
    match &data.context.get_statement(body[3]).kind {
        HirStatementKind::While { body, .. } => {
            assert_eq!(data.context.get_statement(*body).kind, HirStatementKind::Block(Vec::new()));
        }
        other => panic!("expected a while, got {:?}", other),
    }
    assert_eq!(data.context.get_statement(body[4]).kind, HirStatementKind::Return(None));
    match &data.context.get_statement(body[5]).kind {
        HirStatementKind::Return(Some(value)) => match &data.context.get_expr(*value).kind {
            HirExprKind::LoadLiteral(literal) => assert_eq!(literal.kind, HirLiteralKind::U8(1)),
            other => panic!("expected a literal, got {:?}", other),
        },
        other => panic!("expected a return, got {:?}", other),
    }
    // The root is stored last, behind everything it refers to.
    assert_eq!(data.root_statement.raw as usize, data.context.sizes().1 - 1);
}

#[test]
fn contexts_of_functions_are_separate_and_the_module_is_shared() {
    let source = "fn f() { let shared = 1; } fn g() { let shared = 2; }";
    let unit = unit(source);
    let mut module = HirModuleContext::new();
    module.pre_scan(&unit.value.members).unwrap();
    let mut lowered = Vec::new();
    for index in 0..2 {
        let decl = function(&unit, index);
        let header = *module.get_function(HirFunctionId { raw: index as u32 });
        lowered.push(HirFunctionContext::new().lower_function(&mut module, header, decl).unwrap());
    }
    let first = lowered[0].context.get_variable(HirVariableId { raw: 0 });
    let second = lowered[1].context.get_variable(HirVariableId { raw: 0 });
    assert_eq!(first.name, second.name);
    assert_eq!(module.get_string(first.name), &b"shared".to_vec());
    assert_eq!(lowered[0].context.sizes(), lowered[1].context.sizes());
    assert_eq!(module.get_string(lowered[1].header.name), &b"g".to_vec());
}

#[test]
fn handles_of_another_context_are_not_found() {
    let (module, result) = lower("fn f() { 1; }", 0);
    let data = result.unwrap();
    assert!(data.context.find_expr(HirExprId { raw: 0 }).is_some());
    assert!(data.context.find_expr(HirExprId { raw: 1 }).is_none());
    assert_eq!(
        data.context.find_statement(data.root_statement),
        Some(data.context.get_statement(data.root_statement))
    );
    assert!(data.context.find_statement(HirStatementId { raw: 2 }).is_none());
    assert!(data.context.find_variable(HirVariableId { raw: 0 }).is_none());
    assert_eq!(module.find_string(HirStringId { raw: 0 }), Some(&b"f".to_vec()));
    assert!(module.find_string(HirStringId { raw: 1 }).is_none());
    assert_eq!(module.find_function(HirFunctionId { raw: 0 }).map(|header| header.name), Some(HirStringId { raw: 0 }));
    assert!(module.find_function(HirFunctionId { raw: 1 }).is_none());
}

#[test]
fn statements_are_lowered_in_a_scope_that_the_caller_opens() {
    let source = Parser::new(TokenStream::new(b"{ let x = 1; x; }"))
        .parse_statement()
        .unwrap();
    let mut module = HirModuleContext::new();
    let mut context = HirFunctionContext::new();
    assert_eq!(context.depth(), 0);
    context.enter(&module);
    assert_eq!(context.depth(), 1);
    let root = context.lower_statement(&mut module, &source.value, source.span).unwrap();
    assert_eq!(context.depth(), 1);
    context.leave(&module);
    assert_eq!(context.depth(), 0);
    match &context.get_statement(root).kind {
        HirStatementKind::Block(statements) => {
            assert_eq!(statements.len(), 2);
            match &context.get_statement(statements[1]).kind {
                HirStatementKind::Expr(expr) => assert_eq!(
                    context.get_expr(*expr).kind,
                    HirExprKind::LoadVariable(HirVariableId { raw: 0 })
                ),
                other => panic!("expected an expression statement, got {:?}", other),
            }
        }
        other => panic!("expected a block, got {:?}", other),
    }
}
