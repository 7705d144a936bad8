use rlox::error::RuntimeError;
use rlox::parser::{Expr, Literal, Parser, Stmt};
use rlox::scanner::Scanner;
use rlox::token::TokenValue;

fn parse(source: &str) -> Vec<Stmt> {
    let tokens = Scanner::new(source.to_string())
        .scan_tokens()
        .expect("scan should succeed");
    Parser::new(tokens).parse().expect("parse should succeed")
}

fn parse_errors(source: &str) -> Vec<RuntimeError> {
    let tokens = Scanner::new(source.to_string())
        .scan_tokens()
        .expect("scan should succeed");
    match Parser::new(tokens).parse() {
        Ok(_) => panic!("parse unexpectedly succeeded"),
        Err(errors) => errors,
    }
}

fn only_expression(mut stmts: Vec<Stmt>) -> Expr {
    assert_eq!(stmts.len(), 1);
    match stmts.remove(0) {
        Stmt::Expression(e) => e,
        _ => panic!("expected an expression statement"),
    }
}

fn number_text(e: &Expr) -> &str {
    match e {
        Expr::Literal(Literal::Number(text)) => text,
        _ => panic!("expected a number literal"),
    }
}

fn variable_name(e: &Expr) -> &str {
    match e {
        Expr::Variable { name } => &name.lexeme,
        _ => panic!("expected a variable"),
    }
}

#[test]
fn parse_empty_source_is_empty_program() {
    let stmts = parse("");
    assert_eq!(stmts.len(), 0);
}

#[test]
fn multiplication_binds_tighter_than_addition() {
    let expr = only_expression(parse("1 + 2 * 3;"));
    match expr {
        Expr::Term {
            left,
            operator,
            right,
        } => {
            assert_eq!(operator.value, TokenValue::Plus);
            assert_eq!(number_text(&left), "1");
            match *right {
                Expr::Factor {
                    left: f_left,
                    operator: f_op,
                    right: f_right,
                } => {
                    assert_eq!(f_op.value, TokenValue::Star);
                    assert_eq!(number_text(&f_left), "2");
                    assert_eq!(number_text(&f_right), "3");
                }
                _ => panic!("right operand should be the multiplication"),
            }
        }
        _ => panic!("expected an addition at the top"),
    }
}

#[test]
fn nested_property_access_builds_nested_gets() {
    let expr = only_expression(parse("a.b.c;"));
    match expr {
        Expr::Get { name, object } => {
            assert_eq!(name.lexeme, "c");
            match *object {
                Expr::Get {
                    name: inner_name,
                    object: inner_object,
                } => {
                    assert_eq!(inner_name.lexeme, "b");
                    assert_eq!(variable_name(&inner_object), "a");
                }
                _ => panic!("inner object should itself be a property access"),
            }
        }
        _ => panic!("expected a property access at the top"),
    }
}

#[test]
fn literal_is_not_a_settable_target() {
    let errors = parse_errors("1 = 2;");
    assert_eq!(errors.len(), 1);
    assert!(matches!(
        errors[0],
        RuntimeError::InvalidArgumentTarget(_)
    ));
}

#[test]
fn two_independent_errors_are_both_reported() {
    let errors = parse_errors("+ ; 1 ; * ;");
    assert_eq!(errors.len(), 2);
    for error in &errors {
        match error {
            RuntimeError::ParseError(message, token) => {
                assert_eq!(message, "Expected expression");
                assert!(
                    token.value == TokenValue::Plus || token.value == TokenValue::Star
                );
            }
            _ => panic!("expected parse errors"),
        }
    }
}

#[test]
fn missing_semicolon_is_reported_with_offending_token() {
    let errors = parse_errors("1 + 2");
    assert_eq!(errors.len(), 1);
    match &errors[0] {
        RuntimeError::ParseError(message, token) => {
            assert_eq!(message, "Expected `;` after expression");
            assert_eq!(token.value, TokenValue::Eof);
        }
        _ => panic!("expected a parse error"),
    }
}

#[test]
fn missing_close_paren_is_reported() {
    let errors = parse_errors("(1;");
    assert_eq!(errors.len(), 1);
    match &errors[0] {
        RuntimeError::ParseError(message, token) => {
            assert_eq!(message, "Expected `)` after expression");
            assert_eq!(token.value, TokenValue::Semicolon);
        }
        _ => panic!("expected a parse error"),
    }
}

#[test]
fn block_collects_declarations() {
    let mut stmts = parse("{ 1; 2; } 3;");
    assert_eq!(stmts.len(), 2);
    match stmts.remove(0) {
        Stmt::Block(items) => {
            assert_eq!(items.len(), 2);
            assert!(matches!(items[0], Stmt::Expression(_)));
            assert!(matches!(items[1], Stmt::Expression(_)));
        }
        _ => panic!("expected a block first"),
    }
    assert!(matches!(stmts[0], Stmt::Expression(_)));
}

#[test]
fn unterminated_block_is_an_error() {
    let errors = parse_errors("{ 1;");
    assert_eq!(errors.len(), 1);
    assert!(matches!(&errors[0], RuntimeError::ParseError(_, _)));
}

#[test]
fn call_with_arguments() {
    let expr = only_expression(parse("f(a, 1 + 2);"));
    match expr {
        Expr::Call {
            callee,
            paren,
            arguments,
        } => {
            assert_eq!(variable_name(&callee), "f");
            assert_eq!(paren.value, TokenValue::RightParen);
            assert_eq!(arguments.len(), 2);
            assert_eq!(variable_name(&arguments[0]), "a");
            assert!(matches!(arguments[1], Expr::Term { .. }));
        }
        _ => panic!("expected a call"),
    }
}

#[test]
fn chained_empty_calls() {
    let expr = only_expression(parse("f()();"));
    match expr {
        Expr::Call { callee, arguments, .. } => {
            assert_eq!(arguments.len(), 0);
            match *callee {
                Expr::Call {
                    callee: inner,
                    arguments: inner_args,
                    ..
                } => {
                    assert_eq!(inner_args.len(), 0);
                    assert_eq!(variable_name(&inner), "f");
                }
                _ => panic!("callee should itself be a call"),
            }
        }
        _ => panic!("expected a call"),
    }
}

#[test]
fn grouping_overrides_precedence() {
    let expr = only_expression(parse("(1 + 2) * 3;"));
    match expr {
        Expr::Factor { left, operator, .. } => {
            assert_eq!(operator.value, TokenValue::Star);
            match *left {
                Expr::Grouping { group } => {
                    assert!(matches!(*group, Expr::Term { .. }));
                }
                _ => panic!("left operand should be the grouping"),
            }
        }
        _ => panic!("expected a multiplication at the top"),
    }
}

#[test]
fn unary_is_right_recursive() {
    let expr = only_expression(parse("!!x;"));
    match expr {
        Expr::Unary { operator, right } => {
            assert_eq!(operator.value, TokenValue::Bang);
            match *right {
                Expr::Unary {
                    operator: inner_op,
                    right: inner,
                } => {
                    assert_eq!(inner_op.value, TokenValue::Bang);
                    assert_eq!(variable_name(&inner), "x");
                }
                _ => panic!("operand should itself be a unary"),
            }
        }
        _ => panic!("expected a unary"),
    }
}

#[test]
fn and_binds_tighter_than_or() {
    let expr = only_expression(parse("a or b and c;"));
    match expr {
        Expr::Logical {
            left,
            operator,
            right,
        } => {
            assert_eq!(operator.value, TokenValue::Or);
            assert_eq!(variable_name(&left), "a");
            match *right {
                Expr::Logical {
                    left: and_left,
                    operator: and_op,
                    right: and_right,
                } => {
                    assert_eq!(and_op.value, TokenValue::And);
                    assert_eq!(variable_name(&and_left), "b");
                    assert_eq!(variable_name(&and_right), "c");
                }
                _ => panic!("right operand should be the conjunction"),
            }
        }
        _ => panic!("expected a disjunction at the top"),
    }
}

#[test]
fn assignment_is_right_associative() {
    let expr = only_expression(parse("a = b = 2;"));
    match expr {
        Expr::Assign { name, value } => {
            assert_eq!(name.lexeme, "a");
            match *value {
                Expr::Assign {
                    name: inner_name,
                    value: inner_value,
                } => {
                    assert_eq!(inner_name.lexeme, "b");
                    assert_eq!(number_text(&inner_value), "2");
                }
                _ => panic!("value should itself be an assignment"),
            }
        }
        _ => panic!("expected an assignment"),
    }
}

#[test]
fn property_assignment_builds_a_setter() {
    let expr = only_expression(parse("a.b = 2;"));
    match expr {
        Expr::SetProp {
            object,
            name,
            value,
        } => {
            assert_eq!(variable_name(&object), "a");
            assert_eq!(name.lexeme, "b");
            assert_eq!(number_text(&value), "2");
        }
        _ => panic!("expected a property assignment"),
    }
}

#[test]
fn super_method_and_this() {
    let mut stmts = parse("super.m; this;");
    assert_eq!(stmts.len(), 2);
    match stmts.remove(0) {
        Stmt::Expression(Expr::Super { keyword, method }) => {
            assert_eq!(keyword.value, TokenValue::Super);
            assert_eq!(method.lexeme, "m");
        }
        _ => panic!("expected a super access"),
    }
    match stmts.remove(0) {
        Stmt::Expression(Expr::This { keyword }) => {
            assert_eq!(keyword.value, TokenValue::This);
        }
        _ => panic!("expected a this expression"),
    }
}

#[test]
fn equality_over_comparison_shape() {
    let expr = only_expression(parse("1 != 2 < 3;"));
    match expr {
        Expr::Equality {
            left,
            operator,
            right,
        } => {
            assert_eq!(operator.value, TokenValue::BangEqual);
            assert_eq!(number_text(&left), "1");
            assert!(matches!(*right, Expr::Comparison { .. }));
        }
        _ => panic!("expected an equality at the top"),
    }
}

#[test]
fn left_associative_fold_keeps_both_operands() {
    let expr = only_expression(parse("1 - 2 - 3;"));
    match expr {
        Expr::Term {
            left,
            operator,
            right,
        } => {
            assert_eq!(operator.value, TokenValue::Minus);
            assert_eq!(number_text(&right), "3");
            match *left {
                Expr::Term {
                    left: inner_left,
                    right: inner_right,
                    ..
                } => {
                    assert_eq!(number_text(&inner_left), "1");
                    assert_eq!(number_text(&inner_right), "2");
                }
                _ => panic!("left operand should be the first subtraction"),
            }
        }
        _ => panic!("expected a subtraction at the top"),
    }
}

#[test]
fn string_and_literals_parse() {
    let mut stmts = parse("\"hi\"; true; false; nil;");
    assert_eq!(stmts.len(), 4);
    match stmts.remove(0) {
        Stmt::Expression(Expr::Literal(Literal::Str(text))) => assert_eq!(text, "hi"),
        _ => panic!("expected a string literal"),
    }
    assert!(matches!(
        stmts[0],
        Stmt::Expression(Expr::Literal(Literal::True))
    ));
    assert!(matches!(
        stmts[1],
        Stmt::Expression(Expr::Literal(Literal::False))
    ));
    assert!(matches!(
        stmts[2],
        Stmt::Expression(Expr::Literal(Literal::Nil))
    ));
}

#[test]
fn recovery_resumes_after_statement_keyword() {
    let errors = parse_errors("= 1 var 2;");
    assert!(!errors.is_empty());
}

#[test]
fn var_declaration_with_initializer() {
    let mut stmts = parse("var x = 1 + 2;");
    assert_eq!(stmts.len(), 1);
    match stmts.remove(0) {
        Stmt::Var { name, initializer } => {
            assert_eq!(name.lexeme, "x");
            assert!(matches!(initializer, Some(Expr::Term { .. })));
        }
        _ => panic!("expected a variable declaration"),
    }
}

#[test]
fn var_declaration_without_initializer() {
    let mut stmts = parse("var x;");
    match stmts.remove(0) {
        Stmt::Var { name, initializer } => {
            assert_eq!(name.lexeme, "x");
            assert!(initializer.is_none());
        }
        _ => panic!("expected a variable declaration"),
    }
}

#[test]
fn var_requires_a_name() {
    let errors = parse_errors("var 1;");
    assert_eq!(errors.len(), 1);
    match &errors[0] {
        RuntimeError::ParseError(message, token) => {
            assert_eq!(message, "Expected variable name");
            assert_eq!(token.value, TokenValue::Number);
        }
        _ => panic!("expected a parse error"),
    }
}

#[test]
fn print_statement_owns_its_expression() {
    let mut stmts = parse("print 1 + 2;");
    match stmts.remove(0) {
        Stmt::Print(e) => assert!(matches!(e, Expr::Term { .. })),
        _ => panic!("expected a print statement"),
    }
}

#[test]
fn return_with_and_without_value() {
    let mut stmts = parse("return; return 2;");
    assert_eq!(stmts.len(), 2);
    match stmts.remove(0) {
        Stmt::Return { keyword, value } => {
            assert_eq!(keyword.value, TokenValue::Return);
            assert!(value.is_none());
        }
        _ => panic!("expected a return statement"),
    }
    match stmts.remove(0) {
        Stmt::Return { value, .. } => {
            assert_eq!(number_text(&value.expect("should carry a value")), "2");
        }
        _ => panic!("expected a return statement"),
    }
}

#[test]
fn while_statement_wraps_its_body() {
    let mut stmts = parse("while (a) { b; }");
    match stmts.remove(0) {
        Stmt::While { condition, body } => {
            assert_eq!(variable_name(&condition), "a");
            assert!(matches!(*body, Stmt::Block(_)));
        }
        _ => panic!("expected a while statement"),
    }
}

#[test]
fn else_binds_to_nearest_if() {
    let mut stmts = parse("if (a) if (b) 1; else 2;");
    match stmts.remove(0) {
        Stmt::If {
            then_branch,
            else_branch,
            ..
        } => {
            assert!(else_branch.is_none());
            match *then_branch {
                Stmt::If {
                    else_branch: inner_else,
                    ..
                } => assert!(inner_else.is_some()),
                _ => panic!("then branch should be the inner if"),
            }
        }
        _ => panic!("expected an if statement"),
    }
}

#[test]
fn missing_paren_after_while_is_reported() {
    let errors = parse_errors("while a;");
    assert_eq!(errors.len(), 1);
    match &errors[0] {
        RuntimeError::ParseError(message, token) => {
            assert_eq!(message, "Expected `(` after `while`");
            assert_eq!(token.value, TokenValue::Identifier);
        }
        _ => panic!("expected a parse error"),
    }
}

#[test]
fn for_statement_desugars_to_while() {
    let mut stmts = parse("for (var i = 0; i < 3; i = i + 1) print i;");
    assert_eq!(stmts.len(), 1);
    match stmts.remove(0) {
        Stmt::Block(mut outer) => {
            assert_eq!(outer.len(), 2);
            assert!(matches!(outer[0], Stmt::Var { .. }));
            match outer.remove(1) {
                Stmt::While { condition, body } => {
                    assert!(matches!(condition, Expr::Comparison { .. }));
                    match *body {
                        Stmt::Block(inner) => {
                            assert_eq!(inner.len(), 2);
                            assert!(matches!(inner[0], Stmt::Print(_)));
                            assert!(matches!(inner[1], Stmt::Expression(Expr::Assign { .. })));
                        }
                        _ => panic!("loop body should be the block with the increment"),
                    }
                }
                _ => panic!("second statement should be the while loop"),
            }
        }
        _ => panic!("expected the desugared outer block"),
    }
}

#[test]
fn for_with_empty_clauses_is_a_bare_while_true() {
    let mut stmts = parse("for (;;) 1;");
    match stmts.remove(0) {
        Stmt::While { condition, body } => {
            assert!(matches!(condition, Expr::Literal(Literal::True)));
            assert!(matches!(*body, Stmt::Expression(_)));
        }
        _ => panic!("expected a bare while loop"),
    }
}

#[test]
fn missing_paren_after_for_is_reported() {
    let errors = parse_errors("for i;");
    assert_eq!(errors.len(), 1);
    match &errors[0] {
        RuntimeError::ParseError(message, token) => {
            assert_eq!(message, "Expected `(` after `for`");
            assert_eq!(token.value, TokenValue::Identifier);
        }
        _ => panic!("expected a parse error"),
    }
}

#[test]
fn function_declaration_with_parameters() {
    let mut stmts = parse("fun add(a, b) { a + b; }");
    assert_eq!(stmts.len(), 1);
    match stmts.remove(0) {
        Stmt::Function { name, params, body } => {
            assert_eq!(name.lexeme, "add");
            assert_eq!(params.len(), 2);
            assert_eq!(params[0].lexeme, "a");
            assert_eq!(params[1].lexeme, "b");
            match *body {
                Stmt::Block(items) => assert_eq!(items.len(), 1),
                _ => panic!("function body should be a block"),
            }
        }
        _ => panic!("expected a function declaration"),
    }
}

#[test]
fn function_without_parameters() {
    let mut stmts = parse("fun f() {}");
    match stmts.remove(0) {
        Stmt::Function { params, .. } => assert_eq!(params.len(), 0),
        _ => panic!("expected a function declaration"),
    }
}

#[test]
fn function_requires_body_brace() {
    let errors = parse_errors("fun f() 1;");
    assert_eq!(errors.len(), 1);
    match &errors[0] {
        RuntimeError::ParseError(message, token) => {
            assert_eq!(message, "Expected `{` before function body");
            assert_eq!(token.value, TokenValue::Number);
        }
        _ => panic!("expected a parse error"),
    }
}

#[test]
fn class_with_superclass_and_methods() {
    let mut stmts = parse("class B < A { m() { 1; } n(x) { x; } }");
    assert_eq!(stmts.len(), 1);
    match stmts.remove(0) {
        Stmt::Class {
            name,
            superclass,
            methods,
        } => {
            assert_eq!(name.lexeme, "B");
            assert_eq!(superclass.expect("should have a superclass").lexeme, "A");
            assert_eq!(methods.len(), 2);
            match &methods[0] {
                Stmt::Function { name, .. } => assert_eq!(name.lexeme, "m"),
                _ => panic!("methods should be function nodes"),
            }
        }
        _ => panic!("expected a class declaration"),
    }
}

#[test]
fn empty_class_without_superclass() {
    let mut stmts = parse("class C {}");
    match stmts.remove(0) {
        Stmt::Class {
            superclass,
            methods,
            ..
        } => {
            assert!(superclass.is_none());
            assert_eq!(methods.len(), 0);
        }
        _ => panic!("expected a class declaration"),
    }
}
