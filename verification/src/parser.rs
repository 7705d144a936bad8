use vstd::prelude::*;

use crate::error::{errors_view, RuntimeError, SpecRuntimeError};
use crate::scanner::clampi;
use crate::token::{tokens_view, SpecToken, Token, TokenValue};

verus! {

broadcast use vstd::std_specs::vec::axiom_vec_index_decreases;

// ===========================================================================
// The abstract syntax tree.
//
// Grammar (expressions, lowest to highest binding):
//   expression  -> assignment
//   assignment  -> ( call "." )? IDENTIFIER "=" assignment | logic_or
//   logic_or    -> logic_and ( "or" logic_and )*
//   logic_and   -> equality ( "and" equality )*
//   equality    -> comparison ( ( "!=" | "==" ) comparison )*
//   comparison  -> term ( ( ">" | ">=" | "<" | "<=" ) term )*
//   term        -> factor ( ( "-" | "+" ) factor )*
//   factor      -> unary ( ( "/" | "*" ) unary )*
//   unary       -> ( "!" | "-" ) unary | call
//   call        -> primary ( "(" arguments? ")" | "." IDENTIFIER )*
//   primary     -> "true" | "false" | "nil" | "this" | NUMBER | STRING
//                | IDENTIFIER | "(" expression ")" | "super" "." IDENTIFIER
// Statements:
//   declaration -> classDecl | funDecl | varDecl | statement
//   classDecl   -> "class" IDENTIFIER ( "<" IDENTIFIER )? "{" function* "}"
//   funDecl     -> "fun" function
//   function    -> IDENTIFIER "(" parameters? ")" block
//   parameters  -> IDENTIFIER ( "," IDENTIFIER )*
//   varDecl     -> "var" IDENTIFIER ( "=" expression )? ";"
//   statement   -> exprStmt | printStmt | returnStmt | whileStmt | ifStmt
//                | forStmt | block
//   forStmt     -> "for" "(" ( varDecl | exprStmt | ";" ) expression? ";"
//                  expression? ")" statement   (desugared to While)
//   exprStmt    -> expression ";"
//   printStmt   -> "print" expression ";"
//   returnStmt  -> "return" expression? ";"
//   whileStmt   -> "while" "(" expression ")" statement
//   ifStmt      -> "if" "(" expression ")" statement ( "else" statement )?
//   block       -> "{" declaration* "}"
// Every binary level is left-associative; each node owns its children.
// ===========================================================================
/// A literal expression.  A number keeps its digit text (the lexeme); a
/// string keeps the text between its quotes.
#[derive(Debug)]
pub enum Literal {
    False,
    True,
    Nil,
    Number(String),
    Str(String),
}

/// An expression node.  Binary nodes keep both operands and the operator
/// token; name-bearing nodes keep the tokens they were built from, for
/// diagnostics.
#[derive(Debug)]
pub enum Expr {
    Literal(Literal),
    This { keyword: Token },
    Variable { name: Token },
    Grouping { group: Box<Expr> },
    Super { keyword: Token, method: Token },
    Get { name: Token, object: Box<Expr> },
    Unary { operator: Token, right: Box<Expr> },
    Factor { left: Box<Expr>, operator: Token, right: Box<Expr> },
    Term { left: Box<Expr>, operator: Token, right: Box<Expr> },
    Comparison { left: Box<Expr>, operator: Token, right: Box<Expr> },
    Equality { left: Box<Expr>, operator: Token, right: Box<Expr> },
    Logical { left: Box<Expr>, operator: Token, right: Box<Expr> },
    Assign { name: Token, value: Box<Expr> },
    SetProp { object: Box<Expr>, name: Token, value: Box<Expr> },
    Call { callee: Box<Expr>, paren: Token, arguments: Vec<Expr> },
}

/// A statement node.
#[derive(Debug)]
pub enum Stmt {
    Expression(Expr),
    Block(Vec<Stmt>),
    Print(Expr),
    Var { name: Token, initializer: Option<Expr> },
    If { condition: Expr, then_branch: Box<Stmt>, else_branch: Option<Box<Stmt>> },
    While { condition: Expr, body: Box<Stmt> },
    Return { keyword: Token, value: Option<Expr> },
    Function { name: Token, params: Vec<Token>, body: Box<Stmt> },
    Class { name: Token, superclass: Option<Token>, methods: Vec<Stmt> },
}

/// The mathematical model of a `Literal`.
pub enum SpecLiteral {
    False,
    True,
    Nil,
    Number(Seq<char>),
    Str(Seq<char>),
}

/// The mathematical model of an `Expr`.
pub enum SpecExpr {
    Literal(SpecLiteral),
    This { keyword: SpecToken },
    Variable { name: SpecToken },
    Grouping { group: Box<SpecExpr> },
    Super { keyword: SpecToken, method: SpecToken },
    Get { name: SpecToken, object: Box<SpecExpr> },
    Unary { operator: SpecToken, right: Box<SpecExpr> },
    Factor { left: Box<SpecExpr>, operator: SpecToken, right: Box<SpecExpr> },
    Term { left: Box<SpecExpr>, operator: SpecToken, right: Box<SpecExpr> },
    Comparison { left: Box<SpecExpr>, operator: SpecToken, right: Box<SpecExpr> },
    Equality { left: Box<SpecExpr>, operator: SpecToken, right: Box<SpecExpr> },
    Logical { left: Box<SpecExpr>, operator: SpecToken, right: Box<SpecExpr> },
    Assign { name: SpecToken, value: Box<SpecExpr> },
    SetProp { object: Box<SpecExpr>, name: SpecToken, value: Box<SpecExpr> },
    Call { callee: Box<SpecExpr>, paren: SpecToken, arguments: Seq<SpecExpr> },
}

/// The mathematical model of a `Stmt`.
pub enum SpecStmt {
    Expression(SpecExpr),
    Block(Seq<SpecStmt>),
    Print(SpecExpr),
    Var { name: SpecToken, initializer: Option<SpecExpr> },
    If {
        condition: SpecExpr,
        then_branch: Box<SpecStmt>,
        else_branch: Option<Box<SpecStmt>>,
    },
    While { condition: SpecExpr, body: Box<SpecStmt> },
    Return { keyword: SpecToken, value: Option<SpecExpr> },
    Function { name: SpecToken, params: Seq<SpecToken>, body: Box<SpecStmt> },
    Class { name: SpecToken, superclass: Option<SpecToken>, methods: Seq<SpecStmt> },
}

pub open spec fn literal_view(l: Literal) -> SpecLiteral {
    match l {
        Literal::False => SpecLiteral::False,
        Literal::True => SpecLiteral::True,
        Literal::Nil => SpecLiteral::Nil,
        Literal::Number(s) => SpecLiteral::Number(s@),
        Literal::Str(s) => SpecLiteral::Str(s@),
    }
}

/// The model of an expression tree.
pub open spec fn expr_view(e: Expr) -> SpecExpr
    decreases e,
{
    match e {
        Expr::Literal(l) => SpecExpr::Literal(literal_view(l)),
        Expr::This { keyword } => SpecExpr::This { keyword: keyword@ },
        Expr::Variable { name } => SpecExpr::Variable { name: name@ },
        Expr::Grouping { group } => SpecExpr::Grouping { group: Box::new(expr_view(*group)) },
        Expr::Super { keyword, method } => SpecExpr::Super {
            keyword: keyword@,
            method: method@,
        },
        Expr::Get { name, object } => SpecExpr::Get {
            name: name@,
            object: Box::new(expr_view(*object)),
        },
        Expr::Unary { operator, right } => SpecExpr::Unary {
            operator: operator@,
            right: Box::new(expr_view(*right)),
        },
        Expr::Factor { left, operator, right } => SpecExpr::Factor {
            left: Box::new(expr_view(*left)),
            operator: operator@,
            right: Box::new(expr_view(*right)),
        },
        Expr::Term { left, operator, right } => SpecExpr::Term {
            left: Box::new(expr_view(*left)),
            operator: operator@,
            right: Box::new(expr_view(*right)),
        },
        Expr::Comparison { left, operator, right } => SpecExpr::Comparison {
            left: Box::new(expr_view(*left)),
            operator: operator@,
            right: Box::new(expr_view(*right)),
        },
        Expr::Equality { left, operator, right } => SpecExpr::Equality {
            left: Box::new(expr_view(*left)),
            operator: operator@,
            right: Box::new(expr_view(*right)),
        },
        Expr::Logical { left, operator, right } => SpecExpr::Logical {
            left: Box::new(expr_view(*left)),
            operator: operator@,
            right: Box::new(expr_view(*right)),
        },
        Expr::Assign { name, value } => SpecExpr::Assign {
            name: name@,
            value: Box::new(expr_view(*value)),
        },
        Expr::SetProp { object, name, value } => SpecExpr::SetProp {
            object: Box::new(expr_view(*object)),
            name: name@,
            value: Box::new(expr_view(*value)),
        },
        Expr::Call { callee, paren, arguments } => SpecExpr::Call {
            callee: Box::new(expr_view(*callee)),
            paren: paren@,
            arguments: Seq::new(
                arguments@.len(),
                |i: int|
                    if 0 <= i < arguments@.len() {
                        expr_view(arguments@[i])
                    } else {
                        SpecExpr::Literal(SpecLiteral::Nil)
                    },
            ),
        },
    }
}

/// The model of a sequence of expressions.
pub open spec fn exprs_view(es: Seq<Expr>) -> Seq<SpecExpr> {
    Seq::new(
        es.len(),
        |i: int|
            if 0 <= i < es.len() {
                expr_view(es[i])
            } else {
                SpecExpr::Literal(SpecLiteral::Nil)
            },
    )
}

/// The model of a statement tree.
pub open spec fn stmt_view(st: Stmt) -> SpecStmt
    decreases st,
{
    match st {
        Stmt::Expression(e) => SpecStmt::Expression(expr_view(e)),
        Stmt::Block(items) => SpecStmt::Block(
            Seq::new(
                items@.len(),
                |i: int|
                    if 0 <= i < items@.len() {
                        stmt_view(items@[i])
                    } else {
                        SpecStmt::Block(Seq::empty())
                    },
            ),
        ),
        Stmt::Print(e) => SpecStmt::Print(expr_view(e)),
        Stmt::Var { name, initializer } => SpecStmt::Var {
            name: name@,
            initializer: match initializer {
                Some(e) => Some(expr_view(e)),
                None => None,
            },
        },
        Stmt::If { condition, then_branch, else_branch } => SpecStmt::If {
            condition: expr_view(condition),
            then_branch: Box::new(stmt_view(*then_branch)),
            else_branch: match else_branch {
                Some(b) => Some(Box::new(stmt_view(*b))),
                None => None,
            },
        },
        Stmt::While { condition, body } => SpecStmt::While {
            condition: expr_view(condition),
            body: Box::new(stmt_view(*body)),
        },
        Stmt::Return { keyword, value } => SpecStmt::Return {
            keyword: keyword@,
            value: match value {
                Some(e) => Some(expr_view(e)),
                None => None,
            },
        },
        Stmt::Function { name, params, body } => SpecStmt::Function {
            name: name@,
            params: tokens_view(params@),
            body: Box::new(stmt_view(*body)),
        },
        Stmt::Class { name, superclass, methods } => SpecStmt::Class {
            name: name@,
            superclass: match superclass {
                Some(s) => Some(s@),
                None => None,
            },
            methods: Seq::new(
                methods@.len(),
                |i: int|
                    if 0 <= i < methods@.len() {
                        stmt_view(methods@[i])
                    } else {
                        SpecStmt::Block(Seq::empty())
                    },
            ),
        },
    }
}

/// The model of a sequence of statements.
pub open spec fn stmts_view(sts: Seq<Stmt>) -> Seq<SpecStmt> {
    Seq::new(
        sts.len(),
        |i: int|
            if 0 <= i < sts.len() {
                stmt_view(sts[i])
            } else {
                SpecStmt::Block(Seq::empty())
            },
    )
}

pub proof fn lemma_exprs_view_push(es: Seq<Expr>, e: Expr)
    ensures
        exprs_view(es.push(e)) =~= exprs_view(es).push(expr_view(e)),
{
}

pub proof fn lemma_stmts_view_push(sts: Seq<Stmt>, st: Stmt)
    ensures
        stmts_view(sts.push(st)) =~= stmts_view(sts).push(stmt_view(st)),
{
}

/// The model of a built call node, in terms of the models of its parts.
pub proof fn lemma_expr_view_call(e: Expr)
    ensures
        match e {
            Expr::Call { callee, paren, arguments } => expr_view(e) == (SpecExpr::Call {
                callee: Box::new(expr_view(*callee)),
                paren: paren@,
                arguments: exprs_view(arguments@),
            }),
            _ => true,
        },
{
    match e {
        Expr::Call { callee, paren, arguments } => {
            match expr_view(e) {
                SpecExpr::Call { arguments: a, .. } => {
                    assert(a =~= exprs_view(arguments@));
                },
                _ => {
                    assert(false);
                },
            }
        },
        _ => {},
    }
}

/// The model of a built block node, in terms of the models of its parts.
pub proof fn lemma_stmt_view_block(st: Stmt)
    ensures
        match st {
            Stmt::Block(items) => stmt_view(st) == SpecStmt::Block(stmts_view(items@)),
            _ => true,
        },
{
    match st {
        Stmt::Block(items) => {
            match stmt_view(st) {
                SpecStmt::Block(a) => {
                    assert(a =~= stmts_view(items@));
                },
                _ => {
                    assert(false);
                },
            }
        },
        _ => {},
    }
}

/// The model of a built class node, in terms of the models of its parts.
pub proof fn lemma_stmt_view_class(st: Stmt)
    ensures
        match st {
            Stmt::Class { name, superclass, methods } => stmt_view(st) == (SpecStmt::Class {
                name: name@,
                superclass: match superclass {
                    Some(s) => Some(s@),
                    None => None,
                },
                methods: stmts_view(methods@),
            }),
            _ => true,
        },
{
    match st {
        Stmt::Class { name, superclass, methods } => {
            match stmt_view(st) {
                SpecStmt::Class { methods: a, .. } => {
                    assert(a =~= stmts_view(methods@));
                },
                _ => {
                    assert(false);
                },
            }
        },
        _ => {},
    }
}

// ===========================================================================
// The mathematical model of parsing.
//
// Each grammar production has a model function over the token sequence and
// a cursor; it returns the parsed node (or the exact error) and the cursor
// after the attempt.  `Parser::parse` and each parsing method are proved to
// return precisely these values.  The `clampi` at each recursive position
// only makes termination manifest: the cursor always moves forward, so the
// clamp never changes a value.
// ===========================================================================
/// The failure reported on reading past the end of the token sequence.
pub open spec fn sp_eos_err() -> SpecRuntimeError {
    SpecRuntimeError::GeneralError("Unexpected end of token stream"@)
}

/// Whether the cursor is at the end of parsable input.
pub open spec fn sp_at_end(ts: Seq<SpecToken>, pos: int) -> bool {
    !(0 <= pos < ts.len()) || ts[pos].value == TokenValue::Eof
}

/// Whether the token at the cursor has kind `v`.
pub open spec fn sp_check(ts: Seq<SpecToken>, pos: int, v: TokenValue) -> bool {
    0 <= pos < ts.len() && ts[pos].value == v
}

/// Consuming one token of kind `v`: the token and the advanced cursor, or
/// a parse error carrying `msg` and the offending token.
pub open spec fn sp_consume(ts: Seq<SpecToken>, pos: int, v: TokenValue, msg: Seq<char>) -> (
    Result<SpecToken, SpecRuntimeError>,
    int,
) {
    if !(0 <= pos < ts.len()) {
        (Err(sp_eos_err()), pos)
    } else if ts[pos].value == v {
        (Ok(ts[pos]), pos + 1)
    } else {
        (Err(SpecRuntimeError::ParseError(msg, ts[pos])), pos)
    }
}

/// Consuming one identifier token.
pub open spec fn sp_consume_identifier(ts: Seq<SpecToken>, pos: int, msg: Seq<char>) -> (
    Result<SpecToken, SpecRuntimeError>,
    int,
) {
    sp_consume(ts, pos, TokenValue::Identifier, msg)
}

pub open spec fn sp_primary(ts: Seq<SpecToken>, pos: int) -> (
    Result<SpecExpr, SpecRuntimeError>,
    int,
)
    decreases ts.len() - pos, 2int,
{
    if !(0 <= pos < ts.len()) {
        (Err(sp_eos_err()), pos)
    } else {
        let t = ts[pos];
        if t.value == TokenValue::True {
            (Ok(SpecExpr::Literal(SpecLiteral::True)), pos + 1)
        } else if t.value == TokenValue::False {
            (Ok(SpecExpr::Literal(SpecLiteral::False)), pos + 1)
        } else if t.value == TokenValue::Nil {
            (Ok(SpecExpr::Literal(SpecLiteral::Nil)), pos + 1)
        } else if t.value == TokenValue::This {
            (Ok(SpecExpr::This { keyword: t }), pos + 1)
        } else if t.value == TokenValue::Number {
            (Ok(SpecExpr::Literal(SpecLiteral::Number(t.lexeme))), pos + 1)
        } else if t.value == TokenValue::StringLit {
            (Ok(SpecExpr::Literal(SpecLiteral::Str(t.lexeme))), pos + 1)
        } else if t.value == TokenValue::Identifier {
            (Ok(SpecExpr::Variable { name: t }), pos + 1)
        } else if t.value == TokenValue::LeftParen {
            let (r1, p1) = sp_expression(ts, clampi(pos + 1, pos + 1, ts.len() as int));
            match r1 {
                Ok(inner) => {
                    let (r2, p2) = sp_consume(
                        ts,
                        p1,
                        TokenValue::RightParen,
                        "Expected `)` after expression"@,
                    );
                    match r2 {
                        Ok(_) => (Ok(SpecExpr::Grouping { group: Box::new(inner) }), p2),
                        Err(e) => (Err(e), p2),
                    }
                },
                Err(e) => (Err(e), p1),
            }
        } else if t.value == TokenValue::Super {
            let (r1, p1) = sp_consume(ts, pos + 1, TokenValue::Dot, "Expected `.` after `super`"@);
            match r1 {
                Ok(_) => {
                    let (r2, p2) = sp_consume_identifier(
                        ts,
                        p1,
                        "Expected superclass method name"@,
                    );
                    match r2 {
                        Ok(method) => (Ok(SpecExpr::Super { keyword: t, method }), p2),
                        Err(e) => (Err(e), p2),
                    }
                },
                Err(e) => (Err(e), p1),
            }
        } else {
            (Err(SpecRuntimeError::ParseError("Expected expression"@, t)), pos)
        }
    }
}

/// The comma-separated argument expressions after a call's `(`.
pub open spec fn sp_call_args(ts: Seq<SpecToken>, pos: int, acc: Seq<SpecExpr>) -> (
    Result<Seq<SpecExpr>, SpecRuntimeError>,
    int,
)
    decreases ts.len() - pos, 25int,
{
    if !(0 <= pos < ts.len()) {
        (Err(sp_eos_err()), pos)
    } else {
        let (r1, p1) = sp_expression(ts, pos);
        match r1 {
            Ok(e) => {
                if sp_check(ts, p1, TokenValue::Comma) {
                    sp_call_args(ts, clampi(p1 + 1, pos + 1, ts.len() as int), acc.push(e))
                } else {
                    (Ok(acc.push(e)), p1)
                }
            },
            Err(e) => (Err(e), p1),
        }
    }
}

/// The trailing call/property chain after a parsed callee.
pub open spec fn sp_call_tail(ts: Seq<SpecToken>, pos: int, acc: SpecExpr) -> (
    Result<SpecExpr, SpecRuntimeError>,
    int,
)
    decreases ts.len() - pos, 3int,
{
    if !(0 <= pos < ts.len()) {
        (Ok(acc), pos)
    } else if sp_check(ts, pos, TokenValue::LeftParen) {
        if sp_check(ts, pos + 1, TokenValue::RightParen) {
            let paren = ts[pos + 1];
            sp_call_tail(
                ts,
                clampi(pos + 2, pos + 1, ts.len() as int),
                SpecExpr::Call { callee: Box::new(acc), paren, arguments: Seq::empty() },
            )
        } else {
            let (ar, p2) = sp_call_args(
                ts,
                clampi(pos + 1, pos + 1, ts.len() as int),
                Seq::empty(),
            );
            match ar {
                Ok(args) => {
                    let (r2, p3) = sp_consume(
                        ts,
                        p2,
                        TokenValue::RightParen,
                        "Expected `)` after arguments"@,
                    );
                    match r2 {
                        Ok(paren) => {
                            if args.len() > 255 {
                                (
                                    Err(SpecRuntimeError::ParseError("Too many arguments"@, paren)),
                                    p3,
                                )
                            } else {
                                sp_call_tail(
                                    ts,
                                    clampi(p3, pos + 1, ts.len() as int),
                                    SpecExpr::Call { callee: Box::new(acc), paren, arguments: args },
                                )
                            }
                        },
                        Err(e) => (Err(e), p3),
                    }
                },
                Err(e) => (Err(e), p2),
            }
        }
    } else if sp_check(ts, pos, TokenValue::Dot) {
        let (r1, p1) = sp_consume_identifier(ts, pos + 1, "Expected property name after `.`"@);
        match r1 {
            Ok(name) => sp_call_tail(
                ts,
                clampi(p1, pos + 1, ts.len() as int),
                SpecExpr::Get { name, object: Box::new(acc) },
            ),
            Err(e) => (Err(e), p1),
        }
    } else {
        (Ok(acc), pos)
    }
}

pub open spec fn sp_call(ts: Seq<SpecToken>, pos: int) -> (Result<SpecExpr, SpecRuntimeError>, int)
    decreases ts.len() - pos, 4int,
{
    if !(0 <= pos < ts.len()) {
        (Err(sp_eos_err()), pos)
    } else {
        let (r1, p1) = sp_primary(ts, pos);
        match r1 {
            Ok(e) => sp_call_tail(ts, clampi(p1, pos + 1, ts.len() as int), e),
            Err(e) => (Err(e), p1),
        }
    }
}

pub open spec fn sp_unary(ts: Seq<SpecToken>, pos: int) -> (Result<SpecExpr, SpecRuntimeError>, int)
    decreases ts.len() - pos, 5int,
{
    if !(0 <= pos < ts.len()) {
        (Err(sp_eos_err()), pos)
    } else if sp_check(ts, pos, TokenValue::Bang) || sp_check(ts, pos, TokenValue::Minus) {
        let operator = ts[pos];
        let (r1, p1) = sp_unary(ts, clampi(pos + 1, pos + 1, ts.len() as int));
        match r1 {
            Ok(right) => (Ok(SpecExpr::Unary { operator, right: Box::new(right) }), p1),
            Err(e) => (Err(e), p1),
        }
    } else {
        sp_call(ts, pos)
    }
}

/// One left-associative binary level: fold further operands onto `acc`
/// while the cursor holds one of the level's operators.  `factor` is the
/// `/ *` level over unary operands.
pub open spec fn sp_factor_tail(ts: Seq<SpecToken>, pos: int, acc: SpecExpr) -> (
    Result<SpecExpr, SpecRuntimeError>,
    int,
)
    decreases ts.len() - pos, 6int,
{
    if !(0 <= pos < ts.len()) {
        (Ok(acc), pos)
    } else if sp_check(ts, pos, TokenValue::Star) || sp_check(ts, pos, TokenValue::Slash) {
        let operator = ts[pos];
        let (r1, p1) = sp_unary(ts, clampi(pos + 1, pos + 1, ts.len() as int));
        match r1 {
            Ok(right) => sp_factor_tail(
                ts,
                clampi(p1, pos + 1, ts.len() as int),
                SpecExpr::Factor {
                    left: Box::new(acc),
                    operator,
                    right: Box::new(right),
                },
            ),
            Err(e) => (Err(e), p1),
        }
    } else {
        (Ok(acc), pos)
    }
}

pub open spec fn sp_factor(ts: Seq<SpecToken>, pos: int) -> (
    Result<SpecExpr, SpecRuntimeError>,
    int,
)
    decreases ts.len() - pos, 7int,
{
    if !(0 <= pos < ts.len()) {
        (Err(sp_eos_err()), pos)
    } else {
        let (r1, p1) = sp_unary(ts, pos);
        match r1 {
            Ok(first) => sp_factor_tail(ts, clampi(p1, pos + 1, ts.len() as int), first),
            Err(e) => (Err(e), p1),
        }
    }
}

/// The `- +` level over factor operands.
pub open spec fn sp_term_tail(ts: Seq<SpecToken>, pos: int, acc: SpecExpr) -> (
    Result<SpecExpr, SpecRuntimeError>,
    int,
)
    decreases ts.len() - pos, 8int,
{
    if !(0 <= pos < ts.len()) {
        (Ok(acc), pos)
    } else if sp_check(ts, pos, TokenValue::Minus) || sp_check(ts, pos, TokenValue::Plus) {
        let operator = ts[pos];
        let (r1, p1) = sp_factor(ts, clampi(pos + 1, pos + 1, ts.len() as int));
        match r1 {
            Ok(right) => sp_term_tail(
                ts,
                clampi(p1, pos + 1, ts.len() as int),
                SpecExpr::Term { left: Box::new(acc), operator, right: Box::new(right) },
            ),
            Err(e) => (Err(e), p1),
        }
    } else {
        (Ok(acc), pos)
    }
}

pub open spec fn sp_term(ts: Seq<SpecToken>, pos: int) -> (Result<SpecExpr, SpecRuntimeError>, int)
    decreases ts.len() - pos, 9int,
{
    if !(0 <= pos < ts.len()) {
        (Err(sp_eos_err()), pos)
    } else {
        let (r1, p1) = sp_factor(ts, pos);
        match r1 {
            Ok(first) => sp_term_tail(ts, clampi(p1, pos + 1, ts.len() as int), first),
            Err(e) => (Err(e), p1),
        }
    }
}

/// The `> >= < <=` level over term operands.
pub open spec fn sp_comparison_tail(ts: Seq<SpecToken>, pos: int, acc: SpecExpr) -> (
    Result<SpecExpr, SpecRuntimeError>,
    int,
)
    decreases ts.len() - pos, 10int,
{
    if !(0 <= pos < ts.len()) {
        (Ok(acc), pos)
    } else if sp_check(ts, pos, TokenValue::Greater) || sp_check(ts, pos, TokenValue::GreaterEqual)
        || sp_check(ts, pos, TokenValue::Less) || sp_check(ts, pos, TokenValue::LessEqual) {
        let operator = ts[pos];
        let (r1, p1) = sp_term(ts, clampi(pos + 1, pos + 1, ts.len() as int));
        match r1 {
            Ok(right) => sp_comparison_tail(
                ts,
                clampi(p1, pos + 1, ts.len() as int),
                SpecExpr::Comparison {
                    left: Box::new(acc),
                    operator,
                    right: Box::new(right),
                },
            ),
            Err(e) => (Err(e), p1),
        }
    } else {
        (Ok(acc), pos)
    }
}

pub open spec fn sp_comparison(ts: Seq<SpecToken>, pos: int) -> (
    Result<SpecExpr, SpecRuntimeError>,
    int,
)
    decreases ts.len() - pos, 11int,
{
    if !(0 <= pos < ts.len()) {
        (Err(sp_eos_err()), pos)
    } else {
        let (r1, p1) = sp_term(ts, pos);
        match r1 {
            Ok(first) => sp_comparison_tail(ts, clampi(p1, pos + 1, ts.len() as int), first),
            Err(e) => (Err(e), p1),
        }
    }
}

/// The `!= ==` level over comparison operands.
pub open spec fn sp_equality_tail(ts: Seq<SpecToken>, pos: int, acc: SpecExpr) -> (
    Result<SpecExpr, SpecRuntimeError>,
    int,
)
    decreases ts.len() - pos, 12int,
{
    if !(0 <= pos < ts.len()) {
        (Ok(acc), pos)
    } else if sp_check(ts, pos, TokenValue::BangEqual) || sp_check(ts, pos, TokenValue::EqualEqual) {
        let operator = ts[pos];
        let (r1, p1) = sp_comparison(ts, clampi(pos + 1, pos + 1, ts.len() as int));
        match r1 {
            Ok(right) => sp_equality_tail(
                ts,
                clampi(p1, pos + 1, ts.len() as int),
                SpecExpr::Equality {
                    left: Box::new(acc),
                    operator,
                    right: Box::new(right),
                },
            ),
            Err(e) => (Err(e), p1),
        }
    } else {
        (Ok(acc), pos)
    }
}

pub open spec fn sp_equality(ts: Seq<SpecToken>, pos: int) -> (
    Result<SpecExpr, SpecRuntimeError>,
    int,
)
    decreases ts.len() - pos, 13int,
{
    if !(0 <= pos < ts.len()) {
        (Err(sp_eos_err()), pos)
    } else {
        let (r1, p1) = sp_comparison(ts, pos);
        match r1 {
            Ok(first) => sp_equality_tail(ts, clampi(p1, pos + 1, ts.len() as int), first),
            Err(e) => (Err(e), p1),
        }
    }
}

/// The `and` level over equality operands.
pub open spec fn sp_and_tail(ts: Seq<SpecToken>, pos: int, acc: SpecExpr) -> (
    Result<SpecExpr, SpecRuntimeError>,
    int,
)
    decreases ts.len() - pos, 14int,
{
    if !(0 <= pos < ts.len()) {
        (Ok(acc), pos)
    } else if sp_check(ts, pos, TokenValue::And) {
        let operator = ts[pos];
        let (r1, p1) = sp_equality(ts, clampi(pos + 1, pos + 1, ts.len() as int));
        match r1 {
            Ok(right) => sp_and_tail(
                ts,
                clampi(p1, pos + 1, ts.len() as int),
                SpecExpr::Logical {
                    left: Box::new(acc),
                    operator,
                    right: Box::new(right),
                },
            ),
            Err(e) => (Err(e), p1),
        }
    } else {
        (Ok(acc), pos)
    }
}

pub open spec fn sp_logic_and(ts: Seq<SpecToken>, pos: int) -> (
    Result<SpecExpr, SpecRuntimeError>,
    int,
)
    decreases ts.len() - pos, 15int,
{
    if !(0 <= pos < ts.len()) {
        (Err(sp_eos_err()), pos)
    } else {
        let (r1, p1) = sp_equality(ts, pos);
        match r1 {
            Ok(first) => sp_and_tail(ts, clampi(p1, pos + 1, ts.len() as int), first),
            Err(e) => (Err(e), p1),
        }
    }
}

/// The `or` level over logic_and operands.
pub open spec fn sp_or_tail(ts: Seq<SpecToken>, pos: int, acc: SpecExpr) -> (
    Result<SpecExpr, SpecRuntimeError>,
    int,
)
    decreases ts.len() - pos, 16int,
{
    if !(0 <= pos < ts.len()) {
        (Ok(acc), pos)
    } else if sp_check(ts, pos, TokenValue::Or) {
        let operator = ts[pos];
        let (r1, p1) = sp_logic_and(ts, clampi(pos + 1, pos + 1, ts.len() as int));
        match r1 {
            Ok(right) => sp_or_tail(
                ts,
                clampi(p1, pos + 1, ts.len() as int),
                SpecExpr::Logical {
                    left: Box::new(acc),
                    operator,
                    right: Box::new(right),
                },
            ),
            Err(e) => (Err(e), p1),
        }
    } else {
        (Ok(acc), pos)
    }
}

pub open spec fn sp_logic_or(ts: Seq<SpecToken>, pos: int) -> (
    Result<SpecExpr, SpecRuntimeError>,
    int,
)
    decreases ts.len() - pos, 17int,
{
    if !(0 <= pos < ts.len()) {
        (Err(sp_eos_err()), pos)
    } else {
        let (r1, p1) = sp_logic_and(ts, pos);
        match r1 {
            Ok(first) => sp_or_tail(ts, clampi(p1, pos + 1, ts.len() as int), first),
            Err(e) => (Err(e), p1),
        }
    }
}

/// Assignment: a parsed `logic_or` followed by `=` must be a settable
/// target (a variable becomes `Assign`, a property access becomes `Set`);
/// any other shape is an invalid-assignment-target error.
pub open spec fn sp_assignment(ts: Seq<SpecToken>, pos: int) -> (
    Result<SpecExpr, SpecRuntimeError>,
    int,
)
    decreases ts.len() - pos, 18int,
{
    if !(0 <= pos < ts.len()) {
        (Err(sp_eos_err()), pos)
    } else {
        let (r1, p1) = sp_logic_or(ts, pos);
        match r1 {
            Ok(lhs) => {
                if sp_check(ts, p1, TokenValue::Equal) {
                    let (r2, p2) = sp_assignment(ts, clampi(p1 + 1, pos + 1, ts.len() as int));
                    match r2 {
                        Ok(value) => match lhs {
                            SpecExpr::Variable { name } => (
                                Ok(SpecExpr::Assign { name, value: Box::new(value) }),
                                p2,
                            ),
                            SpecExpr::Get { name, object } => (
                                Ok(SpecExpr::SetProp { object, name, value: Box::new(value) }),
                                p2,
                            ),
                            _ => (
                                Err(
                                    SpecRuntimeError::InvalidArgumentTarget(
                                        "Invalid assignment target"@,
                                    ),
                                ),
                                p2,
                            ),
                        },
                        Err(e) => (Err(e), p2),
                    }
                } else {
                    (Ok(lhs), p1)
                }
            },
            Err(e) => (Err(e), p1),
        }
    }
}

#[verifier::opaque]
pub open spec fn sp_expression(ts: Seq<SpecToken>, pos: int) -> (
    Result<SpecExpr, SpecRuntimeError>,
    int,
)
    decreases ts.len() - pos, 19int,
{
    if !(0 <= pos < ts.len()) {
        (Err(sp_eos_err()), pos)
    } else {
        sp_assignment(ts, pos)
    }
}

/// An expression statement: an expression followed by a mandatory `;`.
pub open spec fn sp_expression_statement(ts: Seq<SpecToken>, pos: int) -> (
    Result<SpecStmt, SpecRuntimeError>,
    int,
)
    decreases ts.len() - pos, 20int,
{
    if !(0 <= pos < ts.len()) {
        (Err(sp_eos_err()), pos)
    } else {
        let (r1, p1) = sp_expression(ts, pos);
        match r1 {
            Ok(e) => {
                let (r2, p2) = sp_consume(
                    ts,
                    p1,
                    TokenValue::Semicolon,
                    "Expected `;` after expression"@,
                );
                match r2 {
                    Ok(_) => (Ok(SpecStmt::Expression(e)), p2),
                    Err(er) => (Err(er), p2),
                }
            },
            Err(e) => (Err(e), p1),
        }
    }
}

/// The declarations of a block, up to and including the closing `}`.
pub open spec fn sp_block_items(ts: Seq<SpecToken>, pos: int, acc: Seq<SpecStmt>) -> (
    Result<Seq<SpecStmt>, SpecRuntimeError>,
    int,
)
    decreases ts.len() - pos, 23int,
{
    if !(0 <= pos < ts.len()) {
        (Err(sp_eos_err()), pos)
    } else if sp_check(ts, pos, TokenValue::RightBrace) {
        (Ok(acc), pos + 1)
    } else {
        let (r1, p1) = sp_declaration(ts, pos);
        match r1 {
            Ok(st) => sp_block_items(ts, clampi(p1, pos + 1, ts.len() as int), acc.push(st)),
            Err(e) => (Err(e), p1),
        }
    }
}

/// A block: `{`, declarations, `}`.
pub open spec fn sp_block(ts: Seq<SpecToken>, pos: int) -> (Result<SpecStmt, SpecRuntimeError>, int)
    decreases ts.len() - pos, 20int,
{
    if !(0 <= pos < ts.len()) {
        (Err(sp_eos_err()), pos)
    } else {
        let (r1, p1) = sp_block_items(ts, clampi(pos + 1, pos + 1, ts.len() as int), Seq::empty());
        match r1 {
            Ok(items) => (Ok(SpecStmt::Block(items)), p1),
            Err(e) => (Err(e), p1),
        }
    }
}


/// A print statement: `print` expression `;`.
pub open spec fn sp_print_statement(ts: Seq<SpecToken>, pos: int) -> (
    Result<SpecStmt, SpecRuntimeError>,
    int,
)
    decreases ts.len() - pos, 20int,
{
    if !(0 <= pos < ts.len()) {
        (Err(sp_eos_err()), pos)
    } else {
        let (r1, p1) = sp_expression(ts, clampi(pos + 1, pos + 1, ts.len() as int));
        match r1 {
            Ok(e) => {
                let (r2, p2) = sp_consume(ts, p1, TokenValue::Semicolon, "Expected `;` after value"@);
                match r2 {
                    Ok(_) => (Ok(SpecStmt::Print(e)), p2),
                    Err(er) => (Err(er), p2),
                }
            },
            Err(e) => (Err(e), p1),
        }
    }
}

/// A return statement: `return` expression? `;`.
pub open spec fn sp_return_statement(ts: Seq<SpecToken>, pos: int) -> (
    Result<SpecStmt, SpecRuntimeError>,
    int,
)
    decreases ts.len() - pos, 20int,
{
    if !(0 <= pos < ts.len()) {
        (Err(sp_eos_err()), pos)
    } else {
        let keyword = ts[pos];
        if sp_check(ts, pos + 1, TokenValue::Semicolon) {
            (Ok(SpecStmt::Return { keyword, value: None }), pos + 2)
        } else {
            let (r1, p1) = sp_expression(ts, clampi(pos + 1, pos + 1, ts.len() as int));
            match r1 {
                Ok(e) => {
                    let (r2, p2) = sp_consume(
                        ts,
                        p1,
                        TokenValue::Semicolon,
                        "Expected `;` after return value"@,
                    );
                    match r2 {
                        Ok(_) => (Ok(SpecStmt::Return { keyword, value: Some(e) }), p2),
                        Err(er) => (Err(er), p2),
                    }
                },
                Err(e) => (Err(e), p1),
            }
        }
    }
}

/// A variable declaration: `var` IDENTIFIER ( `=` expression )? `;`.
pub open spec fn sp_var_declaration(ts: Seq<SpecToken>, pos: int) -> (
    Result<SpecStmt, SpecRuntimeError>,
    int,
)
    decreases ts.len() - pos, 20int,
{
    if !(0 <= pos < ts.len()) {
        (Err(sp_eos_err()), pos)
    } else {
        let (rn, p1) = sp_consume_identifier(ts, pos + 1, "Expected variable name"@);
        match rn {
            Ok(name) => {
                if sp_check(ts, p1, TokenValue::Equal) {
                    let (r1, p2) = sp_expression(ts, clampi(p1 + 1, pos + 1, ts.len() as int));
                    match r1 {
                        Ok(e) => {
                            let (r2, p3) = sp_consume(
                                ts,
                                p2,
                                TokenValue::Semicolon,
                                "Expected `;` after variable declaration"@,
                            );
                            match r2 {
                                Ok(_) => (
                                    Ok(SpecStmt::Var { name, initializer: Some(e) }),
                                    p3,
                                ),
                                Err(er) => (Err(er), p3),
                            }
                        },
                        Err(e) => (Err(e), p2),
                    }
                } else {
                    let (r2, p2) = sp_consume(
                        ts,
                        p1,
                        TokenValue::Semicolon,
                        "Expected `;` after variable declaration"@,
                    );
                    match r2 {
                        Ok(_) => (Ok(SpecStmt::Var { name, initializer: None }), p2),
                        Err(er) => (Err(er), p2),
                    }
                }
            },
            Err(e) => (Err(e), p1),
        }
    }
}

/// A while statement: `while` `(` expression `)` statement.
pub open spec fn sp_while_statement(ts: Seq<SpecToken>, pos: int) -> (
    Result<SpecStmt, SpecRuntimeError>,
    int,
)
    decreases ts.len() - pos, 20int,
{
    if !(0 <= pos < ts.len()) {
        (Err(sp_eos_err()), pos)
    } else {
        let (rp, p1) = sp_consume(ts, pos + 1, TokenValue::LeftParen, "Expected `(` after `while`"@);
        match rp {
            Ok(_) => {
                let (rc, p2) = sp_expression(ts, clampi(p1, pos + 1, ts.len() as int));
                match rc {
                    Ok(condition) => {
                        let (rq, p3) = sp_consume(
                            ts,
                            p2,
                            TokenValue::RightParen,
                            "Expected `)` after condition"@,
                        );
                        match rq {
                            Ok(_) => {
                                let (rb, p4) = sp_statement(
                                    ts,
                                    clampi(p3, pos + 1, ts.len() as int),
                                );
                                match rb {
                                    Ok(body) => (
                                        Ok(
                                            SpecStmt::While {
                                                condition,
                                                body: Box::new(body),
                                            },
                                        ),
                                        p4,
                                    ),
                                    Err(e) => (Err(e), p4),
                                }
                            },
                            Err(e) => (Err(e), p3),
                        }
                    },
                    Err(e) => (Err(e), p2),
                }
            },
            Err(e) => (Err(e), p1),
        }
    }
}

/// An if statement: `if` `(` expression `)` statement ( `else` statement )?.
pub open spec fn sp_if_statement(ts: Seq<SpecToken>, pos: int) -> (
    Result<SpecStmt, SpecRuntimeError>,
    int,
)
    decreases ts.len() - pos, 20int,
{
    if !(0 <= pos < ts.len()) {
        (Err(sp_eos_err()), pos)
    } else {
        let (rp, p1) = sp_consume(ts, pos + 1, TokenValue::LeftParen, "Expected `(` after `if`"@);
        match rp {
            Ok(_) => {
                let (rc, p2) = sp_expression(ts, clampi(p1, pos + 1, ts.len() as int));
                match rc {
                    Ok(condition) => {
                        let (rq, p3) = sp_consume(
                            ts,
                            p2,
                            TokenValue::RightParen,
                            "Expected `)` after condition"@,
                        );
                        match rq {
                            Ok(_) => {
                                let (rt, p4) = sp_statement(
                                    ts,
                                    clampi(p3, pos + 1, ts.len() as int),
                                );
                                match rt {
                                    Ok(then_branch) => {
                                        if sp_check(ts, p4, TokenValue::Else) {
                                            let (re, p5) = sp_statement(
                                                ts,
                                                clampi(p4 + 1, pos + 1, ts.len() as int),
                                            );
                                            match re {
                                                Ok(else_branch) => (
                                                    Ok(
                                                        SpecStmt::If {
                                                            condition,
                                                            then_branch: Box::new(then_branch),
                                                            else_branch: Some(
                                                                Box::new(else_branch),
                                                            ),
                                                        },
                                                    ),
                                                    p5,
                                                ),
                                                Err(e) => (Err(e), p5),
                                            }
                                        } else {
                                            (
                                                Ok(
                                                    SpecStmt::If {
                                                        condition,
                                                        then_branch: Box::new(then_branch),
                                                        else_branch: None,
                                                    },
                                                ),
                                                p4,
                                            )
                                        }
                                    },
                                    Err(e) => (Err(e), p4),
                                }
                            },
                            Err(e) => (Err(e), p3),
                        }
                    },
                    Err(e) => (Err(e), p2),
                }
            },
            Err(e) => (Err(e), p1),
        }
    }
}

/// A parameter list: identifiers separated by commas.
pub open spec fn sp_params(ts: Seq<SpecToken>, pos: int, acc: Seq<SpecToken>) -> (
    Result<Seq<SpecToken>, SpecRuntimeError>,
    int,
)
    decreases ts.len() - pos, 0int,
{
    if !(0 <= pos < ts.len()) {
        (Err(sp_eos_err()), pos)
    } else {
        let (r1, p1) = sp_consume_identifier(ts, pos, "Expected parameter name"@);
        match r1 {
            Ok(param) => {
                if sp_check(ts, p1, TokenValue::Comma) {
                    sp_params(ts, clampi(p1 + 1, pos + 1, ts.len() as int), acc.push(param))
                } else {
                    (Ok(acc.push(param)), p1)
                }
            },
            Err(e) => (Err(e), p1),
        }
    }
}

/// A function production: IDENTIFIER `(` parameters? `)` block.  It serves
/// both function declarations and class methods.
pub open spec fn sp_function(ts: Seq<SpecToken>, pos: int) -> (
    Result<SpecStmt, SpecRuntimeError>,
    int,
)
    decreases ts.len() - pos, 20int,
{
    if !(0 <= pos < ts.len()) {
        (Err(sp_eos_err()), pos)
    } else {
        let (rn, p1) = sp_consume_identifier(ts, pos, "Expected function name"@);
        match rn {
            Ok(name) => {
                let (rp, p2) = sp_consume(
                    ts,
                    p1,
                    TokenValue::LeftParen,
                    "Expected `(` after function name"@,
                );
                match rp {
                    Ok(_) => {
                        let (rps, p3) = if sp_check(ts, p2, TokenValue::RightParen) {
                            (Ok(Seq::<SpecToken>::empty()), p2)
                        } else {
                            sp_params(ts, clampi(p2, pos + 1, ts.len() as int), Seq::empty())
                        };
                        match rps {
                            Ok(params) => {
                                let (rq, p4) = sp_consume(
                                    ts,
                                    p3,
                                    TokenValue::RightParen,
                                    "Expected `)` after parameters"@,
                                );
                                match rq {
                                    Ok(_) => {
                                        if sp_check(ts, p4, TokenValue::LeftBrace) {
                                            let (rb, p5) = sp_block(
                                                ts,
                                                clampi(p4, pos + 1, ts.len() as int),
                                            );
                                            match rb {
                                                Ok(body) => (
                                                    Ok(
                                                        SpecStmt::Function {
                                                            name,
                                                            params,
                                                            body: Box::new(body),
                                                        },
                                                    ),
                                                    p5,
                                                ),
                                                Err(e) => (Err(e), p5),
                                            }
                                        } else if !(0 <= p4 < ts.len()) {
                                            (Err(sp_eos_err()), p4)
                                        } else {
                                            (
                                                Err(
                                                    SpecRuntimeError::ParseError(
                                                        "Expected `{` before function body"@,
                                                        ts[p4],
                                                    ),
                                                ),
                                                p4,
                                            )
                                        }
                                    },
                                    Err(e) => (Err(e), p4),
                                }
                            },
                            Err(e) => (Err(e), p3),
                        }
                    },
                    Err(e) => (Err(e), p2),
                }
            },
            Err(e) => (Err(e), p1),
        }
    }
}

/// The methods of a class body, up to and including the closing `}`.
pub open spec fn sp_class_methods(ts: Seq<SpecToken>, pos: int, acc: Seq<SpecStmt>) -> (
    Result<Seq<SpecStmt>, SpecRuntimeError>,
    int,
)
    decreases ts.len() - pos, 21int,
{
    if !(0 <= pos < ts.len()) {
        (Err(sp_eos_err()), pos)
    } else if sp_check(ts, pos, TokenValue::RightBrace) {
        (Ok(acc), pos + 1)
    } else {
        let (r1, p1) = sp_function(ts, pos);
        match r1 {
            Ok(m) => sp_class_methods(ts, clampi(p1, pos + 1, ts.len() as int), acc.push(m)),
            Err(e) => (Err(e), p1),
        }
    }
}

/// A class declaration: `class` IDENTIFIER ( `<` IDENTIFIER )? `{`
/// function* `}`.
pub open spec fn sp_class_declaration(ts: Seq<SpecToken>, pos: int) -> (
    Result<SpecStmt, SpecRuntimeError>,
    int,
)
    decreases ts.len() - pos, 20int,
{
    if !(0 <= pos < ts.len()) {
        (Err(sp_eos_err()), pos)
    } else {
        let (rn, p1) = sp_consume_identifier(ts, pos + 1, "Expected class name"@);
        match rn {
            Ok(name) => {
                let (rs, p2) = if sp_check(ts, p1, TokenValue::Less) {
                    let (ri, pi) = sp_consume_identifier(ts, p1 + 1, "Expected superclass name"@);
                    match ri {
                        Ok(s) => (Ok(Some(s)), pi),
                        Err(e) => (Err(e), pi),
                    }
                } else {
                    (Ok(None), p1)
                };
                match rs {
                    Ok(superclass) => {
                        let (rb, p3) = sp_consume(
                            ts,
                            p2,
                            TokenValue::LeftBrace,
                            "Expected `{` before class body"@,
                        );
                        match rb {
                            Ok(_) => {
                                let (rm, p4) = sp_class_methods(
                                    ts,
                                    clampi(p3, pos + 1, ts.len() as int),
                                    Seq::empty(),
                                );
                                match rm {
                                    Ok(methods) => (
                                        Ok(SpecStmt::Class { name, superclass, methods }),
                                        p4,
                                    ),
                                    Err(e) => (Err(e), p4),
                                }
                            },
                            Err(e) => (Err(e), p3),
                        }
                    },
                    Err(e) => (Err(e), p2),
                }
            },
            Err(e) => (Err(e), p1),
        }
    }
}

/// A for loop's initializer clause: `;` for none, a variable declaration,
/// or an expression statement.
pub open spec fn sp_for_init(ts: Seq<SpecToken>, pos: int) -> (
    Result<Option<SpecStmt>, SpecRuntimeError>,
    int,
)
    decreases ts.len() - pos, 21int,
{
    if !(0 <= pos < ts.len()) {
        (Err(sp_eos_err()), pos)
    } else if sp_check(ts, pos, TokenValue::Semicolon) {
        (Ok(None), pos + 1)
    } else if sp_check(ts, pos, TokenValue::Var) {
        let (r, p) = sp_var_declaration(ts, pos);
        match r {
            Ok(st) => (Ok(Some(st)), p),
            Err(e) => (Err(e), p),
        }
    } else {
        let (r, p) = sp_expression_statement(ts, pos);
        match r {
            Ok(st) => (Ok(Some(st)), p),
            Err(e) => (Err(e), p),
        }
    }
}

/// A for statement: `for` `(` initializer condition? `;` increment? `)`
/// statement, desugared into the equivalent `While` (wrapped in blocks for
/// the initializer and the increment; a missing condition is `true`).
pub open spec fn sp_for_statement(ts: Seq<SpecToken>, pos: int) -> (
    Result<SpecStmt, SpecRuntimeError>,
    int,
)
    decreases ts.len() - pos, 20int,
{
    if !(0 <= pos < ts.len()) {
        (Err(sp_eos_err()), pos)
    } else {
        let (rp, p1) = sp_consume(ts, pos + 1, TokenValue::LeftParen, "Expected `(` after `for`"@);
        match rp {
            Ok(_) => {
                let (ri, p2) = sp_for_init(ts, clampi(p1, pos + 1, ts.len() as int));
                match ri {
                    Ok(initializer) => {
                        let (rc, p3) = if sp_check(ts, p2, TokenValue::Semicolon) {
                            (Ok(None), p2)
                        } else {
                            let (re, pe) = sp_expression(ts, clampi(p2, pos + 1, ts.len() as int));
                            match re {
                                Ok(c) => (Ok(Some(c)), pe),
                                Err(e) => (Err(e), pe),
                            }
                        };
                        match rc {
                            Ok(condition) => {
                                let (rs, p4) = sp_consume(
                                    ts,
                                    p3,
                                    TokenValue::Semicolon,
                                    "Expected `;` after loop condition"@,
                                );
                                match rs {
                                    Ok(_) => {
                                        let (rn, p5) = if sp_check(ts, p4, TokenValue::RightParen) {
                                            (Ok(None), p4)
                                        } else {
                                            let (re, pe) = sp_expression(
                                                ts,
                                                clampi(p4, pos + 1, ts.len() as int),
                                            );
                                            match re {
                                                Ok(c) => (Ok(Some(c)), pe),
                                                Err(e) => (Err(e), pe),
                                            }
                                        };
                                        match rn {
                                            Ok(increment) => {
                                                let (rq, p6) = sp_consume(
                                                    ts,
                                                    p5,
                                                    TokenValue::RightParen,
                                                    "Expected `)` after for clauses"@,
                                                );
                                                match rq {
                                                    Ok(_) => {
                                                        let (rb, p7) = sp_statement(
                                                            ts,
                                                            clampi(p6, pos + 1, ts.len() as int),
                                                        );
                                                        match rb {
                                                            Ok(body) => (
                                                                Ok(
                                                                    sp_for_desugar(
                                                                        initializer,
                                                                        condition,
                                                                        increment,
                                                                        body,
                                                                    ),
                                                                ),
                                                                p7,
                                                            ),
                                                            Err(e) => (Err(e), p7),
                                                        }
                                                    },
                                                    Err(e) => (Err(e), p6),
                                                }
                                            },
                                            Err(e) => (Err(e), p5),
                                        }
                                    },
                                    Err(e) => (Err(e), p4),
                                }
                            },
                            Err(e) => (Err(e), p3),
                        }
                    },
                    Err(e) => (Err(e), p2),
                }
            },
            Err(e) => (Err(e), p1),
        }
    }
}

/// The desugaring of a for loop into `While` and `Block` nodes.
pub open spec fn sp_for_desugar(
    initializer: Option<SpecStmt>,
    condition: Option<SpecExpr>,
    increment: Option<SpecExpr>,
    body: SpecStmt,
) -> SpecStmt {
    let inner = match increment {
        Some(inc) => SpecStmt::Block(seq![body, SpecStmt::Expression(inc)]),
        None => body,
    };
    let cond = match condition {
        Some(c) => c,
        None => SpecExpr::Literal(SpecLiteral::True),
    };
    let loop_stmt = SpecStmt::While { condition: cond, body: Box::new(inner) };
    match initializer {
        Some(init) => SpecStmt::Block(seq![init, loop_stmt]),
        None => loop_stmt,
    }
}

/// Statement dispatch on the leading token: `{` opens a block, a
/// statement keyword opens its production, and anything else is an
/// expression statement.
#[verifier::opaque]
pub open spec fn sp_statement(ts: Seq<SpecToken>, pos: int) -> (
    Result<SpecStmt, SpecRuntimeError>,
    int,
)
    decreases ts.len() - pos, 21int,
{
    if !(0 <= pos < ts.len()) {
        (Err(sp_eos_err()), pos)
    } else if sp_check(ts, pos, TokenValue::LeftBrace) {
        sp_block(ts, pos)
    } else if sp_check(ts, pos, TokenValue::Print) {
        sp_print_statement(ts, pos)
    } else if sp_check(ts, pos, TokenValue::Return) {
        sp_return_statement(ts, pos)
    } else if sp_check(ts, pos, TokenValue::While) {
        sp_while_statement(ts, pos)
    } else if sp_check(ts, pos, TokenValue::If) {
        sp_if_statement(ts, pos)
    } else if sp_check(ts, pos, TokenValue::For) {
        sp_for_statement(ts, pos)
    } else {
        sp_expression_statement(ts, pos)
    }
}

/// Declaration dispatch: `var` binds a new name; every other statement is
/// a declaration too.
#[verifier::opaque]
pub open spec fn sp_declaration(ts: Seq<SpecToken>, pos: int) -> (
    Result<SpecStmt, SpecRuntimeError>,
    int,
)
    decreases ts.len() - pos, 22int,
{
    if !(0 <= pos < ts.len()) {
        (Err(sp_eos_err()), pos)
    } else if sp_check(ts, pos, TokenValue::Var) {
        sp_var_declaration(ts, pos)
    } else if sp_check(ts, pos, TokenValue::Fun) {
        sp_function(ts, clampi(pos + 1, pos + 1, ts.len() as int))
    } else if sp_check(ts, pos, TokenValue::Class) {
        sp_class_declaration(ts, pos)
    } else {
        sp_statement(ts, pos)
    }
}

/// A token kind that starts a new statement: a safe place to resume
/// parsing after an error.
pub open spec fn is_sync_point(v: TokenValue) -> bool {
    v == TokenValue::Class || v == TokenValue::Fun || v == TokenValue::Var || v == TokenValue::For
        || v == TokenValue::If || v == TokenValue::While || v == TokenValue::Print || v
        == TokenValue::Return
}

/// Panic-mode recovery, after the failing token has been passed: discard
/// tokens until just past a `;`, or just before a statement keyword, `Eof`
/// or the end of the sequence.
pub open spec fn sp_sync_scan(ts: Seq<SpecToken>, pos: int) -> int
    decreases ts.len() - pos,
{
    if pos < 1 || pos >= ts.len() {
        pos
    } else if ts[pos - 1].value == TokenValue::Semicolon {
        pos
    } else if ts[pos].value == TokenValue::Eof {
        pos
    } else if is_sync_point(ts[pos].value) {
        pos
    } else {
        sp_sync_scan(ts, pos + 1)
    }
}

/// Panic-mode recovery from a failure at `pos`: step past the failing
/// token, then discard to a statement boundary.
pub open spec fn sp_sync(ts: Seq<SpecToken>, pos: int) -> int {
    if !(0 <= pos < ts.len()) {
        pos
    } else {
        sp_sync_scan(ts, pos + 1)
    }
}

/// The whole parse: one declaration per iteration until `Eof`; a failure
/// is recorded and parsing resumes at the next statement boundary.  The
/// result is the statements parsed and every error encountered.
pub open spec fn sp_parse(ts: Seq<SpecToken>, pos: int) -> (Seq<SpecStmt>, Seq<SpecRuntimeError>)
    decreases ts.len() - pos, 24int,
{
    if !(0 <= pos <= ts.len()) || sp_at_end(ts, pos) {
        (Seq::empty(), Seq::empty())
    } else {
        let (r1, p1) = sp_declaration(ts, pos);
        match r1 {
            Ok(st) => {
                let (ss, es) = sp_parse(ts, clampi(p1, pos + 1, ts.len() as int));
                (seq![st] + ss, es)
            },
            Err(e) => {
                let p2 = sp_sync(ts, p1);
                let (ss, es) = sp_parse(ts, clampi(p2, pos + 1, ts.len() as int));
                (ss, seq![e] + es)
            },
        }
    }
}

/// The cursor never runs backward through synchronization.
pub proof fn lemma_sync_scan_bounds(ts: Seq<SpecToken>, pos: int)
    requires
        0 <= pos <= ts.len(),
    ensures
        pos <= sp_sync_scan(ts, pos) <= ts.len(),
    decreases ts.len() - pos,
{
    if 1 <= pos < ts.len() && ts[pos - 1].value != TokenValue::Semicolon && ts[pos].value
        != TokenValue::Eof && !is_sync_point(ts[pos].value) {
        lemma_sync_scan_bounds(ts, pos + 1);
    }
}

/// Unfolding one successful step of the parse loop.
pub proof fn lemma_parse_step_ok(ts: Seq<SpecToken>, pos: int, st: SpecStmt, p1: int)
    requires
        0 <= pos <= ts.len(),
        !sp_at_end(ts, pos),
        sp_declaration(ts, pos) == (Ok::<SpecStmt, SpecRuntimeError>(st), p1),
        pos < p1 <= ts.len(),
    ensures
        sp_parse(ts, pos).0 == seq![st] + sp_parse(ts, p1).0,
        sp_parse(ts, pos).1 == sp_parse(ts, p1).1,
{
    assert(clampi(p1, pos + 1, ts.len() as int) == p1);
}

/// Unfolding one failing step of the parse loop, through recovery.
pub proof fn lemma_parse_step_err(
    ts: Seq<SpecToken>,
    pos: int,
    e: SpecRuntimeError,
    p1: int,
    p2: int,
)
    requires
        0 <= pos <= ts.len(),
        !sp_at_end(ts, pos),
        sp_declaration(ts, pos) == (Err::<SpecStmt, SpecRuntimeError>(e), p1),
        pos <= p1 <= ts.len(),
        p2 == sp_sync(ts, p1),
        pos < p2 <= ts.len(),
    ensures
        sp_parse(ts, pos).0 == sp_parse(ts, p2).0,
        sp_parse(ts, pos).1 == seq![e] + sp_parse(ts, p2).1,
{
    assert(clampi(p2, pos + 1, ts.len() as int) == p2);
}

// ===========================================================================
// The executable parser.
// ===========================================================================
/// The parser: the token sequence (read-only) and a cursor index into it.
pub struct Parser {
    pub tokens: Vec<Token>,
    pub position: usize,
}

/// The result correspondence of one expression production: the parser's
/// cursor and result agree exactly with the production's model at the
/// pre-state.  `strict` records that success consumes at least one token.
pub open spec fn expr_post(
    pre: Parser,
    post: Parser,
    r: Result<Expr, RuntimeError>,
    sp: (Result<SpecExpr, SpecRuntimeError>, int),
    strict: bool,
) -> bool {
    &&& post.wf()
    &&& post.tokens@ == pre.tokens@
    &&& post.position as int == sp.1
    &&& match (r, sp.0) {
        (Ok(e), Ok(se)) => expr_view(e) == se,
        (Err(e), Err(se)) => e@ == se,
        _ => false,
    }
    &&& pre.position <= post.position
    &&& (strict && r is Ok ==> pre.position < post.position)
}

/// The result correspondence of one statement production.
pub open spec fn stmt_post(
    pre: Parser,
    post: Parser,
    r: Result<Stmt, RuntimeError>,
    sp: (Result<SpecStmt, SpecRuntimeError>, int),
    strict: bool,
) -> bool {
    &&& post.wf()
    &&& post.tokens@ == pre.tokens@
    &&& post.position as int == sp.1
    &&& match (r, sp.0) {
        (Ok(st), Ok(sst)) => stmt_view(st) == sst,
        (Err(e), Err(se)) => e@ == se,
        _ => false,
    }
    &&& pre.position <= post.position
    &&& (strict && r is Ok ==> pre.position < post.position)
}

impl Parser {
    /// Well-formedness: the cursor stays inside (or one past) the tokens.
    pub open spec fn wf(self) -> bool {
        self.position <= self.tokens@.len()
    }

    /// The model of the parser's input.
    pub open spec fn toks(self) -> Seq<SpecToken> {
        tokens_view(self.tokens@)
    }

    /// A parser over `tokens`, at the start of the sequence.
    pub fn new(tokens: Vec<Token>) -> (r: Parser)
        ensures
            r.wf(),
            r.tokens@ == tokens@,
            r.position == 0,
    {
        Parser { tokens, position: 0 }
    }

    /// The most recently consumed token.
    pub fn previous(&self) -> (t: Token)
        requires
            self.wf(),
            1 <= self.position,
        ensures
            t == self.tokens@[self.position - 1],
    {
        self.tokens[self.position - 1].clone()
    }

    /// The token under the cursor.
    pub fn current(&self) -> (t: Token)
        requires
            self.position < self.tokens@.len(),
        ensures
            t == self.tokens@[self.position as int],
    {
        self.tokens[self.position].clone()
    }

    /// The token under the cursor, or an error when the cursor is past the
    /// end of the sequence.
    pub fn peek(&self) -> (r: Result<Token, RuntimeError>)
        requires
            self.wf(),
        ensures
            match r {
                Ok(t) => self.position < self.tokens@.len() && t == self.tokens@[self.position as int],
                Err(e) => self.position >= self.tokens@.len() && e@ == sp_eos_err(),
            },
    {
        if self.position < self.tokens.len() {
            Ok(self.tokens[self.position].clone())
        } else {
            Err(RuntimeError::general_error("Unexpected end of token stream"))
        }
    }

    /// Consume and return the token under the cursor.
    pub fn advance(&mut self) -> (t: Token)
        requires
            old(self).wf(),
            old(self).position < old(self).tokens@.len(),
        ensures
            final(self).wf(),
            final(self).tokens@ == old(self).tokens@,
            final(self).position == old(self).position + 1,
            t == old(self).tokens@[old(self).position as int],
    {
        let _n: usize = self.tokens.len();
        let t = self.tokens[self.position].clone();
        self.position = self.position + 1;
        t
    }

    /// Whether the cursor is at the end of parsable input (`Eof`, or past
    /// the end of the sequence).
    pub fn is_at_end(&self) -> (r: bool)
        requires
            self.wf(),
        ensures
            r == sp_at_end(self.toks(), self.position as int),
    {
        if self.position >= self.tokens.len() {
            true
        } else {
            self.tokens[self.position].value == TokenValue::Eof
        }
    }

    /// Whether the token under the cursor has kind `v` (lookahead only; the
    /// payload of a literal lives in its lexeme, so kinds compare directly).
    pub fn check(&self, v: TokenValue) -> (r: bool)
        requires
            self.wf(),
        ensures
            r == sp_check(self.toks(), self.position as int, v),
    {
        if self.position < self.tokens.len() {
            self.tokens[self.position].value == v
        } else {
            false
        }
    }

    /// Whether the token one past the cursor has kind `v`.
    pub fn check_next(&self, v: TokenValue) -> (r: bool)
        requires
            self.wf(),
        ensures
            r == sp_check(self.toks(), self.position + 1, v),
    {
        if self.position < self.tokens.len() {
            let next = self.position + 1;
            if next < self.tokens.len() {
                self.tokens[next].value == v
            } else {
                false
            }
        } else {
            false
        }
    }

    /// Consume one token of kind `expected`, or report a parse error
    /// carrying `message` and the offending token.
    pub fn consume(&mut self, expected: TokenValue, message: &str) -> (r: Result<
        Token,
        RuntimeError,
    >)
        requires
            old(self).wf(),
        ensures
            final(self).wf(),
            final(self).tokens@ == old(self).tokens@,
            ({
                let (sr, np) = sp_consume(
                    old(self).toks(),
                    old(self).position as int,
                    expected,
                    message@,
                );
                &&& final(self).position as int == np
                &&& match (r, sr) {
                    (Ok(t), Ok(st)) => t@ == st,
                    (Err(e), Err(se)) => e@ == se,
                    _ => false,
                }
            }),
            old(self).position <= final(self).position,
    {
        match self.peek() {
            Ok(t) => {
                if t.value == expected {
                    let _ = self.advance();
                    Ok(t)
                } else {
                    Err(RuntimeError::ParseError(message.to_owned(), t))
                }
            },
            Err(e) => Err(e),
        }
    }

    /// Consume one identifier token, or report a parse error.
    pub fn consume_identifier(&mut self, message: &str) -> (r: Result<Token, RuntimeError>)
        requires
            old(self).wf(),
        ensures
            final(self).wf(),
            final(self).tokens@ == old(self).tokens@,
            ({
                let (sr, np) = sp_consume_identifier(
                    old(self).toks(),
                    old(self).position as int,
                    message@,
                );
                &&& final(self).position as int == np
                &&& match (r, sr) {
                    (Ok(t), Ok(st)) => t@ == st,
                    (Err(e), Err(se)) => e@ == se,
                    _ => false,
                }
            }),
            old(self).position <= final(self).position,
    {
        self.consume(TokenValue::Identifier, message)
    }

    #[verifier::rlimit(100)]
    #[verifier::spinoff_prover]
    pub fn primary(&mut self) -> (r: Result<Expr, RuntimeError>)
        requires
            old(self).wf(),
        ensures
            expr_post(
                *old(self),
                *final(self),
                r,
                sp_primary(old(self).toks(), old(self).position as int),
                true,
            ),
        decreases self.tokens@.len() - self.position, 2int,
    {
        let t = match self.peek() {
            Ok(t) => t,
            Err(e) => {
                return Err(e);
            },
        };
        match t.value {
            TokenValue::True => {
                let _ = self.advance();
                Ok(Expr::Literal(Literal::True))
            },
            TokenValue::False => {
                let _ = self.advance();
                Ok(Expr::Literal(Literal::False))
            },
            TokenValue::Nil => {
                let _ = self.advance();
                Ok(Expr::Literal(Literal::Nil))
            },
            TokenValue::This => {
                let keyword = self.advance();
                Ok(Expr::This { keyword })
            },
            TokenValue::Number => {
                let tk = self.advance();
                Ok(Expr::Literal(Literal::Number(tk.lexeme)))
            },
            TokenValue::StringLit => {
                let tk = self.advance();
                Ok(Expr::Literal(Literal::Str(tk.lexeme)))
            },
            TokenValue::Identifier => {
                let name = self.advance();
                Ok(Expr::Variable { name })
            },
            TokenValue::LeftParen => {
                let _ = self.advance();
                let inner = match self.expression() {
                    Ok(e) => e,
                    Err(e) => {
                        return Err(e);
                    },
                };
                match self.consume(TokenValue::RightParen, "Expected `)` after expression") {
                    Ok(_) => Ok(Expr::Grouping { group: Box::new(inner) }),
                    Err(e) => Err(e),
                }
            },
            TokenValue::Super => {
                let keyword = self.advance();
                match self.consume(TokenValue::Dot, "Expected `.` after `super`") {
                    Ok(_) => match self.consume_identifier("Expected superclass method name") {
                        Ok(method) => Ok(Expr::Super { keyword, method }),
                        Err(e) => Err(e),
                    },
                    Err(e) => Err(e),
                }
            },
            _ => Err(RuntimeError::ParseError("Expected expression".to_owned(), t)),
        }
    }

    /// The comma-separated argument expressions after a call's `(`.
    pub fn call_args(&mut self, acc: Vec<Expr>) -> (r: Result<Vec<Expr>, RuntimeError>)
        requires
            old(self).wf(),
        ensures
            ({
                let sp = sp_call_args(
                    old(self).toks(),
                    old(self).position as int,
                    exprs_view(acc@),
                );
                &&& final(self).wf()
                &&& final(self).tokens@ == old(self).tokens@
                &&& final(self).position as int == sp.1
                &&& match (r, sp.0) {
                    (Ok(v), Ok(sv)) => exprs_view(v@) == sv,
                    (Err(e), Err(se)) => e@ == se,
                    _ => false,
                }
                &&& old(self).position <= final(self).position
                &&& (r is Ok ==> old(self).position < final(self).position)
            }),
        decreases self.tokens@.len() - self.position, 25int,
    {
        proof {
            reveal(sp_expression);
        }
        let mut items = acc;
        let ghost items0 = items@;
        let e = match self.expression() {
            Ok(e) => e,
            Err(er) => {
                return Err(er);
            },
        };
        let ghost e0 = e;
        items.push(e);
        proof {
            lemma_exprs_view_push(items0, e0);
        }
        if self.check(TokenValue::Comma) {
            let _ = self.advance();
            self.call_args(items)
        } else {
            Ok(items)
        }
    }

    /// The trailing call/property chain after a parsed callee.
    #[verifier::rlimit(100)]
    #[verifier::spinoff_prover]
    pub fn call_tail(&mut self, acc: Expr) -> (r: Result<Expr, RuntimeError>)
        requires
            old(self).wf(),
        ensures
            expr_post(
                *old(self),
                *final(self),
                r,
                sp_call_tail(old(self).toks(), old(self).position as int, expr_view(acc)),
                false,
            ),
        decreases self.tokens@.len() - self.position, 3int,
    {
        if self.check(TokenValue::LeftParen) {
            if self.check_next(TokenValue::RightParen) {
                let _ = self.advance();
                let paren = self.advance();
                let arguments: Vec<Expr> = Vec::new();
                let built = Expr::Call { callee: Box::new(acc), paren, arguments };
                proof {
                    lemma_expr_view_call(built);
                    assert(match built {
                        Expr::Call { arguments: a, .. } => exprs_view(a@) =~= Seq::<
                            SpecExpr,
                        >::empty(),
                        _ => false,
                    });
                }
                self.call_tail(built)
            } else {
                let _ = self.advance();
                let empty_args: Vec<Expr> = Vec::new();
                proof {
                    assert(exprs_view(empty_args@) =~= Seq::<SpecExpr>::empty());
                }
                let args = match self.call_args(empty_args) {
                    Ok(a) => a,
                    Err(e) => {
                        return Err(e);
                    },
                };
                let paren = match self.consume(TokenValue::RightParen, "Expected `)` after arguments") {
                    Ok(p) => p,
                    Err(e) => {
                        return Err(e);
                    },
                };
                if args.len() > 255 {
                    Err(RuntimeError::ParseError("Too many arguments".to_owned(), paren))
                } else {
                    let built = Expr::Call { callee: Box::new(acc), paren, arguments: args };
                    proof {
                        lemma_expr_view_call(built);
                    }
                    self.call_tail(built)
                }
            }
        } else if self.check(TokenValue::Dot) {
            let _ = self.advance();
            let name = match self.consume_identifier("Expected property name after `.`") {
                Ok(n) => n,
                Err(e) => {
                    return Err(e);
                },
            };
            self.call_tail(Expr::Get { name, object: Box::new(acc) })
        } else {
            Ok(acc)
        }
    }

    #[verifier::rlimit(100)]
    #[verifier::spinoff_prover]
    pub fn call(&mut self) -> (r: Result<Expr, RuntimeError>)
        requires
            old(self).wf(),
        ensures
            expr_post(
                *old(self),
                *final(self),
                r,
                sp_call(old(self).toks(), old(self).position as int),
                true,
            ),
        decreases self.tokens@.len() - self.position, 4int,
    {
        let first = match self.primary() {
            Ok(e) => e,
            Err(er) => {
                return Err(er);
            },
        };
        self.call_tail(first)
    }

    #[verifier::rlimit(100)]
    #[verifier::spinoff_prover]
    pub fn unary(&mut self) -> (r: Result<Expr, RuntimeError>)
        requires
            old(self).wf(),
        ensures
            expr_post(
                *old(self),
                *final(self),
                r,
                sp_unary(old(self).toks(), old(self).position as int),
                true,
            ),
        decreases self.tokens@.len() - self.position, 5int,
    {
        if self.check(TokenValue::Bang) || self.check(TokenValue::Minus) {
            let operator = self.advance();
            match self.unary() {
                Ok(right) => Ok(Expr::Unary { operator, right: Box::new(right) }),
                Err(e) => Err(e),
            }
        } else {
            self.call()
        }
    }

    #[verifier::rlimit(100)]
    #[verifier::spinoff_prover]
    pub fn factor_tail(&mut self, acc: Expr) -> (r: Result<Expr, RuntimeError>)
        requires
            old(self).wf(),
        ensures
            expr_post(
                *old(self),
                *final(self),
                r,
                sp_factor_tail(old(self).toks(), old(self).position as int, expr_view(acc)),
                false,
            ),
        decreases self.tokens@.len() - self.position, 6int,
    {
        if self.check(TokenValue::Star) || self.check(TokenValue::Slash) {
            let operator = self.advance();
            let right = match self.unary() {
                Ok(e) => e,
                Err(er) => {
                    return Err(er);
                },
            };
            self.factor_tail(
                Expr::Factor { left: Box::new(acc), operator, right: Box::new(right) },
            )
        } else {
            Ok(acc)
        }
    }

    #[verifier::rlimit(100)]
    #[verifier::spinoff_prover]
    pub fn factor(&mut self) -> (r: Result<Expr, RuntimeError>)
        requires
            old(self).wf(),
        ensures
            expr_post(
                *old(self),
                *final(self),
                r,
                sp_factor(old(self).toks(), old(self).position as int),
                true,
            ),
        decreases self.tokens@.len() - self.position, 7int,
    {
        let first = match self.unary() {
            Ok(e) => e,
            Err(er) => {
                return Err(er);
            },
        };
        self.factor_tail(first)
    }

    #[verifier::rlimit(100)]
    #[verifier::spinoff_prover]
    pub fn term_tail(&mut self, acc: Expr) -> (r: Result<Expr, RuntimeError>)
        requires
            old(self).wf(),
        ensures
            expr_post(
                *old(self),
                *final(self),
                r,
                sp_term_tail(old(self).toks(), old(self).position as int, expr_view(acc)),
                false,
            ),
        decreases self.tokens@.len() - self.position, 8int,
    {
        if self.check(TokenValue::Minus) || self.check(TokenValue::Plus) {
            let operator = self.advance();
            let right = match self.factor() {
                Ok(e) => e,
                Err(er) => {
                    return Err(er);
                },
            };
            self.term_tail(Expr::Term { left: Box::new(acc), operator, right: Box::new(right) })
        } else {
            Ok(acc)
        }
    }

    #[verifier::rlimit(100)]
    #[verifier::spinoff_prover]
    pub fn term(&mut self) -> (r: Result<Expr, RuntimeError>)
        requires
            old(self).wf(),
        ensures
            expr_post(
                *old(self),
                *final(self),
                r,
                sp_term(old(self).toks(), old(self).position as int),
                true,
            ),
        decreases self.tokens@.len() - self.position, 9int,
    {
        let first = match self.factor() {
            Ok(e) => e,
            Err(er) => {
                return Err(er);
            },
        };
        self.term_tail(first)
    }

    #[verifier::rlimit(100)]
    #[verifier::spinoff_prover]
    pub fn comparison_tail(&mut self, acc: Expr) -> (r: Result<Expr, RuntimeError>)
        requires
            old(self).wf(),
        ensures
            expr_post(
                *old(self),
                *final(self),
                r,
                sp_comparison_tail(old(self).toks(), old(self).position as int, expr_view(acc)),
                false,
            ),
        decreases self.tokens@.len() - self.position, 10int,
    {
        if self.check(TokenValue::Greater) || self.check(TokenValue::GreaterEqual) || self.check(
            TokenValue::Less,
        ) || self.check(TokenValue::LessEqual) {
            let operator = self.advance();
            let right = match self.term() {
                Ok(e) => e,
                Err(er) => {
                    return Err(er);
                },
            };
            self.comparison_tail(
                Expr::Comparison { left: Box::new(acc), operator, right: Box::new(right) },
            )
        } else {
            Ok(acc)
        }
    }

    #[verifier::rlimit(100)]
    #[verifier::spinoff_prover]
    pub fn comparison(&mut self) -> (r: Result<Expr, RuntimeError>)
        requires
            old(self).wf(),
        ensures
            expr_post(
                *old(self),
                *final(self),
                r,
                sp_comparison(old(self).toks(), old(self).position as int),
                true,
            ),
        decreases self.tokens@.len() - self.position, 11int,
    {
        let first = match self.term() {
            Ok(e) => e,
            Err(er) => {
                return Err(er);
            },
        };
        self.comparison_tail(first)
    }

    #[verifier::rlimit(100)]
    #[verifier::spinoff_prover]
    pub fn equality_tail(&mut self, acc: Expr) -> (r: Result<Expr, RuntimeError>)
        requires
            old(self).wf(),
        ensures
            expr_post(
                *old(self),
                *final(self),
                r,
                sp_equality_tail(old(self).toks(), old(self).position as int, expr_view(acc)),
                false,
            ),
        decreases self.tokens@.len() - self.position, 12int,
    {
        if self.check(TokenValue::BangEqual) || self.check(TokenValue::EqualEqual) {
            let operator = self.advance();
            let right = match self.comparison() {
                Ok(e) => e,
                Err(er) => {
                    return Err(er);
                },
            };
            self.equality_tail(
                Expr::Equality { left: Box::new(acc), operator, right: Box::new(right) },
            )
        } else {
            Ok(acc)
        }
    }

    #[verifier::rlimit(100)]
    #[verifier::spinoff_prover]
    pub fn equality(&mut self) -> (r: Result<Expr, RuntimeError>)
        requires
            old(self).wf(),
        ensures
            expr_post(
                *old(self),
                *final(self),
                r,
                sp_equality(old(self).toks(), old(self).position as int),
                true,
            ),
        decreases self.tokens@.len() - self.position, 13int,
    {
        let first = match self.comparison() {
            Ok(e) => e,
            Err(er) => {
                return Err(er);
            },
        };
        self.equality_tail(first)
    }

    #[verifier::rlimit(100)]
    #[verifier::spinoff_prover]
    pub fn and_tail(&mut self, acc: Expr) -> (r: Result<Expr, RuntimeError>)
        requires
            old(self).wf(),
        ensures
            expr_post(
                *old(self),
                *final(self),
                r,
                sp_and_tail(old(self).toks(), old(self).position as int, expr_view(acc)),
                false,
            ),
        decreases self.tokens@.len() - self.position, 14int,
    {
        if self.check(TokenValue::And) {
            let operator = self.advance();
            let right = match self.equality() {
                Ok(e) => e,
                Err(er) => {
                    return Err(er);
                },
            };
            self.and_tail(Expr::Logical { left: Box::new(acc), operator, right: Box::new(right) })
        } else {
            Ok(acc)
        }
    }

    #[verifier::rlimit(100)]
    #[verifier::spinoff_prover]
    pub fn logic_and(&mut self) -> (r: Result<Expr, RuntimeError>)
        requires
            old(self).wf(),
        ensures
            expr_post(
                *old(self),
                *final(self),
                r,
                sp_logic_and(old(self).toks(), old(self).position as int),
                true,
            ),
        decreases self.tokens@.len() - self.position, 15int,
    {
        let first = match self.equality() {
            Ok(e) => e,
            Err(er) => {
                return Err(er);
            },
        };
        self.and_tail(first)
    }

    #[verifier::rlimit(100)]
    #[verifier::spinoff_prover]
    pub fn or_tail(&mut self, acc: Expr) -> (r: Result<Expr, RuntimeError>)
        requires
            old(self).wf(),
        ensures
            expr_post(
                *old(self),
                *final(self),
                r,
                sp_or_tail(old(self).toks(), old(self).position as int, expr_view(acc)),
                false,
            ),
        decreases self.tokens@.len() - self.position, 16int,
    {
        if self.check(TokenValue::Or) {
            let operator = self.advance();
            let right = match self.logic_and() {
                Ok(e) => e,
                Err(er) => {
                    return Err(er);
                },
            };
            self.or_tail(Expr::Logical { left: Box::new(acc), operator, right: Box::new(right) })
        } else {
            Ok(acc)
        }
    }

    #[verifier::rlimit(100)]
    #[verifier::spinoff_prover]
    pub fn logic_or(&mut self) -> (r: Result<Expr, RuntimeError>)
        requires
            old(self).wf(),
        ensures
            expr_post(
                *old(self),
                *final(self),
                r,
                sp_logic_or(old(self).toks(), old(self).position as int),
                true,
            ),
        decreases self.tokens@.len() - self.position, 17int,
    {
        let first = match self.logic_and() {
            Ok(e) => e,
            Err(er) => {
                return Err(er);
            },
        };
        self.or_tail(first)
    }

    /// Assignment: the parsed left side must be a settable target (a
    /// variable or a property access); anything else is an
    /// invalid-assignment-target error.
    #[verifier::rlimit(100)]
    #[verifier::spinoff_prover]
    pub fn assignment(&mut self) -> (r: Result<Expr, RuntimeError>)
        requires
            old(self).wf(),
        ensures
            expr_post(
                *old(self),
                *final(self),
                r,
                sp_assignment(old(self).toks(), old(self).position as int),
                true,
            ),
        decreases self.tokens@.len() - self.position, 18int,
    {
        let lhs = match self.logic_or() {
            Ok(e) => e,
            Err(er) => {
                return Err(er);
            },
        };
        if self.check(TokenValue::Equal) {
            let _ = self.advance();
            let value = match self.assignment() {
                Ok(e) => e,
                Err(er) => {
                    return Err(er);
                },
            };
            match lhs {
                Expr::Variable { name } => Ok(Expr::Assign { name, value: Box::new(value) }),
                Expr::Get { name, object } => Ok(
                    Expr::SetProp { object, name, value: Box::new(value) },
                ),
                _ => Err(
                    RuntimeError::InvalidArgumentTarget("Invalid assignment target".to_owned()),
                ),
            }
        } else {
            Ok(lhs)
        }
    }

    pub fn expression(&mut self) -> (r: Result<Expr, RuntimeError>)
        requires
            old(self).wf(),
        ensures
            expr_post(
                *old(self),
                *final(self),
                r,
                sp_expression(old(self).toks(), old(self).position as int),
                true,
            ),
        decreases self.tokens@.len() - self.position, 19int,
    {
        proof {
            reveal(sp_expression);
        }
        self.assignment()
    }

    /// An expression statement: an expression followed by a mandatory `;`.
    #[verifier::rlimit(100)]
    #[verifier::spinoff_prover]
    pub fn expression_statement(&mut self) -> (r: Result<Stmt, RuntimeError>)
        requires
            old(self).wf(),
        ensures
            stmt_post(
                *old(self),
                *final(self),
                r,
                sp_expression_statement(old(self).toks(), old(self).position as int),
                true,
            ),
        decreases self.tokens@.len() - self.position, 20int,
    {
        proof {
            reveal(sp_expression);
        }
        let e = match self.expression() {
            Ok(e) => e,
            Err(er) => {
                return Err(er);
            },
        };
        match self.consume(TokenValue::Semicolon, "Expected `;` after expression") {
            Ok(_) => Ok(Stmt::Expression(e)),
            Err(er) => Err(er),
        }
    }

    /// A block: `{`, declarations until the matching `}`, erroring if the
    /// end of input is reached first.
    #[verifier::loop_isolation(false)]
    pub fn block(&mut self) -> (r: Result<Stmt, RuntimeError>)
        requires
            old(self).wf(),
            sp_check(old(self).toks(), old(self).position as int, TokenValue::LeftBrace),
        ensures
            stmt_post(
                *old(self),
                *final(self),
                r,
                sp_block(old(self).toks(), old(self).position as int),
                true,
            ),
        decreases self.tokens@.len() - self.position, 20int,
    {
        proof {
            reveal(sp_declaration);
        }
        let ghost ts = self.toks();
        let ghost pos0 = self.position as int;
        let _ = self.advance();
        let mut items: Vec<Stmt> = Vec::new();
        proof {
            assert(stmts_view(items@) =~= Seq::<SpecStmt>::empty());
        }
        while !self.check(TokenValue::RightBrace)
            invariant
                self.wf(),
                self.tokens@ == old(self).tokens@,
                pos0 + 1 <= self.position as int,
                sp_block_items(ts, pos0 + 1, Seq::empty()) == sp_block_items(
                    ts,
                    self.position as int,
                    stmts_view(items@),
                ),
            decreases self.tokens@.len() - self.position,
        {
            let ghost p_entry = self.position as int;
            let ghost items_entry = items@;
            let st = match self.declaration() {
                Ok(st) => st,
                Err(e) => {
                    return Err(e);
                },
            };
            let ghost st0 = st;
            items.push(st);
            proof {
                lemma_stmts_view_push(items_entry, st0);
            }
        }
        let _ = self.advance();
        let built = Stmt::Block(items);
        proof {
            lemma_stmt_view_block(built);
        }
        Ok(built)
    }

    /// A print statement: `print` expression `;`.
    #[verifier::rlimit(100)]
    #[verifier::spinoff_prover]
    pub fn print_statement(&mut self) -> (r: Result<Stmt, RuntimeError>)
        requires
            old(self).wf(),
            sp_check(old(self).toks(), old(self).position as int, TokenValue::Print),
        ensures
            stmt_post(
                *old(self),
                *final(self),
                r,
                sp_print_statement(old(self).toks(), old(self).position as int),
                true,
            ),
        decreases self.tokens@.len() - self.position, 20int,
    {
        let _ = self.advance();
        let value = match self.expression() {
            Ok(e) => e,
            Err(er) => {
                return Err(er);
            },
        };
        match self.consume(TokenValue::Semicolon, "Expected `;` after value") {
            Ok(_) => Ok(Stmt::Print(value)),
            Err(er) => Err(er),
        }
    }

    /// A return statement: `return` expression? `;`.
    #[verifier::rlimit(100)]
    #[verifier::spinoff_prover]
    pub fn return_statement(&mut self) -> (r: Result<Stmt, RuntimeError>)
        requires
            old(self).wf(),
            sp_check(old(self).toks(), old(self).position as int, TokenValue::Return),
        ensures
            stmt_post(
                *old(self),
                *final(self),
                r,
                sp_return_statement(old(self).toks(), old(self).position as int),
                true,
            ),
        decreases self.tokens@.len() - self.position, 20int,
    {
        let keyword = self.advance();
        if self.check(TokenValue::Semicolon) {
            let _ = self.advance();
            Ok(Stmt::Return { keyword, value: None })
        } else {
            let value = match self.expression() {
                Ok(e) => e,
                Err(er) => {
                    return Err(er);
                },
            };
            match self.consume(TokenValue::Semicolon, "Expected `;` after return value") {
                Ok(_) => Ok(Stmt::Return { keyword, value: Some(value) }),
                Err(er) => Err(er),
            }
        }
    }

    /// A variable declaration: `var` IDENTIFIER ( `=` expression )? `;`.
    #[verifier::rlimit(100)]
    #[verifier::spinoff_prover]
    pub fn var_declaration(&mut self) -> (r: Result<Stmt, RuntimeError>)
        requires
            old(self).wf(),
            sp_check(old(self).toks(), old(self).position as int, TokenValue::Var),
        ensures
            stmt_post(
                *old(self),
                *final(self),
                r,
                sp_var_declaration(old(self).toks(), old(self).position as int),
                true,
            ),
        decreases self.tokens@.len() - self.position, 20int,
    {
        let _ = self.advance();
        let name = match self.consume_identifier("Expected variable name") {
            Ok(n) => n,
            Err(er) => {
                return Err(er);
            },
        };
        if self.check(TokenValue::Equal) {
            let _ = self.advance();
            let value = match self.expression() {
                Ok(e) => e,
                Err(er) => {
                    return Err(er);
                },
            };
            match self.consume(TokenValue::Semicolon, "Expected `;` after variable declaration") {
                Ok(_) => Ok(Stmt::Var { name, initializer: Some(value) }),
                Err(er) => Err(er),
            }
        } else {
            match self.consume(TokenValue::Semicolon, "Expected `;` after variable declaration") {
                Ok(_) => Ok(Stmt::Var { name, initializer: None }),
                Err(er) => Err(er),
            }
        }
    }

    /// A while statement: `while` `(` expression `)` statement.
    #[verifier::rlimit(100)]
    #[verifier::spinoff_prover]
    pub fn while_statement(&mut self) -> (r: Result<Stmt, RuntimeError>)
        requires
            old(self).wf(),
            sp_check(old(self).toks(), old(self).position as int, TokenValue::While),
        ensures
            stmt_post(
                *old(self),
                *final(self),
                r,
                sp_while_statement(old(self).toks(), old(self).position as int),
                true,
            ),
        decreases self.tokens@.len() - self.position, 20int,
    {
        let _ = self.advance();
        match self.consume(TokenValue::LeftParen, "Expected `(` after `while`") {
            Ok(_) => {},
            Err(er) => {
                return Err(er);
            },
        }
        let condition = match self.expression() {
            Ok(e) => e,
            Err(er) => {
                return Err(er);
            },
        };
        match self.consume(TokenValue::RightParen, "Expected `)` after condition") {
            Ok(_) => {},
            Err(er) => {
                return Err(er);
            },
        }
        let body = match self.statement() {
            Ok(st) => st,
            Err(er) => {
                return Err(er);
            },
        };
        Ok(Stmt::While { condition, body: Box::new(body) })
    }

    /// An if statement: `if` `(` expression `)` statement, with an
    /// optional `else` branch bound to the nearest `if`.
    #[verifier::rlimit(100)]
    #[verifier::spinoff_prover]
    pub fn if_statement(&mut self) -> (r: Result<Stmt, RuntimeError>)
        requires
            old(self).wf(),
            sp_check(old(self).toks(), old(self).position as int, TokenValue::If),
        ensures
            stmt_post(
                *old(self),
                *final(self),
                r,
                sp_if_statement(old(self).toks(), old(self).position as int),
                true,
            ),
        decreases self.tokens@.len() - self.position, 20int,
    {
        let _ = self.advance();
        match self.consume(TokenValue::LeftParen, "Expected `(` after `if`") {
            Ok(_) => {},
            Err(er) => {
                return Err(er);
            },
        }
        let condition = match self.expression() {
            Ok(e) => e,
            Err(er) => {
                return Err(er);
            },
        };
        match self.consume(TokenValue::RightParen, "Expected `)` after condition") {
            Ok(_) => {},
            Err(er) => {
                return Err(er);
            },
        }
        let then_branch = match self.statement() {
            Ok(st) => st,
            Err(er) => {
                return Err(er);
            },
        };
        if self.check(TokenValue::Else) {
            let _ = self.advance();
            let else_branch = match self.statement() {
                Ok(st) => st,
                Err(er) => {
                    return Err(er);
                },
            };
            Ok(
                Stmt::If {
                    condition,
                    then_branch: Box::new(then_branch),
                    else_branch: Some(Box::new(else_branch)),
                },
            )
        } else {
            Ok(
                Stmt::If {
                    condition,
                    then_branch: Box::new(then_branch),
                    else_branch: None,
                },
            )
        }
    }

    /// A for loop's initializer clause.
    pub fn for_initializer(&mut self) -> (r: Result<Option<Stmt>, RuntimeError>)
        requires
            old(self).wf(),
        ensures
            ({
                let (sr, np) = sp_for_init(old(self).toks(), old(self).position as int);
                &&& final(self).wf()
                &&& final(self).tokens@ == old(self).tokens@
                &&& final(self).position as int == np
                &&& match (r, sr) {
                    (Ok(None), Ok(so)) => so is None,
                    (Ok(Some(st)), Ok(so)) => so == Some(stmt_view(st)),
                    (Err(e), Err(se)) => e@ == se,
                    _ => false,
                }
                &&& old(self).position <= final(self).position
                &&& (r is Ok ==> old(self).position < final(self).position)
            }),
        decreases self.tokens@.len() - self.position, 21int,
    {
        if self.check(TokenValue::Semicolon) {
            let _ = self.advance();
            Ok(None)
        } else if self.check(TokenValue::Var) {
            match self.var_declaration() {
                Ok(st) => Ok(Some(st)),
                Err(e) => Err(e),
            }
        } else {
            match self.expression_statement() {
                Ok(st) => Ok(Some(st)),
                Err(e) => Err(e),
            }
        }
    }

    /// A for statement, desugared into the equivalent `While` (wrapped in
    /// blocks for the initializer and the increment).
    #[verifier::rlimit(100)]
    #[verifier::spinoff_prover]
    pub fn for_statement(&mut self) -> (r: Result<Stmt, RuntimeError>)
        requires
            old(self).wf(),
            sp_check(old(self).toks(), old(self).position as int, TokenValue::For),
        ensures
            stmt_post(
                *old(self),
                *final(self),
                r,
                sp_for_statement(old(self).toks(), old(self).position as int),
                true,
            ),
        decreases self.tokens@.len() - self.position, 20int,
    {
        let _ = self.advance();
        match self.consume(TokenValue::LeftParen, "Expected `(` after `for`") {
            Ok(_) => {},
            Err(er) => {
                return Err(er);
            },
        }
        let initializer = match self.for_initializer() {
            Ok(o) => o,
            Err(er) => {
                return Err(er);
            },
        };
        let condition = if self.check(TokenValue::Semicolon) {
            None
        } else {
            match self.expression() {
                Ok(c) => Some(c),
                Err(er) => {
                    return Err(er);
                },
            }
        };
        match self.consume(TokenValue::Semicolon, "Expected `;` after loop condition") {
            Ok(_) => {},
            Err(er) => {
                return Err(er);
            },
        }
        let increment = if self.check(TokenValue::RightParen) {
            None
        } else {
            match self.expression() {
                Ok(c) => Some(c),
                Err(er) => {
                    return Err(er);
                },
            }
        };
        match self.consume(TokenValue::RightParen, "Expected `)` after for clauses") {
            Ok(_) => {},
            Err(er) => {
                return Err(er);
            },
        }
        let body = match self.statement() {
            Ok(st) => st,
            Err(er) => {
                return Err(er);
            },
        };
        let ghost body0 = body;
        let ghost inc0 = increment;
        let inner = match increment {
            Some(inc) => {
                let ghost inc_g = inc;
                let mut pair: Vec<Stmt> = Vec::new();
                let ghost empty0 = pair@;
                pair.push(body);
                let ghost one0 = pair@;
                pair.push(Stmt::Expression(inc));
                let built = Stmt::Block(pair);
                proof {
                    lemma_stmts_view_push(empty0, body0);
                    lemma_stmts_view_push(one0, Stmt::Expression(inc_g));
                    lemma_stmt_view_block(built);
                    assert(stmts_view(empty0) =~= Seq::<SpecStmt>::empty());
                    assert(match built {
                        Stmt::Block(v) => stmts_view(v@) =~= seq![
                            stmt_view(body0),
                            SpecStmt::Expression(expr_view(inc_g)),
                        ],
                        _ => false,
                    });
                }
                built
            },
            None => body,
        };
        let cond = match condition {
            Some(c) => c,
            None => Expr::Literal(Literal::True),
        };
        let loop_stmt = Stmt::While { condition: cond, body: Box::new(inner) };
        let ghost loop0 = loop_stmt;
        match initializer {
            Some(init) => {
                let ghost init0 = init;
                let mut pair: Vec<Stmt> = Vec::new();
                let ghost empty0 = pair@;
                pair.push(init);
                let ghost one0 = pair@;
                pair.push(loop_stmt);
                let built = Stmt::Block(pair);
                proof {
                    lemma_stmts_view_push(empty0, init0);
                    lemma_stmts_view_push(one0, loop0);
                    lemma_stmt_view_block(built);
                    assert(stmts_view(empty0) =~= Seq::<SpecStmt>::empty());
                    assert(match built {
                        Stmt::Block(v) => stmts_view(v@) =~= seq![
                            stmt_view(init0),
                            stmt_view(loop0),
                        ],
                        _ => false,
                    });
                }
                Ok(built)
            },
            None => Ok(loop_stmt),
        }
    }

    /// A parameter list: identifiers separated by commas.
    pub fn params_tail(&mut self, acc: Vec<Token>) -> (r: Result<Vec<Token>, RuntimeError>)
        requires
            old(self).wf(),
        ensures
            ({
                let sp = sp_params(
                    old(self).toks(),
                    old(self).position as int,
                    tokens_view(acc@),
                );
                &&& final(self).wf()
                &&& final(self).tokens@ == old(self).tokens@
                &&& final(self).position as int == sp.1
                &&& match (r, sp.0) {
                    (Ok(v), Ok(sv)) => tokens_view(v@) == sv,
                    (Err(e), Err(se)) => e@ == se,
                    _ => false,
                }
                &&& old(self).position <= final(self).position
                &&& (r is Ok ==> old(self).position < final(self).position)
            }),
        decreases self.tokens@.len() - self.position, 0int,
    {
        let mut items = acc;
        let ghost items0 = items@;
        let param = match self.consume_identifier("Expected parameter name") {
            Ok(p) => p,
            Err(er) => {
                return Err(er);
            },
        };
        let ghost param0 = param;
        items.push(param);
        proof {
            assert(tokens_view(items@) =~= tokens_view(items0).push(param0@));
        }
        if self.check(TokenValue::Comma) {
            let _ = self.advance();
            self.params_tail(items)
        } else {
            Ok(items)
        }
    }

    /// A function production: IDENTIFIER `(` parameters? `)` block.  It
    /// serves both function declarations and class methods.
    #[verifier::rlimit(100)]
    #[verifier::spinoff_prover]
    pub fn function(&mut self) -> (r: Result<Stmt, RuntimeError>)
        requires
            old(self).wf(),
        ensures
            stmt_post(
                *old(self),
                *final(self),
                r,
                sp_function(old(self).toks(), old(self).position as int),
                true,
            ),
        decreases self.tokens@.len() - self.position, 20int,
    {
        let name = match self.consume_identifier("Expected function name") {
            Ok(n) => n,
            Err(er) => {
                return Err(er);
            },
        };
        match self.consume(TokenValue::LeftParen, "Expected `(` after function name") {
            Ok(_) => {},
            Err(er) => {
                return Err(er);
            },
        }
        let params = if self.check(TokenValue::RightParen) {
            let empty_params: Vec<Token> = Vec::new();
            proof {
                assert(tokens_view(empty_params@) =~= Seq::<SpecToken>::empty());
            }
            empty_params
        } else {
            let empty_params: Vec<Token> = Vec::new();
            proof {
                assert(tokens_view(empty_params@) =~= Seq::<SpecToken>::empty());
            }
            match self.params_tail(empty_params) {
                Ok(ps) => ps,
                Err(er) => {
                    return Err(er);
                },
            }
        };
        match self.consume(TokenValue::RightParen, "Expected `)` after parameters") {
            Ok(_) => {},
            Err(er) => {
                return Err(er);
            },
        }
        if self.check(TokenValue::LeftBrace) {
            let body = match self.block() {
                Ok(b) => b,
                Err(er) => {
                    return Err(er);
                },
            };
            Ok(Stmt::Function { name, params, body: Box::new(body) })
        } else {
            match self.peek() {
                Ok(t) => Err(
                    RuntimeError::ParseError("Expected `{` before function body".to_owned(), t),
                ),
                Err(e) => Err(e),
            }
        }
    }

    /// The methods of a class body, up to and including the closing `}`.
    pub fn class_methods(&mut self, acc: Vec<Stmt>) -> (r: Result<Vec<Stmt>, RuntimeError>)
        requires
            old(self).wf(),
        ensures
            ({
                let sp = sp_class_methods(
                    old(self).toks(),
                    old(self).position as int,
                    stmts_view(acc@),
                );
                &&& final(self).wf()
                &&& final(self).tokens@ == old(self).tokens@
                &&& final(self).position as int == sp.1
                &&& match (r, sp.0) {
                    (Ok(v), Ok(sv)) => stmts_view(v@) == sv,
                    (Err(e), Err(se)) => e@ == se,
                    _ => false,
                }
                &&& old(self).position <= final(self).position
                &&& (r is Ok ==> old(self).position < final(self).position)
            }),
        decreases self.tokens@.len() - self.position, 21int,
    {
        if self.check(TokenValue::RightBrace) {
            let _ = self.advance();
            Ok(acc)
        } else {
            let mut items = acc;
            let ghost items0 = items@;
            let m = match self.function() {
                Ok(m) => m,
                Err(er) => {
                    return Err(er);
                },
            };
            let ghost m0 = m;
            items.push(m);
            proof {
                lemma_stmts_view_push(items0, m0);
            }
            self.class_methods(items)
        }
    }

    /// A class declaration: `class` IDENTIFIER ( `<` IDENTIFIER )? `{`
    /// function* `}`.
    #[verifier::rlimit(100)]
    #[verifier::spinoff_prover]
    pub fn class_declaration(&mut self) -> (r: Result<Stmt, RuntimeError>)
        requires
            old(self).wf(),
            sp_check(old(self).toks(), old(self).position as int, TokenValue::Class),
        ensures
            stmt_post(
                *old(self),
                *final(self),
                r,
                sp_class_declaration(old(self).toks(), old(self).position as int),
                true,
            ),
        decreases self.tokens@.len() - self.position, 20int,
    {
        let _ = self.advance();
        let name = match self.consume_identifier("Expected class name") {
            Ok(n) => n,
            Err(er) => {
                return Err(er);
            },
        };
        let superclass = if self.check(TokenValue::Less) {
            let _ = self.advance();
            match self.consume_identifier("Expected superclass name") {
                Ok(s) => Some(s),
                Err(er) => {
                    return Err(er);
                },
            }
        } else {
            None
        };
        match self.consume(TokenValue::LeftBrace, "Expected `{` before class body") {
            Ok(_) => {},
            Err(er) => {
                return Err(er);
            },
        }
        let empty_methods: Vec<Stmt> = Vec::new();
        proof {
            assert(stmts_view(empty_methods@) =~= Seq::<SpecStmt>::empty());
        }
        let methods = match self.class_methods(empty_methods) {
            Ok(ms) => ms,
            Err(er) => {
                return Err(er);
            },
        };
        let built = Stmt::Class { name, superclass, methods };
        proof {
            lemma_stmt_view_class(built);
        }
        Ok(built)
    }

    /// Statement dispatch on the leading token.
    pub fn statement(&mut self) -> (r: Result<Stmt, RuntimeError>)
        requires
            old(self).wf(),
        ensures
            stmt_post(
                *old(self),
                *final(self),
                r,
                sp_statement(old(self).toks(), old(self).position as int),
                true,
            ),
        decreases self.tokens@.len() - self.position, 21int,
    {
        proof {
            reveal(sp_statement);
        }
        if self.check(TokenValue::LeftBrace) {
            self.block()
        } else if self.check(TokenValue::Print) {
            self.print_statement()
        } else if self.check(TokenValue::Return) {
            self.return_statement()
        } else if self.check(TokenValue::While) {
            self.while_statement()
        } else if self.check(TokenValue::If) {
            self.if_statement()
        } else if self.check(TokenValue::For) {
            self.for_statement()
        } else {
            self.expression_statement()
        }
    }

    /// Declaration dispatch: `var` binds a new name; every other
    /// statement is a declaration too.
    pub fn declaration(&mut self) -> (r: Result<Stmt, RuntimeError>)
        requires
            old(self).wf(),
        ensures
            stmt_post(
                *old(self),
                *final(self),
                r,
                sp_declaration(old(self).toks(), old(self).position as int),
                true,
            ),
        decreases self.tokens@.len() - self.position, 22int,
    {
        proof {
            reveal(sp_declaration);
            reveal(sp_statement);
        }
        if self.check(TokenValue::Var) {
            self.var_declaration()
        } else if self.check(TokenValue::Fun) {
            let _ = self.advance();
            self.function()
        } else if self.check(TokenValue::Class) {
            self.class_declaration()
        } else {
            self.statement()
        }
    }

    /// Whether panic-mode recovery should keep discarding tokens.
    fn sync_continue(&self) -> (r: bool)
        requires
            self.wf(),
            1 <= self.position,
        ensures
            r == (self.position < self.tokens@.len() && self.toks()[self.position as int].value
                != TokenValue::Eof && self.toks()[self.position - 1].value != TokenValue::Semicolon
                && !is_sync_point(self.toks()[self.position as int].value)),
    {
        if self.position >= self.tokens.len() {
            return false;
        }
        let v = self.tokens[self.position].value;
        if v == TokenValue::Eof {
            return false;
        }
        if self.tokens[self.position - 1].value == TokenValue::Semicolon {
            return false;
        }
        !(v == TokenValue::Class || v == TokenValue::Fun || v == TokenValue::Var || v
            == TokenValue::For || v == TokenValue::If || v == TokenValue::While || v
            == TokenValue::Print || v == TokenValue::Return)
    }

    /// Panic-mode recovery: step past the failing token, then discard
    /// tokens to a statement boundary.
    #[verifier::loop_isolation(false)]
    pub fn synchronize(&mut self)
        requires
            old(self).wf(),
        ensures
            final(self).wf(),
            final(self).tokens@ == old(self).tokens@,
            final(self).position as int == sp_sync(old(self).toks(), old(self).position as int),
            old(self).position <= final(self).position,
            old(self).position < old(self).tokens@.len() ==> old(self).position < final(self).position,
    {
        let ghost ts = self.toks();
        let ghost pos0 = self.position as int;
        if self.position >= self.tokens.len() {
            return ;
        }
        let _ = self.advance();
        while self.sync_continue()
            invariant
                self.wf(),
                self.tokens@ == old(self).tokens@,
                pos0 + 1 <= self.position as int,
                sp_sync_scan(ts, self.position as int) == sp_sync_scan(ts, pos0 + 1),
            decreases self.tokens@.len() - self.position,
        {
            let _ = self.advance();
        }
    }

    /// Parse the whole token sequence: one declaration at a time until
    /// `Eof`, recording every error and resynchronizing after each.  The
    /// caller receives either the complete program or the full batch of
    /// errors, never a partial tree.
    #[verifier::loop_isolation(false)]
    #[verifier::rlimit(100)]
    #[verifier::spinoff_prover]
    pub fn parse(&mut self) -> (r: Result<Vec<Stmt>, Vec<RuntimeError>>)
        requires
            old(self).wf(),
        ensures
            final(self).wf(),
            final(self).tokens@ == old(self).tokens@,
            ({
                let (ss, es) = sp_parse(old(self).toks(), old(self).position as int);
                match r {
                    Ok(stmts) => es.len() == 0 && stmts_view(stmts@) == ss,
                    Err(errs) => es.len() > 0 && errors_view(errs@) == es,
                }
            }),
    {
        proof {
            reveal(sp_declaration);
        }
        let ghost ts = self.toks();
        let ghost pos0 = self.position as int;
        let mut statements: Vec<Stmt> = Vec::new();
        let mut errors: Vec<RuntimeError> = Vec::new();
        proof {
            assert(stmts_view(statements@) =~= Seq::<SpecStmt>::empty());
            assert(errors_view(errors@) =~= Seq::<SpecRuntimeError>::empty());
            assert(stmts_view(statements@) + sp_parse(ts, pos0).0 =~= sp_parse(ts, pos0).0);
            assert(errors_view(errors@) + sp_parse(ts, pos0).1 =~= sp_parse(ts, pos0).1);
        }
        while !self.is_at_end()
            invariant
                self.wf(),
                self.tokens@ == old(self).tokens@,
                pos0 <= self.position as int,
                sp_parse(ts, pos0).0 == stmts_view(statements@) + sp_parse(
                    ts,
                    self.position as int,
                ).0,
                sp_parse(ts, pos0).1 == errors_view(errors@) + sp_parse(
                    ts,
                    self.position as int,
                ).1,
            decreases self.tokens@.len() - self.position,
        {
            let ghost p_entry = self.position as int;
            let ghost stmts_entry = statements@;
            let ghost errs_entry = errors@;
            match self.declaration() {
                Ok(st) => {
                    let ghost st0 = st;
                    statements.push(st);
                    proof {
                        lemma_stmts_view_push(stmts_entry, st0);
                        lemma_parse_step_ok(ts, p_entry, stmt_view(st0), self.position as int);
                        assert(stmts_view(stmts_entry) + (seq![stmt_view(st0)] + sp_parse(
                            ts,
                            self.position as int,
                        ).0) =~= stmts_view(statements@) + sp_parse(ts, self.position as int).0);
                    }
                },
                Err(e) => {
                    let ghost e0 = e;
                    errors.push(e);
                    let ghost p_err = self.position as int;
                    self.synchronize();
                    proof {
                        if p_err < ts.len() {
                            lemma_sync_scan_bounds(ts, p_err + 1);
                        }
                        lemma_parse_step_err(ts, p_entry, e0@, p_err, self.position as int);
                        assert(errors_view(errors@) =~= errors_view(errs_entry).push(e0@));
                        assert(errors_view(errs_entry) + (seq![e0@] + sp_parse(
                            ts,
                            self.position as int,
                        ).1) =~= errors_view(errors@) + sp_parse(ts, self.position as int).1);
                    }
                },
            }
        }
        proof {
            assert(stmts_view(statements@) + sp_parse(ts, self.position as int).0 =~= stmts_view(
                statements@,
            ));
            assert(errors_view(errors@) + sp_parse(ts, self.position as int).1 =~= errors_view(
                errors@,
            ));
        }
        if errors.len() == 0 {
            Ok(statements)
        } else {
            Err(errors)
        }
    }
}

} // verus!
