use lox_core::expr::Expr;
use lox_core::interpreter::{binary_operation, unary_operation, RuntimeErrorCode, ValueKind};
use lox_core::parse::Parse;
use lox_core::stmt::Stmt;
use lox_core::token::TokenKind;
use lox_core::tokenize::Tokenize;

const KINDS: [ValueKind; 5] = [ValueKind::Nil, ValueKind::Bool(true), ValueKind::Number, ValueKind::String, ValueKind::Object];

fn check_expr(expr: &Expr, binary: &mut usize, unary: &mut usize) {
    match expr {
        Expr::Assign(e) => check_expr(e.value(), binary, unary),
        Expr::Binary(e) => {
            *binary += 1;
            for left in KINDS {
                for right in KINDS {
                    assert_ne!(
                        binary_operation(e.operator().kind(), left, right),
                        Err(RuntimeErrorCode::NotABinaryOperator)
                    );
                }
            }
            check_expr(e.left(), binary, unary);
            check_expr(e.right(), binary, unary);
        },
        Expr::Call(e) => {
            check_expr(e.callee(), binary, unary);
            for argument in e.arguments() {
                check_expr(argument, binary, unary);
            }
        },
        Expr::Get(e) => check_expr(e.object(), binary, unary),
        Expr::Grouping(e) => check_expr(e.expression(), binary, unary),
        Expr::Logical(e) => {
            assert!(matches!(e.operator().kind(), TokenKind::And | TokenKind::Or));
            check_expr(e.left(), binary, unary);
            check_expr(e.right(), binary, unary);
        },
        Expr::SetProperty(e) => {
            check_expr(e.object(), binary, unary);
            check_expr(e.value(), binary, unary);
        },
        Expr::Unary(e) => {
            *unary += 1;
            for operand in KINDS {
                assert_ne!(unary_operation(e.operator().kind(), operand), Err(RuntimeErrorCode::NotAnUnaryOperator));
            }
            check_expr(e.right(), binary, unary);
        },
        Expr::Literal(_) | Expr::Super(_) | Expr::This(_) | Expr::Variable(_) => {},
    }
}

fn check_stmt(stmt: &Stmt, binary: &mut usize, unary: &mut usize) {
    match stmt {
        Stmt::Block(s) => s.statements().iter().for_each(|s| check_stmt(s, binary, unary)),
        Stmt::Class(s) => s.methods().iter().for_each(|f| f.body().iter().for_each(|s| check_stmt(s, binary, unary))),
        Stmt::Expression(s) => check_expr(s.expression(), binary, unary),
        Stmt::Function(f) => f.body().iter().for_each(|s| check_stmt(s, binary, unary)),
        Stmt::If(s) => {
            check_expr(s.condition(), binary, unary);
            check_stmt(s.then_branch(), binary, unary);
            if let Some(b) = s.else_branch() {
                check_stmt(b, binary, unary);
            }
        },
        Stmt::Print(s) => check_expr(s.expression(), binary, unary),
        Stmt::Return(s) => {
            if let Some(v) = s.value() {
                check_expr(v, binary, unary);
            }
        },
        Stmt::Var(s) => {
            if let Some(v) = s.initializer() {
                check_expr(v, binary, unary);
            }
        },
        Stmt::While(s) => {
            check_expr(s.condition(), binary, unary);
            check_stmt(s.body(), binary, unary);
        },
    }
}

#[test]
fn the_operators_of_a_parsed_program_are_never_refused() {
    let source_code = r#"
        fun f(a, b) { return -a * (b - 1) / 2 + !(a == b) ; }
        for (var i = 0; i < 10; i = i + 1) { print f(i, -i) >= 3 or i != 2 and i <= 7; }
        class C { m(x) { if (x > 1) return !!x; else return -x; } }
        while (!false) { print "a" + "b"; }
    "#;
    let statements = source_code.tokenize().parse().expect("the program parses");
    let (mut binary, mut unary) = (0, 0);
    for stmt in &statements {
        check_stmt(stmt, &mut binary, &mut unary);
    }
    assert!(binary >= 12);
    assert!(unary >= 6);
}
