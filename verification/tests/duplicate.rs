use lox_core::expr::{Expr, Literal, Variable};
use lox_core::span::Span;
use lox_core::stmt::{Block, Class, Function, If, Print, Return, Var, While};
use lox_core::token::{Token, TokenKind};
use lox_core::parse::Parse;
use lox_core::stmt::Stmt;
use lox_core::tokenize::Tokenize;

#[test]
fn duplicated_statements_equal_what_they_copy() {
    let source_code = r#"
        class Cake < Pastry {
            init(flavor) { this.flavor = flavor; }
            taste() { print "The " + this.flavor + " cake is delicious!"; return super.taste(); }
        }
        fun fib(n) { if (n < 2) return n; else return fib(n - 1) + fib(n - 2); }
        var i = 0;
        while (i < 3) { print fib(i) or nil and !true; i = i + 1; }
        {
            var a = -1.5;
            print (a * 2) / 3;
        }
    "#;
    let statements = source_code.tokenize().parse().expect("the program parses");
    let copies: Vec<Stmt> = statements.iter().map(Stmt::duplicate).collect();
    assert_eq!(copies, statements);
}

#[test]
fn duplicated_expression_equals_what_it_copies() {
    let expr = "f(1, \"two\", x.y = 3)(-4)".tokenize().parse_expr().expect("the expression parses");
    assert_eq!(expr.duplicate(), expr);
}

#[test]
fn statement_constructors_and_getters_agree() {
    let name = Token::new(TokenKind::Identifier, None, "a".to_string(), Span::new(4, 1));
    let var = Var::new(name.clone(), Some(Expr::Literal(Literal::Nil)));
    assert_eq!(var.name(), &name);
    assert_eq!(var.initializer(), Some(&Expr::Literal(Literal::Nil)));

    let print = Print::new(Expr::Literal(Literal::Bool(true)));
    assert_eq!(print.expression(), &Expr::Literal(Literal::Bool(true)));

    let if_ = If::new(Expr::Literal(Literal::Bool(false)), Stmt::Print(print), None);
    assert_eq!(if_.condition(), &Expr::Literal(Literal::Bool(false)));
    assert!(if_.else_branch().is_none());
    assert!(matches!(if_.then_branch(), Stmt::Print(_)));

    let while_ = While::new(Expr::Literal(Literal::Bool(false)), Stmt::Block(Block::new(Vec::new())));
    assert!(matches!(while_.body(), Stmt::Block(b) if b.statements().is_empty()));

    let keyword = Token::new(TokenKind::Return, None, "return".to_string(), Span::new(0, 6));
    let return_ = Return::new(keyword.clone(), None);
    assert_eq!(return_.keyword(), &keyword);
    assert!(return_.value().is_none());

    let function = Function::new(name.clone(), vec![name.clone()], vec![Stmt::Return(return_)]);
    assert_eq!(function.name(), &name);
    assert_eq!(function.parameters().len(), 1);
    assert_eq!(function.body().len(), 1);

    let class = Class::new(name.clone(), Some(Variable::new(name.clone())), vec![function]);
    assert_eq!(class.name(), &name);
    assert_eq!(class.superclass().map(|v| v.name().clone()), Some(name.clone()));
    assert_eq!(class.methods().len(), 1);
}
