//! Laws of the parser over what it builds: every operator that it puts in
//! an expression is one of the operators of its kind of expression, so the
//! interpreter never refuses an operator of a parsed program.
use crate::expr::ExprView;
use crate::grammar::{
    desugar_for, expect, is_operator_of, level_rank, max_arguments, next_token, operation_of, parse_arguments,
    parse_assignment, parse_block, parse_call, parse_call_rest, parse_class, parse_declaration, parse_expression,
    parse_expression_statement, parse_finish_call, parse_for, parse_for_condition, parse_for_increment,
    parse_for_initializer, parse_function, parse_if, parse_methods, parse_operand, parse_operation,
    parse_operation_rest, parse_primary, parse_print, parse_program_from, parse_return, parse_return_value,
    parse_statement, parse_unary, parse_var_declaration, parse_var_end, parse_while, put_back, remaining, spec_parse,
    spec_parse_expr, start_state, synchronize, ParserState, Precedence,
};
use crate::interpreter::{is_binary_operator, is_logical_operator, is_unary_operator};
use crate::stmt::{FunctionView, StmtView};
use crate::token::{TokenKind, TokenView};
use crate::tokenize::LexingErrorView;
use vstd::prelude::*;

verus! {

/// Whether every operator in an expression is one of the operators of its
/// kind of expression: binary, unary or logical.
pub open spec fn operators_known(e: ExprView) -> bool
    decreases e,
{
    match e {
        ExprView::Assign { name, value } => operators_known(*value),
        ExprView::Binary { left, operator, right } =>
            is_binary_operator(operator.kind) && operators_known(*left) && operators_known(*right),
        ExprView::Call { callee, paren, arguments } => operators_known(*callee) && all_operators_known(arguments),
        ExprView::Get { object, name } => operators_known(*object),
        ExprView::Grouping { expression } => operators_known(*expression),
        ExprView::Literal { value } => true,
        ExprView::Logical { left, operator, right } =>
            is_logical_operator(operator.kind) && operators_known(*left) && operators_known(*right),
        ExprView::SetProperty { object, name, value } => operators_known(*object) && operators_known(*value),
        ExprView::Super { keyword, method } => true,
        ExprView::This { keyword } => true,
        ExprView::Unary { operator, right } => is_unary_operator(operator.kind) && operators_known(*right),
        ExprView::Variable { name } => true,
    }
}

/// Whether every operator in a sequence of expressions is known.
pub open spec fn all_operators_known(es: Seq<ExprView>) -> bool
    decreases es,
{
    if es.len() == 0 {
        true
    } else {
        operators_known(es[0]) && all_operators_known(es.drop_first())
    }
}

/// Whether every operator in an expression is known and the expression is
/// grouped by precedence.
pub open spec fn expression_well_formed(e: ExprView) -> bool {
    operators_known(e) && respects_precedence(e)
}

/// Whether every operator in a statement is known and every expression in
/// it is grouped by precedence.
pub open spec fn statement_operators_known(s: StmtView) -> bool
    decreases s,
{
    match s {
        StmtView::Block { statements } => statements_operators_known(statements),
        StmtView::Class { name, superclass, methods } => functions_operators_known(methods),
        StmtView::Expression { expression } => expression_well_formed(expression),
        StmtView::Function { function } => function_operators_known(function),
        StmtView::If { condition, then_branch, else_branch } => {
            &&& expression_well_formed(condition)
            &&& statement_operators_known(*then_branch)
            &&& match else_branch {
                Some(b) => statement_operators_known(*b),
                None => true,
            }
        },
        StmtView::Print { expression } => expression_well_formed(expression),
        StmtView::Return { keyword, value } => match value {
            Some(v) => expression_well_formed(v),
            None => true,
        },
        StmtView::Var { name, initializer } => match initializer {
            Some(v) => expression_well_formed(v),
            None => true,
        },
        StmtView::While { condition, body } => expression_well_formed(condition) && statement_operators_known(*body),
    }
}

/// Whether every operator in a sequence of statements is known.
pub open spec fn statements_operators_known(ss: Seq<StmtView>) -> bool
    decreases ss,
{
    if ss.len() == 0 {
        true
    } else {
        statement_operators_known(ss[0]) && statements_operators_known(ss.drop_first())
    }
}

/// Whether every operator in the body of a function is known.
pub open spec fn function_operators_known(f: FunctionView) -> bool
    decreases f,
{
    statements_operators_known(f.body)
}

/// Whether every operator in a sequence of functions is known.
pub open spec fn functions_operators_known(fs: Seq<FunctionView>) -> bool
    decreases fs,
{
    if fs.len() == 0 {
        true
    } else {
        function_operators_known(fs[0]) && functions_operators_known(fs.drop_first())
    }
}

proof fn lemma_all_known_push(es: Seq<ExprView>, e: ExprView)
    ensures
        all_operators_known(es.push(e)) == (all_operators_known(es) && operators_known(e)),
    decreases es.len(),
{
    if es.len() > 0 {
        lemma_all_known_push(es.drop_first(), e);
        assert(es.push(e).drop_first() =~= es.drop_first().push(e));
        assert(es.push(e)[0] == es[0]);
    } else {
        assert(es.push(e).drop_first() =~= Seq::<ExprView>::empty());
        assert(es.push(e)[0] == e);
        assert(all_operators_known(es.push(e).drop_first()));
    }
}

proof fn lemma_statements_known_push(ss: Seq<StmtView>, s: StmtView)
    ensures
        statements_operators_known(ss.push(s)) == (statements_operators_known(ss) && statement_operators_known(s)),
    decreases ss.len(),
{
    if ss.len() > 0 {
        lemma_statements_known_push(ss.drop_first(), s);
        assert(ss.push(s).drop_first() =~= ss.drop_first().push(s));
        assert(ss.push(s)[0] == ss[0]);
    } else {
        assert(ss.push(s).drop_first() =~= Seq::<StmtView>::empty());
        assert(ss.push(s)[0] == s);
        assert(statements_operators_known(ss.push(s).drop_first()));
    }
}

proof fn lemma_functions_known_push(fs: Seq<FunctionView>, f: FunctionView)
    ensures
        functions_operators_known(fs.push(f)) == (functions_operators_known(fs) && function_operators_known(f)),
    decreases fs.len(),
{
    if fs.len() > 0 {
        lemma_functions_known_push(fs.drop_first(), f);
        assert(fs.push(f).drop_first() =~= fs.drop_first().push(f));
        assert(fs.push(f)[0] == fs[0]);
    } else {
        assert(fs.push(f).drop_first() =~= Seq::<FunctionView>::empty());
        assert(fs.push(f)[0] == f);
        assert(functions_operators_known(fs.push(f).drop_first()));
    }
}

proof fn lemma_expression(s: ParserState)
    ensures
        parse_expression(s).1 matches Ok(e) ==> operators_known(e) && respects_precedence(e),
    decreases remaining(s), 50int,
{
    lemma_assignment(s);
    lemma_p_expression(s);
}

proof fn lemma_assignment(s: ParserState)
    ensures
        parse_assignment(s).1 matches Ok(e) ==> operators_known(e),
    decreases remaining(s), 49int,
{
    lemma_operation(Precedence::Or, s);
    let (s1, r) = parse_operation(Precedence::Or, s);
    if r is Ok {
        let (s2, a) = next_token(s1);
        if let Ok(Some(t)) = a {
            if t.kind == TokenKind::Equal && remaining(s2) < remaining(s) {
                lemma_assignment(s2);
            }
        }
    }
}

proof fn lemma_operand(p: Precedence, s: ParserState)
    ensures
        parse_operand(p, s).1 matches Ok(e) ==> operators_known(e),
    decreases remaining(s), level_rank(p) - 1,
{
    match p {
        Precedence::Or => lemma_operation(Precedence::And, s),
        Precedence::And => lemma_operation(Precedence::Equality, s),
        Precedence::Equality => lemma_operation(Precedence::Comparison, s),
        Precedence::Comparison => lemma_operation(Precedence::Term, s),
        Precedence::Term => lemma_operation(Precedence::Factor, s),
        Precedence::Factor => lemma_unary(s),
    }
}

proof fn lemma_operation(p: Precedence, s: ParserState)
    ensures
        parse_operation(p, s).1 matches Ok(e) ==> operators_known(e),
    decreases remaining(s), level_rank(p),
{
    lemma_operand(p, s);
    let (s1, r) = parse_operand(p, s);
    if let Ok(left) = r {
        if remaining(s1) <= remaining(s) {
            lemma_operation_rest(p, s1, left);
        }
    }
}

proof fn lemma_operation_rest(p: Precedence, s: ParserState, left: ExprView)
    requires
        operators_known(left),
    ensures
        parse_operation_rest(p, s, left).1 matches Ok(e) ==> operators_known(e),
    decreases remaining(s), level_rank(p) - 2,
{
    let (s1, a) = next_token(s);
    if let Ok(Some(t)) = a {
        if is_operator_of(p, t.kind) && remaining(s1) < remaining(s) {
            lemma_operand(p, s1);
            let (s2, r) = parse_operand(p, s1);
            if let Ok(right) = r {
                if remaining(s2) < remaining(s) {
                    assert(operators_known(operation_of(p, left, t, right)));
                    lemma_operation_rest(p, s2, operation_of(p, left, t, right));
                }
            }
        }
    }
}

proof fn lemma_unary(s: ParserState)
    ensures
        parse_unary(s).1 matches Ok(e) ==> operators_known(e),
    decreases remaining(s), 30int,
{
    let (s1, a) = next_token(s);
    if let Ok(Some(t)) = a {
        if t.kind == TokenKind::Bang || t.kind == TokenKind::Minus {
            if remaining(s1) < remaining(s) {
                lemma_unary(s1);
            }
        } else if remaining(put_back(s1, t)) <= remaining(s) {
            lemma_call(put_back(s1, t));
        }
    }
}

proof fn lemma_call(s: ParserState)
    ensures
        parse_call(s).1 matches Ok(e) ==> operators_known(e),
    decreases remaining(s), 29int,
{
    lemma_primary(s);
    let (s1, r) = parse_primary(s);
    if let Ok(callee) = r {
        if remaining(s1) <= remaining(s) {
            lemma_call_rest(s1, callee);
        }
    }
}

proof fn lemma_call_rest(s: ParserState, callee: ExprView)
    requires
        operators_known(callee),
    ensures
        parse_call_rest(s, callee).1 matches Ok(e) ==> operators_known(e),
    decreases remaining(s), 28int,
{
    let (s1, a) = next_token(s);
    if let Ok(Some(t)) = a {
        if t.kind == TokenKind::LeftParen {
            if remaining(s1) < remaining(s) {
                lemma_finish_call(s1, callee);
                let (s2, r) = parse_finish_call(s1, callee);
                if let Ok(call) = r {
                    if remaining(s2) < remaining(s) {
                        lemma_call_rest(s2, call);
                    }
                }
            }
        } else if t.kind == TokenKind::Dot {
            let (s2, r) = expect(s1, TokenKind::Identifier);
            if let Ok(name) = r {
                if remaining(s2) < remaining(s) {
                    lemma_call_rest(s2, ExprView::Get { object: Box::new(callee), name });
                }
            }
        }
    }
}

#[verifier::spinoff_prover]
proof fn lemma_finish_call(s: ParserState, callee: ExprView)
    requires
        operators_known(callee),
    ensures
        parse_finish_call(s, callee).1 matches Ok(e) ==> operators_known(e),
    decreases remaining(s), 52int,
{
    let (s1, a) = next_token(s);
    assert(all_operators_known(Seq::<ExprView>::empty()));
    if let Ok(Some(t)) = a {
        if t.kind != TokenKind::RightParen && remaining(put_back(s1, t)) <= remaining(s) {
            lemma_arguments(put_back(s1, t), Seq::empty());
            let (s2, r) = parse_arguments(put_back(s1, t), Seq::empty());
            if let Ok((arguments, paren)) = r {
                assert(arguments.len() <= max_arguments() ==> operators_known(
                    ExprView::Call { callee: Box::new(callee), paren, arguments },
                ));
            }
        }
    }
}

proof fn lemma_arguments(s: ParserState, args: Seq<ExprView>)
    requires
        all_operators_known(args),
    ensures
        parse_arguments(s, args).1 matches Ok((arguments, _)) ==> all_operators_known(arguments),
    decreases remaining(s), 51int,
{
    lemma_expression(s);
    let (s1, r) = parse_expression(s);
    if let Ok(arg) = r {
        lemma_all_known_push(args, arg);
        let args1 = args.push(arg);
        let (s2, a) = next_token(s1);
        match a {
            Ok(Some(t)) => if t.kind == TokenKind::Comma && remaining(s2) < remaining(s) {
                lemma_arguments(s2, args1);
            },
            Ok(None) => if remaining(s2) < remaining(s) {
                lemma_arguments(s2, args1);
            },
            Err(_) => {},
        }
    }
}

proof fn lemma_primary(s: ParserState)
    ensures
        parse_primary(s).1 matches Ok(e) ==> operators_known(e),
    decreases remaining(s), 27int,
{
    let (s1, a) = next_token(s);
    if let Ok(Some(t)) = a {
        if t.kind == TokenKind::LeftParen && remaining(s1) < remaining(s) {
            lemma_expression(s1);
        }
    }
}

/// Every operator in an expression that the parser gives is one of the
/// operators of its kind of expression.
pub proof fn law_parsed_expression_operators_are_known(items: Seq<Result<TokenView, LexingErrorView>>)
    ensures
        spec_parse_expr(items) matches Ok(e) ==> operators_known(e),
{
    lemma_expression(start_state(items));
}

proof fn lemma_expression_statement(s: ParserState)
    ensures
        parse_expression_statement(s).1 matches Ok(st) ==> statement_operators_known(st),
{
    lemma_expression(s);
}

proof fn lemma_print(s: ParserState)
    ensures
        parse_print(s).1 matches Ok(st) ==> statement_operators_known(st),
{
    lemma_expression(s);
}

proof fn lemma_return(s: ParserState, keyword: TokenView)
    ensures
        parse_return(s, keyword).1 matches Ok(st) ==> statement_operators_known(st),
{
    let (s1, a) = next_token(s);
    match a {
        Ok(Some(t)) => if t.kind != TokenKind::Semicolon {
            lemma_expression(put_back(s1, t));
            assert(parse_return_value(put_back(s1, t), keyword).1 matches Ok(st) ==> statement_operators_known(st));
        },
        Ok(None) => {
            lemma_expression(s1);
            assert(parse_return_value(s1, keyword).1 matches Ok(st) ==> statement_operators_known(st));
        },
        Err(_) => {},
    }
}

proof fn lemma_var_declaration(s: ParserState)
    ensures
        parse_var_declaration(s).1 matches Ok(st) ==> statement_operators_known(st),
{
    let (s1, n) = expect(s, TokenKind::Identifier);
    if let Ok(name) = n {
        let (s2, a) = next_token(s1);
        if let Ok(Some(t)) = a {
            if t.kind == TokenKind::Equal {
                lemma_expression(s2);
                let (s3, r) = parse_expression(s2);
                if let Ok(init) = r {
                    assert(parse_var_end(s3, name, Some(init)).1 matches Ok(st) ==> statement_operators_known(st));
                }
            }
        }
    }
}

proof fn lemma_for_initializer(s: ParserState)
    ensures
        parse_for_initializer(s).1 matches Ok(Some(st)) ==> statement_operators_known(st),
{
    let (s1, a) = next_token(s);
    if let Ok(Some(t)) = a {
        if t.kind == TokenKind::Var {
            lemma_var_declaration(s1);
        } else if t.kind != TokenKind::Semicolon {
            lemma_expression_statement(put_back(s1, t));
        }
    }
}

proof fn lemma_for_condition(s: ParserState)
    ensures
        parse_for_condition(s).1 matches Ok(c) ==> expression_well_formed(c),
{
    let (s1, a) = next_token(s);
    if let Ok(Some(t)) = a {
        if t.kind != TokenKind::Semicolon {
            lemma_expression(put_back(s1, t));
        }
    }
}

proof fn lemma_for_increment(s: ParserState)
    ensures
        parse_for_increment(s).1 matches Ok(Some(st)) ==> statement_operators_known(st),
{
    let (s1, a) = next_token(s);
    if let Ok(Some(t)) = a {
        if t.kind != TokenKind::RightParen {
            lemma_expression(put_back(s1, t));
        }
    }
}

proof fn lemma_pair_known(a: StmtView, b: StmtView)
    ensures
        statements_operators_known(seq![a, b]) == (statement_operators_known(a) && statement_operators_known(b)),
{
    let one = seq![b];
    let two = seq![a, b];
    assert(one[0] == b);
    assert(one.drop_first() =~= Seq::<StmtView>::empty());
    assert(statements_operators_known(Seq::<StmtView>::empty()));
    assert(statements_operators_known(one) == statement_operators_known(b));
    assert(two[0] == a);
    assert(two.drop_first() =~= one);
}

proof fn lemma_desugar_for(initializer: Option<StmtView>, condition: ExprView, increment: Option<StmtView>, body: StmtView)
    requires
        initializer matches Some(i) ==> statement_operators_known(i),
        expression_well_formed(condition),
        increment matches Some(i) ==> statement_operators_known(i),
        statement_operators_known(body),
    ensures
        statement_operators_known(desugar_for(initializer, condition, increment, body)),
{
    let looped_body = match increment {
        Some(incr) => {
            lemma_pair_known(body, incr);
            StmtView::Block { statements: seq![body, incr] }
        },
        None => body,
    };
    assert(statement_operators_known(looped_body));
    let looped = StmtView::While { condition, body: Box::new(looped_body) };
    assert(statement_operators_known(looped));
    match initializer {
        Some(init) => {
            lemma_pair_known(init, looped);
            assert(desugar_for(initializer, condition, increment, body) == StmtView::Block { statements: seq![init, looped] });
        },
        None => {
            assert(desugar_for(initializer, condition, increment, body) == looped);
        },
    }
}

proof fn lemma_declaration(s: ParserState, in_block: bool)
    ensures
        parse_declaration(s, in_block).1 matches Some(Ok(st)) ==> statement_operators_known(st),
    decreases remaining(s), 61int,
{
    let (s1, a) = next_token(s);
    if let Ok(Some(t)) = a {
        if in_block && t.kind == TokenKind::RightBrace {
        } else if t.kind == TokenKind::EndOfFile {
        } else if t.kind == TokenKind::Var {
            lemma_var_declaration(s1);
        } else if t.kind == TokenKind::Class {
            if remaining(s1) < remaining(s) {
                lemma_class(s1);
            }
        } else if t.kind == TokenKind::Fun {
            if remaining(s1) < remaining(s) {
                lemma_function(s1);
            }
        } else if remaining(put_back(s1, t)) <= remaining(s) {
            lemma_statement(put_back(s1, t));
        }
    }
}

proof fn lemma_statement(s: ParserState)
    ensures
        parse_statement(s).1 matches Ok(st) ==> statement_operators_known(st),
    decreases remaining(s), 60int,
{
    let (s1, a) = next_token(s);
    if let Ok(Some(t)) = a {
        if remaining(s1) < remaining(s) {
            match t.kind {
                TokenKind::LeftBrace => {
                    assert(statements_operators_known(Seq::<StmtView>::empty()));
                    lemma_block(s1, Seq::empty());
                },
                TokenKind::For => lemma_for(s1),
                TokenKind::If => lemma_if(s1),
                TokenKind::Print => lemma_print(s1),
                TokenKind::Return => lemma_return(s1, t),
                TokenKind::While => lemma_while(s1),
                _ => lemma_expression_statement(put_back(s1, t)),
            }
        }
    }
}

proof fn lemma_block(s: ParserState, statements: Seq<StmtView>)
    requires
        statements_operators_known(statements),
    ensures
        parse_block(s, statements).1 matches Ok(ss) ==> statements_operators_known(ss),
    decreases remaining(s), 62int,
{
    lemma_declaration(s, true);
    let (s1, d) = parse_declaration(s, true);
    if let Some(Ok(st)) = d {
        if remaining(s1) < remaining(s) {
            lemma_statements_known_push(statements, st);
            lemma_block(s1, statements.push(st));
        }
    }
}

proof fn lemma_for(s: ParserState)
    ensures
        parse_for(s).1 matches Ok(st) ==> statement_operators_known(st),
    decreases remaining(s), 59int,
{
    let (s1, p) = expect(s, TokenKind::LeftParen);
    if p is Ok {
        lemma_for_initializer(s1);
        let (s2, i) = parse_for_initializer(s1);
        if let Ok(initializer) = i {
            lemma_for_condition(s2);
            let (s3, c) = parse_for_condition(s2);
            if let Ok(condition) = c {
                lemma_for_increment(s3);
                let (s4, n) = parse_for_increment(s3);
                if let Ok(increment) = n {
                    if remaining(s4) < remaining(s) {
                        lemma_statement(s4);
                        let (s5, b) = parse_statement(s4);
                        if let Ok(body) = b {
                            lemma_desugar_for(initializer, condition, increment, body);
                        }
                    }
                }
            }
        }
    }
}

proof fn lemma_if(s: ParserState)
    ensures
        parse_if(s).1 matches Ok(st) ==> statement_operators_known(st),
    decreases remaining(s), 59int,
{
    let (s1, p) = expect(s, TokenKind::LeftParen);
    if p is Ok {
        lemma_expression(s1);
        let (s2, c) = parse_expression(s1);
        if c is Ok {
            let (s3, q) = expect(s2, TokenKind::RightParen);
            if q is Ok && remaining(s3) < remaining(s) {
                lemma_statement(s3);
                let (s4, t) = parse_statement(s3);
                if t is Ok {
                    let (s5, a) = next_token(s4);
                    if let Ok(Some(tk)) = a {
                        if tk.kind == TokenKind::Else && remaining(s5) < remaining(s) {
                            lemma_statement(s5);
                        }
                    }
                }
            }
        }
    }
}

proof fn lemma_while(s: ParserState)
    ensures
        parse_while(s).1 matches Ok(st) ==> statement_operators_known(st),
    decreases remaining(s), 59int,
{
    let (s1, p) = expect(s, TokenKind::LeftParen);
    if p is Ok {
        lemma_expression(s1);
        let (s2, c) = parse_expression(s1);
        if c is Ok {
            let (s3, q) = expect(s2, TokenKind::RightParen);
            if q is Ok && remaining(s3) < remaining(s) {
                lemma_statement(s3);
            }
        }
    }
}

proof fn lemma_function(s: ParserState)
    ensures
        parse_function(s).1 matches Ok(f) ==> function_operators_known(f),
    decreases remaining(s), 63int,
{
    let (s1, n) = expect(s, TokenKind::Identifier);
    if n is Ok {
        let (s2, p) = expect(s1, TokenKind::LeftParen);
        if p is Ok {
            let (s3, ps) = crate::grammar::parse_parameters(s2);
            if ps is Ok {
                let (s4, b) = expect(s3, TokenKind::LeftBrace);
                if b is Ok && remaining(s4) < remaining(s) {
                    assert(statements_operators_known(Seq::<StmtView>::empty()));
                    lemma_block(s4, Seq::empty());
                }
            }
        }
    }
}

proof fn lemma_methods(s: ParserState, methods: Seq<FunctionView>)
    requires
        functions_operators_known(methods),
    ensures
        parse_methods(s, methods).1 matches Ok(fs) ==> functions_operators_known(fs),
    decreases remaining(s), 64int,
{
    let (s1, a) = next_token(s);
    if let Ok(Some(t)) = a {
        if t.kind != TokenKind::RightBrace && t.kind != TokenKind::EndOfFile
            && remaining(put_back(s1, t)) <= remaining(s) {
            lemma_function(put_back(s1, t));
            let (s2, r) = parse_function(put_back(s1, t));
            if let Ok(f) = r {
                if remaining(s2) < remaining(s) {
                    lemma_functions_known_push(methods, f);
                    lemma_methods(s2, methods.push(f));
                }
            }
        }
    }
}

proof fn lemma_class(s: ParserState)
    ensures
        parse_class(s).1 matches Ok(st) ==> statement_operators_known(st),
    decreases remaining(s), 59int,
{
    let (s1, n) = expect(s, TokenKind::Identifier);
    if n is Ok {
        let (s2, sup) = crate::grammar::parse_superclass(s1);
        if sup is Ok {
            let (s3, b) = expect(s2, TokenKind::LeftBrace);
            if b is Ok && remaining(s3) < remaining(s) {
                assert(functions_operators_known(Seq::<FunctionView>::empty()));
                lemma_methods(s3, Seq::empty());
            }
        }
    }
}

proof fn lemma_program_from(s: ParserState, statements: Seq<StmtView>, errors: Seq<crate::syntax::SyntaxErrorView>)
    requires
        statements_operators_known(statements),
    ensures
        statements_operators_known(parse_program_from(s, statements, errors).0),
    decreases remaining(s),
{
    lemma_declaration(s, false);
    let (s1, d) = parse_declaration(s, false);
    match d {
        None => {},
        Some(Ok(st)) => if remaining(s1) < remaining(s) {
            lemma_statements_known_push(statements, st);
            lemma_program_from(s1, statements.push(st), errors);
        },
        Some(Err(e)) => {
            let (s2, r) = synchronize(s1);
            if r is Ok && remaining(s2) < remaining(s) {
                lemma_program_from(s2, statements, errors.push(e));
            }
        },
    }
}

/// Every operator in a program that the parser gives is one of the
/// operators of its kind of expression, and every expression in it is
/// grouped by precedence; with
/// `law_operators_of_lox_are_not_refused`, the interpreter never refuses an
/// operator of a parsed program as no binary or no unary operator.
pub proof fn law_parsed_program_operators_are_known(items: Seq<Result<TokenView, LexingErrorView>>)
    ensures
        spec_parse(items) matches Ok(ss) ==> statements_operators_known(ss),
{
    assert(statements_operators_known(Seq::<StmtView>::empty()));
    lemma_program_from(start_state(items), Seq::empty(), Seq::empty());
}

// ---------------------------------------------------------------------------
// Precedence
// ---------------------------------------------------------------------------

/// How tightly an operator binds: `or` loosest, then `and`, equality,
/// comparison, `+` and `-`, and `*` and `/` tightest; operands that are no
/// operation bind tighter still.
pub open spec fn binding(kind: TokenKind) -> int {
    match kind {
        TokenKind::Or => 1,
        TokenKind::And => 2,
        TokenKind::BangEqual | TokenKind::EqualEqual => 3,
        TokenKind::Greater | TokenKind::GreaterEqual | TokenKind::Less | TokenKind::LessEqual => 4,
        TokenKind::Minus | TokenKind::Plus => 5,
        TokenKind::Slash | TokenKind::Star => 6,
        _ => 7,
    }
}

/// How tightly the outermost operation of an expression binds: that of its
/// operator for a binary or logical expression, loosest for an assignment,
/// tightest for anything else.
pub open spec fn top_binding(e: ExprView) -> int {
    match e {
        ExprView::Binary { left, operator, right } => binding(operator.kind),
        ExprView::Logical { left, operator, right } => binding(operator.kind),
        ExprView::Assign { name, value } => 0,
        ExprView::SetProperty { object, name, value } => 0,
        _ => 7,
    }
}

/// Whether an expression is grouped as precedence and left associativity
/// ask: the left operand of an operation binds at least as tightly as its
/// operator, the right operand more tightly, and a unary operator applies to
/// an operand that is no binary operation; groupings in parentheses start
/// afresh.
pub open spec fn respects_precedence(e: ExprView) -> bool
    decreases e,
{
    match e {
        ExprView::Assign { name, value } => respects_precedence(*value),
        ExprView::Binary { left, operator, right } => {
            &&& top_binding(*left) >= binding(operator.kind)
            &&& top_binding(*right) > binding(operator.kind)
            &&& respects_precedence(*left)
            &&& respects_precedence(*right)
        },
        ExprView::Call { callee, paren, arguments } => respects_precedence(*callee) && all_respect_precedence(arguments),
        ExprView::Get { object, name } => respects_precedence(*object),
        ExprView::Grouping { expression } => respects_precedence(*expression),
        ExprView::Logical { left, operator, right } => {
            &&& top_binding(*left) >= binding(operator.kind)
            &&& top_binding(*right) > binding(operator.kind)
            &&& respects_precedence(*left)
            &&& respects_precedence(*right)
        },
        ExprView::SetProperty { object, name, value } => respects_precedence(*object) && respects_precedence(*value),
        ExprView::Unary { operator, right } => top_binding(*right) == 7 && respects_precedence(*right),
        _ => true,
    }
}

/// Whether every expression of a sequence is grouped as precedence asks.
pub open spec fn all_respect_precedence(es: Seq<ExprView>) -> bool
    decreases es,
{
    if es.len() == 0 {
        true
    } else {
        respects_precedence(es[0]) && all_respect_precedence(es.drop_first())
    }
}

/// How tightly the operators of a level of the parser bind.
spec fn level_binding(p: Precedence) -> int {
    match p {
        Precedence::Or => 1,
        Precedence::And => 2,
        Precedence::Equality => 3,
        Precedence::Comparison => 4,
        Precedence::Term => 5,
        Precedence::Factor => 6,
    }
}

proof fn lemma_all_respect_push(es: Seq<ExprView>, e: ExprView)
    ensures
        all_respect_precedence(es.push(e)) == (all_respect_precedence(es) && respects_precedence(e)),
    decreases es.len(),
{
    if es.len() > 0 {
        lemma_all_respect_push(es.drop_first(), e);
        assert(es.push(e).drop_first() =~= es.drop_first().push(e));
        assert(es.push(e)[0] == es[0]);
    } else {
        assert(es.push(e).drop_first() =~= Seq::<ExprView>::empty());
        assert(es.push(e)[0] == e);
        assert(all_respect_precedence(es.push(e).drop_first()));
    }
}

proof fn lemma_p_expression(s: ParserState)
    ensures
        parse_expression(s).1 matches Ok(e) ==> respects_precedence(e),
    decreases remaining(s), 50int,
{
    lemma_p_assignment(s);
}

proof fn lemma_p_assignment(s: ParserState)
    ensures
        parse_assignment(s).1 matches Ok(e) ==> respects_precedence(e),
    decreases remaining(s), 49int,
{
    lemma_p_operation(Precedence::Or, s);
    let (s1, r) = parse_operation(Precedence::Or, s);
    if r is Ok {
        let (s2, a) = next_token(s1);
        if let Ok(Some(t)) = a {
            if t.kind == TokenKind::Equal && remaining(s2) < remaining(s) {
                lemma_p_assignment(s2);
            }
        }
    }
}

proof fn lemma_p_operand(p: Precedence, s: ParserState)
    ensures
        parse_operand(p, s).1 matches Ok(e) ==> respects_precedence(e) && top_binding(e) > level_binding(p),
    decreases remaining(s), level_rank(p) - 1,
{
    match p {
        Precedence::Or => lemma_p_operation(Precedence::And, s),
        Precedence::And => lemma_p_operation(Precedence::Equality, s),
        Precedence::Equality => lemma_p_operation(Precedence::Comparison, s),
        Precedence::Comparison => lemma_p_operation(Precedence::Term, s),
        Precedence::Term => lemma_p_operation(Precedence::Factor, s),
        Precedence::Factor => lemma_p_unary(s),
    }
}

proof fn lemma_p_operation(p: Precedence, s: ParserState)
    ensures
        parse_operation(p, s).1 matches Ok(e) ==> respects_precedence(e) && top_binding(e) >= level_binding(p),
    decreases remaining(s), level_rank(p),
{
    lemma_p_operand(p, s);
    let (s1, r) = parse_operand(p, s);
    if let Ok(left) = r {
        if remaining(s1) <= remaining(s) {
            lemma_p_operation_rest(p, s1, left);
        }
    }
}

proof fn lemma_p_operation_rest(p: Precedence, s: ParserState, left: ExprView)
    requires
        respects_precedence(left),
        top_binding(left) >= level_binding(p),
    ensures
        parse_operation_rest(p, s, left).1 matches Ok(e) ==> respects_precedence(e) && top_binding(e) >= level_binding(p),
    decreases remaining(s), level_rank(p) - 2,
{
    let (s1, a) = next_token(s);
    if let Ok(Some(t)) = a {
        if is_operator_of(p, t.kind) && remaining(s1) < remaining(s) {
            assert(binding(t.kind) == level_binding(p));
            lemma_p_operand(p, s1);
            let (s2, r) = parse_operand(p, s1);
            if let Ok(right) = r {
                if remaining(s2) < remaining(s) {
                    assert(respects_precedence(operation_of(p, left, t, right)));
                    lemma_p_operation_rest(p, s2, operation_of(p, left, t, right));
                }
            }
        }
    }
}

proof fn lemma_p_unary(s: ParserState)
    ensures
        parse_unary(s).1 matches Ok(e) ==> respects_precedence(e) && top_binding(e) == 7,
    decreases remaining(s), 30int,
{
    let (s1, a) = next_token(s);
    if let Ok(Some(t)) = a {
        if t.kind == TokenKind::Bang || t.kind == TokenKind::Minus {
            if remaining(s1) < remaining(s) {
                lemma_p_unary(s1);
            }
        } else if remaining(put_back(s1, t)) <= remaining(s) {
            lemma_p_call(put_back(s1, t));
        }
    }
}

proof fn lemma_p_call(s: ParserState)
    ensures
        parse_call(s).1 matches Ok(e) ==> respects_precedence(e) && top_binding(e) == 7,
    decreases remaining(s), 29int,
{
    lemma_p_primary(s);
    let (s1, r) = parse_primary(s);
    if let Ok(callee) = r {
        if remaining(s1) <= remaining(s) {
            lemma_p_call_rest(s1, callee);
        }
    }
}

proof fn lemma_p_call_rest(s: ParserState, callee: ExprView)
    requires
        respects_precedence(callee),
        top_binding(callee) == 7,
    ensures
        parse_call_rest(s, callee).1 matches Ok(e) ==> respects_precedence(e) && top_binding(e) == 7,
    decreases remaining(s), 28int,
{
    let (s1, a) = next_token(s);
    if let Ok(Some(t)) = a {
        if t.kind == TokenKind::LeftParen {
            if remaining(s1) < remaining(s) {
                lemma_p_finish_call(s1, callee);
                let (s2, r) = parse_finish_call(s1, callee);
                if let Ok(call) = r {
                    if remaining(s2) < remaining(s) {
                        lemma_p_call_rest(s2, call);
                    }
                }
            }
        } else if t.kind == TokenKind::Dot {
            let (s2, r) = expect(s1, TokenKind::Identifier);
            if let Ok(name) = r {
                if remaining(s2) < remaining(s) {
                    lemma_p_call_rest(s2, ExprView::Get { object: Box::new(callee), name });
                }
            }
        }
    }
}

#[verifier::spinoff_prover]
proof fn lemma_p_finish_call(s: ParserState, callee: ExprView)
    requires
        respects_precedence(callee),
    ensures
        parse_finish_call(s, callee).1 matches Ok(e) ==> respects_precedence(e) && top_binding(e) == 7,
    decreases remaining(s), 52int,
{
    let (s1, a) = next_token(s);
    assert(all_respect_precedence(Seq::<ExprView>::empty()));
    if let Ok(Some(t)) = a {
        if t.kind != TokenKind::RightParen && remaining(put_back(s1, t)) <= remaining(s) {
            lemma_p_arguments(put_back(s1, t), Seq::empty());
            let (s2, r) = parse_arguments(put_back(s1, t), Seq::empty());
            if let Ok((arguments, paren)) = r {
                assert(arguments.len() <= max_arguments() ==> respects_precedence(
                    ExprView::Call { callee: Box::new(callee), paren, arguments },
                ));
            }
        }
    }
}

proof fn lemma_p_arguments(s: ParserState, args: Seq<ExprView>)
    requires
        all_respect_precedence(args),
    ensures
        parse_arguments(s, args).1 matches Ok((arguments, _)) ==> all_respect_precedence(arguments),
    decreases remaining(s), 51int,
{
    lemma_p_expression(s);
    let (s1, r) = parse_expression(s);
    if let Ok(arg) = r {
        lemma_all_respect_push(args, arg);
        let args1 = args.push(arg);
        let (s2, a) = next_token(s1);
        match a {
            Ok(Some(t)) => if t.kind == TokenKind::Comma && remaining(s2) < remaining(s) {
                lemma_p_arguments(s2, args1);
            },
            Ok(None) => if remaining(s2) < remaining(s) {
                lemma_p_arguments(s2, args1);
            },
            Err(_) => {},
        }
    }
}

proof fn lemma_p_primary(s: ParserState)
    ensures
        parse_primary(s).1 matches Ok(e) ==> respects_precedence(e) && top_binding(e) == 7,
    decreases remaining(s), 27int,
{
    let (s1, a) = next_token(s);
    if let Ok(Some(t)) = a {
        if t.kind == TokenKind::LeftParen && remaining(s1) < remaining(s) {
            lemma_p_expression(s1);
        }
    }
}

/// Every expression that the parser gives is grouped by precedence, left to
/// right among operators of one level: `*` and `/` bind tighter than `+` and
/// `-`, which bind tighter than comparisons, then equality, `and` and `or`.
/// So `a + b * c` groups as `a + (b * c)` and `a * b + c` as `(a * b) + c`.
pub proof fn law_parsed_expressions_respect_precedence(items: Seq<Result<TokenView, LexingErrorView>>)
    ensures
        spec_parse_expr(items) matches Ok(e) ==> respects_precedence(e),
{
    lemma_p_expression(start_state(items));
}

} // verus!
