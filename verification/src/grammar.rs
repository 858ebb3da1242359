//! The syntactic grammar of Lox, stated as a recursive-descent parser over
//! the items of the lexer.
//!
//! The parser reads one item at a time and may put the last token back, to be
//! read again; a state records the items not read yet, the token put back and
//! the location of the last token read, where errors found without a token of
//! their own are reported.
use crate::expr::{ExprView, LiteralValue};
use crate::span::Span;
use crate::stmt::{FunctionView, StmtView};
use crate::syntax::{syntax_error_of, SyntaxErrorCodeView, SyntaxErrorView};
use crate::token::{spec_unescape, LiteralView, TokenKind, TokenView};
use crate::tokenize::LexingErrorView;
use vstd::prelude::*;

verus! {

/// The state of the parser: the items not read yet, the token put back and
/// the location of the last token read.
pub struct ParserState {
    pub rest: Seq<Result<TokenView, LexingErrorView>>,
    pub peeked: Option<TokenView>,
    pub last: Span,
}

/// The number of items still to read, a token put back included.
pub open spec fn remaining(s: ParserState) -> nat {
    s.rest.len() + if s.peeked is Some { 1nat } else { 0nat }
}

/// The state before reading `items`.
pub open spec fn start_state(items: Seq<Result<TokenView, LexingErrorView>>) -> ParserState {
    ParserState { rest: items, peeked: None, last: Span { offset: 0, length: 0 } }
}

/// The token that the next read gives, if it gives a token.
pub open spec fn first_token(s: ParserState) -> Option<TokenView> {
    match s.peeked {
        Some(t) => Some(t),
        None => if s.rest.len() > 0 && s.rest[0] is Ok {
            Some(s.rest[0]->Ok_0)
        } else {
            None
        },
    }
}

/// Reading the next item: the token put back if there is one, else the next
/// item, whose lexing error becomes a syntax error; nothing at the end.
pub open spec fn next_token(s: ParserState) -> (ParserState, Result<Option<TokenView>, SyntaxErrorView>) {
    match s.peeked {
        Some(t) => (ParserState { rest: s.rest, peeked: None, last: t.location }, Ok(Some(t))),
        None => if s.rest.len() == 0 {
            (s, Ok(None))
        } else {
            match s.rest[0] {
                Ok(t) => (ParserState { rest: s.rest.drop_first(), peeked: None, last: t.location }, Ok(Some(t))),
                Err(e) => (ParserState { rest: s.rest.drop_first(), peeked: None, last: s.last }, Err(syntax_error_of(e))),
            }
        },
    }
}

/// Putting a token back, to be read again; a token put back before is lost.
pub open spec fn put_back(s: ParserState, t: TokenView) -> ParserState {
    ParserState { rest: s.rest, peeked: Some(t), last: s.last }
}

/// An error reported at the location of the last token read.
pub open spec fn error_at_last(s: ParserState, code: SyntaxErrorCodeView) -> SyntaxErrorView {
    SyntaxErrorView { code, location: s.last }
}

/// The outcome of a step that reads nothing more although it must: never
/// reached, as every parsing function reads what it consumes.
pub open spec fn stalled<A>(s: ParserState) -> (ParserState, Result<A, SyntaxErrorView>) {
    (s, Err(error_at_last(s, SyntaxErrorCodeView::UnexpectedEndOfInput)))
}

/// Reading a token of the given kind: a token of another kind is put back
/// and reported missing at its own location; at the end of the items it is
/// reported at the last location.
pub open spec fn expect(s: ParserState, kind: TokenKind) -> (ParserState, Result<TokenView, SyntaxErrorView>) {
    let (s1, a) = next_token(s);
    match a {
        Err(e) => (s1, Err(e)),
        Ok(Some(t)) => if t.kind == kind {
            (s1, Ok(t))
        } else {
            (put_back(s1, t), Err(SyntaxErrorView { code: SyntaxErrorCodeView::MissingToken(kind), location: t.location }))
        },
        Ok(None) => (s1, Err(error_at_last(s1, SyntaxErrorCodeView::MissingToken(kind)))),
    }
}

// ---------------------------------------------------------------------------
// Expressions
// ---------------------------------------------------------------------------

/// The levels of binary operators, from the loosest to the tightest.
#[derive(Debug, Clone, Copy, PartialEq, Eq, Structural)]
pub enum Precedence {
    Or,
    And,
    Equality,
    Comparison,
    Term,
    Factor,
}

/// The next tighter level; after the factors come unary operations.
pub open spec fn tighter(p: Precedence) -> Option<Precedence> {
    match p {
        Precedence::Or => Some(Precedence::And),
        Precedence::And => Some(Precedence::Equality),
        Precedence::Equality => Some(Precedence::Comparison),
        Precedence::Comparison => Some(Precedence::Term),
        Precedence::Term => Some(Precedence::Factor),
        Precedence::Factor => None,
    }
}

/// Whether a token kind is an operator of the given level.
pub open spec fn is_operator_of(p: Precedence, kind: TokenKind) -> bool {
    match p {
        Precedence::Or => kind == TokenKind::Or,
        Precedence::And => kind == TokenKind::And,
        Precedence::Equality => kind == TokenKind::BangEqual || kind == TokenKind::EqualEqual,
        Precedence::Comparison => kind == TokenKind::Greater || kind == TokenKind::GreaterEqual
            || kind == TokenKind::Less || kind == TokenKind::LessEqual,
        Precedence::Term => kind == TokenKind::Minus || kind == TokenKind::Plus,
        Precedence::Factor => kind == TokenKind::Slash || kind == TokenKind::Star,
    }
}

/// The operation of an operator of the given level on two operands: `and`
/// and `or` are logical, the others binary.
pub open spec fn operation_of(p: Precedence, left: ExprView, operator: TokenView, right: ExprView) -> ExprView {
    match p {
        Precedence::Or | Precedence::And => ExprView::Logical { left: Box::new(left), operator, right: Box::new(right) },
        _ => ExprView::Binary { left: Box::new(left), operator, right: Box::new(right) },
    }
}

/// The rank of a level in the order of the parsing functions.
pub open spec fn level_rank(p: Precedence) -> int {
    match p {
        Precedence::Or => 48,
        Precedence::And => 46,
        Precedence::Equality => 44,
        Precedence::Comparison => 42,
        Precedence::Term => 40,
        Precedence::Factor => 38,
    }
}

/// The most arguments that a call may have.
pub open spec fn max_arguments() -> nat {
    255
}

/// The text of a number literal token.
pub open spec fn number_text(t: TokenView) -> Seq<char> {
    match t.literal {
        Some(LiteralView::Number(text)) => text,
        _ => t.lexeme,
    }
}

/// The value of a string literal token.
pub open spec fn string_value(t: TokenView) -> Seq<char> {
    match t.literal {
        Some(LiteralView::String(value)) => value,
        _ => spec_unescape(t.lexeme),
    }
}

/// expression → assignment
pub open spec fn parse_expression(s: ParserState) -> (ParserState, Result<ExprView, SyntaxErrorView>)
    decreases remaining(s), 50int,
{
    parse_assignment(s)
}

/// assignment → ( call "." )? IDENTIFIER "=" assignment | logic_or
///
/// The target is parsed as an expression first; when it is neither a variable
/// nor a property, the `=` is put back and the assignment is refused.
pub open spec fn parse_assignment(s: ParserState) -> (ParserState, Result<ExprView, SyntaxErrorView>)
    decreases remaining(s), 49int,
{
    let (s1, r) = parse_operation(Precedence::Or, s);
    match r {
        Err(e) => (s1, Err(e)),
        Ok(target) => {
            let (s2, a) = next_token(s1);
            match a {
                Err(e) => (s2, Err(e)),
                Ok(None) => (s2, Ok(target)),
                Ok(Some(t)) => if t.kind == TokenKind::Equal {
                    if remaining(s2) < remaining(s) {
                        let (s3, v) = parse_assignment(s2);
                        match v {
                            Err(e) => (s3, Err(e)),
                            Ok(value) => match target {
                                ExprView::Variable { name } => (s3, Ok(ExprView::Assign { name, value: Box::new(value) })),
                                ExprView::Get { object, name } =>
                                    (s3, Ok(ExprView::SetProperty { object, name, value: Box::new(value) })),
                                _ => (put_back(s3, t), Err(error_at_last(s3, SyntaxErrorCodeView::InvalidAssignmentTarget))),
                            },
                        }
                    } else {
                        stalled(s2)
                    }
                } else {
                    (put_back(s2, t), Ok(target))
                },
            }
        },
    }
}

/// The operand of an operator of the given level.
pub open spec fn parse_operand(p: Precedence, s: ParserState) -> (ParserState, Result<ExprView, SyntaxErrorView>)
    decreases remaining(s), level_rank(p) - 1,
{
    match p {
        Precedence::Or => parse_operation(Precedence::And, s),
        Precedence::And => parse_operation(Precedence::Equality, s),
        Precedence::Equality => parse_operation(Precedence::Comparison, s),
        Precedence::Comparison => parse_operation(Precedence::Term, s),
        Precedence::Term => parse_operation(Precedence::Factor, s),
        Precedence::Factor => parse_unary(s),
    }
}

/// An operation of the given level: operands joined by its operators, left
/// to right.
pub open spec fn parse_operation(p: Precedence, s: ParserState) -> (ParserState, Result<ExprView, SyntaxErrorView>)
    decreases remaining(s), level_rank(p),
{
    let (s1, r) = parse_operand(p, s);
    match r {
        Err(e) => (s1, Err(e)),
        Ok(left) => if remaining(s1) <= remaining(s) {
            parse_operation_rest(p, s1, left)
        } else {
            stalled(s1)
        },
    }
}

/// The rest of an operation of the given level after its left operand.
pub open spec fn parse_operation_rest(p: Precedence, s: ParserState, left: ExprView) -> (ParserState, Result<ExprView, SyntaxErrorView>)
    decreases remaining(s), level_rank(p) - 2,
{
    let (s1, a) = next_token(s);
    match a {
        Err(e) => (s1, Err(e)),
        Ok(None) => (s1, Ok(left)),
        Ok(Some(t)) => if is_operator_of(p, t.kind) {
            if remaining(s1) < remaining(s) {
                let (s2, r) = parse_operand(p, s1);
                match r {
                    Err(e) => (s2, Err(e)),
                    Ok(right) => if remaining(s2) < remaining(s) {
                        parse_operation_rest(p, s2, operation_of(p, left, t, right))
                    } else {
                        stalled(s2)
                    },
                }
            } else {
                stalled(s1)
            }
        } else {
            (put_back(s1, t), Ok(left))
        },
    }
}

/// unary → ( "!" | "-" ) unary | call
pub open spec fn parse_unary(s: ParserState) -> (ParserState, Result<ExprView, SyntaxErrorView>)
    decreases remaining(s), 30int,
{
    let (s1, a) = next_token(s);
    match a {
        Err(e) => (s1, Err(e)),
        Ok(None) => (s1, Err(error_at_last(s1, SyntaxErrorCodeView::UnexpectedEndOfInput))),
        Ok(Some(t)) => if t.kind == TokenKind::Bang || t.kind == TokenKind::Minus {
            if remaining(s1) < remaining(s) {
                let (s2, r) = parse_unary(s1);
                match r {
                    Err(e) => (s2, Err(e)),
                    Ok(right) => (s2, Ok(ExprView::Unary { operator: t, right: Box::new(right) })),
                }
            } else {
                stalled(s1)
            }
        } else if remaining(put_back(s1, t)) <= remaining(s) {
            parse_call(put_back(s1, t))
        } else {
            stalled(s1)
        },
    }
}

/// call → primary ( "(" arguments? ")" | "." IDENTIFIER )*
pub open spec fn parse_call(s: ParserState) -> (ParserState, Result<ExprView, SyntaxErrorView>)
    decreases remaining(s), 29int,
{
    let (s1, r) = parse_primary(s);
    match r {
        Err(e) => (s1, Err(e)),
        Ok(callee) => if remaining(s1) <= remaining(s) {
            parse_call_rest(s1, callee)
        } else {
            stalled(s1)
        },
    }
}

/// The calls and property reads after a primary expression.
pub open spec fn parse_call_rest(s: ParserState, callee: ExprView) -> (ParserState, Result<ExprView, SyntaxErrorView>)
    decreases remaining(s), 28int,
{
    let (s1, a) = next_token(s);
    match a {
        Err(e) => (s1, Err(e)),
        Ok(None) => (s1, Ok(callee)),
        Ok(Some(t)) => if t.kind == TokenKind::LeftParen {
            if remaining(s1) < remaining(s) {
                let (s2, r) = parse_finish_call(s1, callee);
                match r {
                    Err(e) => (s2, Err(e)),
                    Ok(call) => if remaining(s2) < remaining(s) {
                        parse_call_rest(s2, call)
                    } else {
                        stalled(s2)
                    },
                }
            } else {
                stalled(s1)
            }
        } else if t.kind == TokenKind::Dot {
            let (s2, r) = expect(s1, TokenKind::Identifier);
            match r {
                Err(e) => (s2, Err(e)),
                Ok(name) => if remaining(s2) < remaining(s) {
                    parse_call_rest(s2, ExprView::Get { object: Box::new(callee), name })
                } else {
                    stalled(s2)
                },
            }
        } else {
            (put_back(s1, t), Ok(callee))
        },
    }
}

/// The arguments of a call after its `(`, up to and including `)`; a call
/// with too many arguments is refused once its `)` is read.
pub open spec fn parse_finish_call(s: ParserState, callee: ExprView) -> (ParserState, Result<ExprView, SyntaxErrorView>)
    decreases remaining(s), 52int,
{
    let (s1, a) = next_token(s);
    match a {
        Err(e) => (s1, Err(e)),
        Ok(None) => (s1, Err(error_at_last(s1, SyntaxErrorCodeView::MissingToken(TokenKind::RightParen)))),
        Ok(Some(t)) => if t.kind == TokenKind::RightParen {
            (s1, Ok(ExprView::Call { callee: Box::new(callee), paren: t, arguments: Seq::empty() }))
        } else if remaining(put_back(s1, t)) <= remaining(s) {
            let (s2, r) = parse_arguments(put_back(s1, t), Seq::empty());
            match r {
                Err(e) => (s2, Err(e)),
                Ok((arguments, paren)) => if arguments.len() > max_arguments() {
                    (s2, Err(error_at_last(s2, SyntaxErrorCodeView::TooManyCallArguments(arguments.len(), max_arguments()))))
                } else {
                    (s2, Ok(ExprView::Call { callee: Box::new(callee), paren, arguments }))
                },
            }
        } else {
            stalled(s1)
        },
    }
}

/// arguments → expression ( "," expression )* ")"
///
/// Gives the arguments after `args` and the closing parenthesis.
pub open spec fn parse_arguments(s: ParserState, args: Seq<ExprView>) -> (ParserState, Result<(Seq<ExprView>, TokenView), SyntaxErrorView>)
    decreases remaining(s), 51int,
{
    let (s1, r) = parse_expression(s);
    match r {
        Err(e) => (s1, Err(e)),
        Ok(arg) => {
            let args1 = args.push(arg);
            let (s2, a) = next_token(s1);
            match a {
                Err(e) => (s2, Err(e)),
                Ok(Some(t)) => if t.kind != TokenKind::Comma {
                    let (s3, c) = expect(put_back(s2, t), TokenKind::RightParen);
                    match c {
                        Err(e) => (s3, Err(e)),
                        Ok(paren) => (s3, Ok((args1, paren))),
                    }
                } else if remaining(s2) < remaining(s) {
                    parse_arguments(s2, args1)
                } else {
                    stalled(s2)
                },
                Ok(None) => if remaining(s2) < remaining(s) {
                    parse_arguments(s2, args1)
                } else {
                    stalled(s2)
                },
            }
        },
    }
}

/// primary → "true" | "false" | "nil" | "this" | NUMBER | STRING | IDENTIFIER
///         | "(" expression ")" | "super" "." IDENTIFIER
pub open spec fn parse_primary(s: ParserState) -> (ParserState, Result<ExprView, SyntaxErrorView>)
    decreases remaining(s), 27int,
{
    let (s1, a) = next_token(s);
    match a {
        Err(e) => (s1, Err(e)),
        Ok(None) => (s1, Err(error_at_last(s1, SyntaxErrorCodeView::UnexpectedEndOfInput))),
        Ok(Some(t)) => match t.kind {
            TokenKind::Nil => (s1, Ok(ExprView::Literal { value: LiteralValue::Nil })),
            TokenKind::False => (s1, Ok(ExprView::Literal { value: LiteralValue::Bool(false) })),
            TokenKind::True => (s1, Ok(ExprView::Literal { value: LiteralValue::Bool(true) })),
            TokenKind::NumberLiteral => (s1, Ok(ExprView::Literal { value: LiteralValue::Number(number_text(t)) })),
            TokenKind::StringLiteral => (s1, Ok(ExprView::Literal { value: LiteralValue::String(string_value(t)) })),
            TokenKind::Identifier => (s1, Ok(ExprView::Variable { name: t })),
            TokenKind::This => (s1, Ok(ExprView::This { keyword: t })),
            TokenKind::Super => {
                let (s2, d) = expect(s1, TokenKind::Dot);
                match d {
                    Err(e) => (s2, Err(e)),
                    Ok(_) => {
                        let (s3, m) = expect(s2, TokenKind::Identifier);
                        match m {
                            Err(e) => (s3, Err(e)),
                            Ok(method) => (s3, Ok(ExprView::Super { keyword: t, method })),
                        }
                    },
                }
            },
            TokenKind::LeftParen => if remaining(s1) < remaining(s) {
                let (s2, r) = parse_expression(s1);
                match r {
                    Err(e) => (s2, Err(e)),
                    Ok(e) => {
                        let (s3, c) = expect(s2, TokenKind::RightParen);
                        match c {
                            Err(err) => (s3, Err(err)),
                            Ok(_) => (s3, Ok(ExprView::Grouping { expression: Box::new(e) })),
                        }
                    },
                }
            } else {
                stalled(s1)
            },
            _ => (put_back(s1, t), Err(error_at_last(s1, SyntaxErrorCodeView::InvalidExpression(t.lexeme)))),
        },
    }
}

// ---------------------------------------------------------------------------
// Statements
// ---------------------------------------------------------------------------

/// exprStmt → expression ";"
pub open spec fn parse_expression_statement(s: ParserState) -> (ParserState, Result<StmtView, SyntaxErrorView>) {
    let (s1, r) = parse_expression(s);
    match r {
        Err(e) => (s1, Err(e)),
        Ok(e) => {
            let (s2, c) = expect(s1, TokenKind::Semicolon);
            match c {
                Err(err) => (s2, Err(err)),
                Ok(_) => (s2, Ok(StmtView::Expression { expression: e })),
            }
        },
    }
}

/// printStmt → "print" expression ";" (after the keyword)
pub open spec fn parse_print(s: ParserState) -> (ParserState, Result<StmtView, SyntaxErrorView>) {
    let (s1, r) = parse_expression(s);
    match r {
        Err(e) => (s1, Err(e)),
        Ok(e) => {
            let (s2, c) = expect(s1, TokenKind::Semicolon);
            match c {
                Err(err) => (s2, Err(err)),
                Ok(_) => (s2, Ok(StmtView::Print { expression: e })),
            }
        },
    }
}

/// returnStmt → "return" expression? ";" (after the keyword)
pub open spec fn parse_return(s: ParserState, keyword: TokenView) -> (ParserState, Result<StmtView, SyntaxErrorView>) {
    let (s1, a) = next_token(s);
    match a {
        Err(e) => (s1, Err(e)),
        Ok(Some(t)) => if t.kind == TokenKind::Semicolon {
            (s1, Ok(StmtView::Return { keyword, value: None }))
        } else {
            parse_return_value(put_back(s1, t), keyword)
        },
        Ok(None) => parse_return_value(s1, keyword),
    }
}

/// The value of a return statement and its semicolon.
pub open spec fn parse_return_value(s: ParserState, keyword: TokenView) -> (ParserState, Result<StmtView, SyntaxErrorView>) {
    let (s1, r) = parse_expression(s);
    match r {
        Err(e) => (s1, Err(e)),
        Ok(value) => {
            let (s2, c) = expect(s1, TokenKind::Semicolon);
            match c {
                Err(err) => (s2, Err(err)),
                Ok(_) => (s2, Ok(StmtView::Return { keyword, value: Some(value) })),
            }
        },
    }
}

/// varDecl → "var" IDENTIFIER ( "=" expression )? ";" (after the keyword)
pub open spec fn parse_var_declaration(s: ParserState) -> (ParserState, Result<StmtView, SyntaxErrorView>) {
    let (s1, n) = expect(s, TokenKind::Identifier);
    match n {
        Err(e) => (s1, Err(e)),
        Ok(name) => {
            let (s2, a) = next_token(s1);
            match a {
                Err(e) => (s2, Err(e)),
                Ok(None) => parse_var_end(s2, name, None),
                Ok(Some(t)) => if t.kind == TokenKind::Equal {
                    let (s3, r) = parse_expression(s2);
                    match r {
                        Err(e) => (s3, Err(e)),
                        Ok(init) => parse_var_end(s3, name, Some(init)),
                    }
                } else {
                    parse_var_end(put_back(s2, t), name, None)
                },
            }
        },
    }
}

/// The semicolon that ends a variable declaration.
pub open spec fn parse_var_end(s: ParserState, name: TokenView, initializer: Option<ExprView>) -> (ParserState, Result<StmtView, SyntaxErrorView>) {
    let (s1, c) = expect(s, TokenKind::Semicolon);
    match c {
        Err(e) => (s1, Err(e)),
        Ok(_) => (s1, Ok(StmtView::Var { name, initializer })),
    }
}

/// The initializer clause of a for loop: nothing before `;`, a variable
/// declaration or an expression statement.
pub open spec fn parse_for_initializer(s: ParserState) -> (ParserState, Result<Option<StmtView>, SyntaxErrorView>) {
    let (s1, a) = next_token(s);
    match a {
        Err(e) => (s1, Err(e)),
        Ok(None) => (s1, Err(error_at_last(s1, SyntaxErrorCodeView::MissingForInitializer))),
        Ok(Some(t)) => if t.kind == TokenKind::Semicolon {
            (s1, Ok(None))
        } else if t.kind == TokenKind::Var {
            let (s2, r) = parse_var_declaration(s1);
            match r {
                Err(e) => (s2, Err(e)),
                Ok(st) => (s2, Ok(Some(st))),
            }
        } else {
            let (s2, r) = parse_expression_statement(put_back(s1, t));
            match r {
                Err(e) => (s2, Err(e)),
                Ok(st) => (s2, Ok(Some(st))),
            }
        },
    }
}

/// The condition of a for loop and its semicolon; `true` when it is left out.
pub open spec fn parse_for_condition(s: ParserState) -> (ParserState, Result<ExprView, SyntaxErrorView>) {
    let (s1, a) = next_token(s);
    match a {
        Err(e) => (s1, Err(e)),
        Ok(None) => (s1, Err(error_at_last(s1, SyntaxErrorCodeView::MissingForCondition))),
        Ok(Some(t)) => {
            let (s2, r) = if t.kind == TokenKind::Semicolon {
                (put_back(s1, t), Ok(ExprView::Literal { value: LiteralValue::Bool(true) }))
            } else {
                parse_expression(put_back(s1, t))
            };
            match r {
                Err(e) => (s2, Err(e)),
                Ok(condition) => {
                    let (s3, c) = expect(s2, TokenKind::Semicolon);
                    match c {
                        Err(e) => (s3, Err(e)),
                        Ok(_) => (s3, Ok(condition)),
                    }
                },
            }
        },
    }
}

/// The increment of a for loop and its closing parenthesis.
pub open spec fn parse_for_increment(s: ParserState) -> (ParserState, Result<Option<StmtView>, SyntaxErrorView>) {
    let (s1, a) = next_token(s);
    match a {
        Err(e) => (s1, Err(e)),
        Ok(None) => (s1, Err(error_at_last(s1, SyntaxErrorCodeView::MissingForIncrement))),
        Ok(Some(t)) => {
            let (s2, r) = if t.kind == TokenKind::RightParen {
                (put_back(s1, t), Ok(None))
            } else {
                let (s3, e) = parse_expression(put_back(s1, t));
                match e {
                    Err(err) => (s3, Err(err)),
                    Ok(e) => (s3, Ok(Some(StmtView::Expression { expression: e }))),
                }
            };
            match r {
                Err(e) => (s2, Err(e)),
                Ok(increment) => {
                    let (s3, c) = expect(s2, TokenKind::RightParen);
                    match c {
                        Err(e) => (s3, Err(e)),
                        Ok(_) => (s3, Ok(increment)),
                    }
                },
            }
        },
    }
}

/// A for loop as the while loop it stands for: the initializer runs once
/// before the loop, the increment after each run of the body.
pub open spec fn desugar_for(initializer: Option<StmtView>, condition: ExprView, increment: Option<StmtView>, body: StmtView) -> StmtView {
    let body = match increment {
        Some(incr) => StmtView::Block { statements: seq![body, incr] },
        None => body,
    };
    let looped = StmtView::While { condition, body: Box::new(body) };
    match initializer {
        Some(init) => StmtView::Block { statements: seq![init, looped] },
        None => looped,
    }
}

/// parameters → IDENTIFIER ( "," IDENTIFIER )* ")"
///
/// Gives the parameters after `params`.
pub open spec fn parse_parameter_list(s: ParserState, params: Seq<TokenView>) -> (ParserState, Result<Seq<TokenView>, SyntaxErrorView>)
    decreases remaining(s),
{
    let (s1, n) = expect(s, TokenKind::Identifier);
    match n {
        Err(e) => (s1, Err(e)),
        Ok(name) => {
            let params1 = params.push(name);
            let (s2, a) = next_token(s1);
            match a {
                Err(e) => (s2, Err(e)),
                Ok(Some(t)) => if t.kind == TokenKind::Comma {
                    if remaining(s2) < remaining(s) {
                        parse_parameter_list(s2, params1)
                    } else {
                        stalled(s2)
                    }
                } else {
                    parse_parameters_end(put_back(s2, t), params1)
                },
                Ok(None) => parse_parameters_end(s2, params1),
            }
        },
    }
}

/// The closing parenthesis of a parameter list.
pub open spec fn parse_parameters_end(s: ParserState, params: Seq<TokenView>) -> (ParserState, Result<Seq<TokenView>, SyntaxErrorView>) {
    let (s1, c) = expect(s, TokenKind::RightParen);
    match c {
        Err(e) => (s1, Err(e)),
        Ok(_) => (s1, Ok(params)),
    }
}

/// The parameters of a function after its `(`, up to and including `)`.
pub open spec fn parse_parameters(s: ParserState) -> (ParserState, Result<Seq<TokenView>, SyntaxErrorView>) {
    let (s1, a) = next_token(s);
    match a {
        Err(e) => (s1, Err(e)),
        Ok(Some(t)) => if t.kind == TokenKind::RightParen {
            (s1, Ok(Seq::empty()))
        } else {
            parse_parameter_list(put_back(s1, t), Seq::empty())
        },
        Ok(None) => parse_parameter_list(s1, Seq::empty()),
    }
}

/// declaration → classDecl | funDecl | varDecl | statement
///
/// Gives nothing at the end of the items or at the end-of-file token, and,
/// inside a block, before its `}`, which is put back.
pub open spec fn parse_declaration(s: ParserState, in_block: bool) -> (ParserState, Option<Result<StmtView, SyntaxErrorView>>)
    decreases remaining(s), 61int,
{
    let (s1, a) = next_token(s);
    match a {
        Err(e) => (s1, Some(Err(e))),
        Ok(None) => (s1, None),
        Ok(Some(t)) => if in_block && t.kind == TokenKind::RightBrace {
            (put_back(s1, t), None)
        } else if t.kind == TokenKind::EndOfFile {
            (s1, None)
        } else if t.kind == TokenKind::Var {
            let (s2, r) = parse_var_declaration(s1);
            (s2, Some(r))
        } else if t.kind == TokenKind::Class {
            if remaining(s1) < remaining(s) {
                let (s2, r) = parse_class(s1);
                (s2, Some(r))
            } else {
                (s1, None)
            }
        } else if t.kind == TokenKind::Fun {
            if remaining(s1) < remaining(s) {
                let (s2, r) = parse_function(s1);
                match r {
                    Err(e) => (s2, Some(Err(e))),
                    Ok(f) => (s2, Some(Ok(StmtView::Function { function: f }))),
                }
            } else {
                (s1, None)
            }
        } else if remaining(put_back(s1, t)) <= remaining(s) {
            let (s2, r) = parse_statement(put_back(s1, t));
            (s2, Some(r))
        } else {
            (s1, None)
        },
    }
}

/// statement → block | forStmt | ifStmt | printStmt | returnStmt | whileStmt | exprStmt
pub open spec fn parse_statement(s: ParserState) -> (ParserState, Result<StmtView, SyntaxErrorView>)
    decreases remaining(s), 60int,
{
    let (s1, a) = next_token(s);
    match a {
        Err(e) => (s1, Err(e)),
        Ok(None) => (s1, Err(error_at_last(s1, SyntaxErrorCodeView::UnexpectedEndOfInput))),
        Ok(Some(t)) => if remaining(s1) < remaining(s) {
            match t.kind {
                TokenKind::LeftBrace => {
                    let (s2, r) = parse_block(s1, Seq::empty());
                    match r {
                        Err(e) => (s2, Err(e)),
                        Ok(statements) => (s2, Ok(StmtView::Block { statements })),
                    }
                },
                TokenKind::For => parse_for(s1),
                TokenKind::If => parse_if(s1),
                TokenKind::Print => parse_print(s1),
                TokenKind::Return => parse_return(s1, t),
                TokenKind::While => parse_while(s1),
                _ => parse_expression_statement(put_back(s1, t)),
            }
        } else {
            stalled(s1)
        },
    }
}

/// block → "{" declaration* "}" (after the `{`)
///
/// Gives the statements after `statements`.
pub open spec fn parse_block(s: ParserState, statements: Seq<StmtView>) -> (ParserState, Result<Seq<StmtView>, SyntaxErrorView>)
    decreases remaining(s), 62int,
{
    let (s1, d) = parse_declaration(s, true);
    match d {
        None => {
            let (s2, c) = expect(s1, TokenKind::RightBrace);
            match c {
                Err(e) => (s2, Err(e)),
                Ok(_) => (s2, Ok(statements)),
            }
        },
        Some(Err(e)) => (s1, Err(e)),
        Some(Ok(st)) => if remaining(s1) < remaining(s) {
            parse_block(s1, statements.push(st))
        } else {
            stalled(s1)
        },
    }
}

/// forStmt → "for" "(" ( varDecl | exprStmt | ";" ) expression? ";" expression? ")" statement
/// (after the keyword), as the while loop it stands for.
pub open spec fn parse_for(s: ParserState) -> (ParserState, Result<StmtView, SyntaxErrorView>)
    decreases remaining(s), 59int,
{
    let (s1, p) = expect(s, TokenKind::LeftParen);
    match p {
        Err(e) => (s1, Err(e)),
        Ok(_) => {
            let (s2, i) = parse_for_initializer(s1);
            match i {
                Err(e) => (s2, Err(e)),
                Ok(initializer) => {
                    let (s3, c) = parse_for_condition(s2);
                    match c {
                        Err(e) => (s3, Err(e)),
                        Ok(condition) => {
                            let (s4, n) = parse_for_increment(s3);
                            match n {
                                Err(e) => (s4, Err(e)),
                                Ok(increment) => if remaining(s4) < remaining(s) {
                                    let (s5, b) = parse_statement(s4);
                                    match b {
                                        Err(e) => (s5, Err(e)),
                                        Ok(body) => (s5, Ok(desugar_for(initializer, condition, increment, body))),
                                    }
                                } else {
                                    stalled(s4)
                                },
                            }
                        },
                    }
                },
            }
        },
    }
}

/// ifStmt → "if" "(" expression ")" statement ( "else" statement )? (after the keyword)
pub open spec fn parse_if(s: ParserState) -> (ParserState, Result<StmtView, SyntaxErrorView>)
    decreases remaining(s), 59int,
{
    let (s1, p) = expect(s, TokenKind::LeftParen);
    match p {
        Err(e) => (s1, Err(e)),
        Ok(_) => {
            let (s2, c) = parse_expression(s1);
            match c {
                Err(e) => (s2, Err(e)),
                Ok(condition) => {
                    let (s3, q) = expect(s2, TokenKind::RightParen);
                    match q {
                        Err(e) => (s3, Err(e)),
                        Ok(_) => if remaining(s3) < remaining(s) {
                            let (s4, t) = parse_statement(s3);
                            match t {
                                Err(e) => (s4, Err(e)),
                                Ok(then_branch) => {
                                    let (s5, a) = next_token(s4);
                                    match a {
                                        Err(e) => (s5, Err(e)),
                                        Ok(None) => (s5, Ok(StmtView::If { condition, then_branch: Box::new(then_branch), else_branch: None })),
                                        Ok(Some(tk)) => if tk.kind == TokenKind::Else {
                                            if remaining(s5) < remaining(s) {
                                                let (s6, e) = parse_statement(s5);
                                                match e {
                                                    Err(err) => (s6, Err(err)),
                                                    Ok(else_branch) => (s6, Ok(StmtView::If {
                                                        condition,
                                                        then_branch: Box::new(then_branch),
                                                        else_branch: Some(Box::new(else_branch)),
                                                    })),
                                                }
                                            } else {
                                                stalled(s5)
                                            }
                                        } else {
                                            (put_back(s5, tk), Ok(StmtView::If { condition, then_branch: Box::new(then_branch), else_branch: None }))
                                        },
                                    }
                                },
                            }
                        } else {
                            stalled(s3)
                        },
                    }
                },
            }
        },
    }
}

/// whileStmt → "while" "(" expression ")" statement (after the keyword)
pub open spec fn parse_while(s: ParserState) -> (ParserState, Result<StmtView, SyntaxErrorView>)
    decreases remaining(s), 59int,
{
    let (s1, p) = expect(s, TokenKind::LeftParen);
    match p {
        Err(e) => (s1, Err(e)),
        Ok(_) => {
            let (s2, c) = parse_expression(s1);
            match c {
                Err(e) => (s2, Err(e)),
                Ok(condition) => {
                    let (s3, q) = expect(s2, TokenKind::RightParen);
                    match q {
                        Err(e) => (s3, Err(e)),
                        Ok(_) => if remaining(s3) < remaining(s) {
                            let (s4, b) = parse_statement(s3);
                            match b {
                                Err(e) => (s4, Err(e)),
                                Ok(body) => (s4, Ok(StmtView::While { condition, body: Box::new(body) })),
                            }
                        } else {
                            stalled(s3)
                        },
                    }
                },
            }
        },
    }
}

/// function → IDENTIFIER "(" parameters? ")" block
pub open spec fn parse_function(s: ParserState) -> (ParserState, Result<FunctionView, SyntaxErrorView>)
    decreases remaining(s), 63int,
{
    let (s1, n) = expect(s, TokenKind::Identifier);
    match n {
        Err(e) => (s1, Err(e)),
        Ok(name) => {
            let (s2, p) = expect(s1, TokenKind::LeftParen);
            match p {
                Err(e) => (s2, Err(e)),
                Ok(_) => {
                    let (s3, ps) = parse_parameters(s2);
                    match ps {
                        Err(e) => (s3, Err(e)),
                        Ok(parameters) => {
                            let (s4, b) = expect(s3, TokenKind::LeftBrace);
                            match b {
                                Err(e) => (s4, Err(e)),
                                Ok(_) => if remaining(s4) < remaining(s) {
                                    let (s5, r) = parse_block(s4, Seq::empty());
                                    match r {
                                        Err(e) => (s5, Err(e)),
                                        Ok(body) => (s5, Ok(FunctionView { name, parameters, body })),
                                    }
                                } else {
                                    stalled(s4)
                                },
                            }
                        },
                    }
                },
            }
        },
    }
}

/// The methods of a class up to and including its `}`; gives the methods
/// after `methods`.
pub open spec fn parse_methods(s: ParserState, methods: Seq<FunctionView>) -> (ParserState, Result<Seq<FunctionView>, SyntaxErrorView>)
    decreases remaining(s), 64int,
{
    let (s1, a) = next_token(s);
    match a {
        Err(e) => (s1, Err(e)),
        Ok(None) => (s1, Err(error_at_last(s1, SyntaxErrorCodeView::MissingToken(TokenKind::RightBrace)))),
        Ok(Some(t)) => if t.kind == TokenKind::RightBrace {
            (s1, Ok(methods))
        } else if t.kind == TokenKind::EndOfFile {
            (put_back(s1, t), Err(SyntaxErrorView { code: SyntaxErrorCodeView::MissingToken(TokenKind::RightBrace), location: t.location }))
        } else if remaining(put_back(s1, t)) <= remaining(s) {
            let (s2, r) = parse_function(put_back(s1, t));
            match r {
                Err(e) => (s2, Err(e)),
                Ok(f) => if remaining(s2) < remaining(s) {
                    parse_methods(s2, methods.push(f))
                } else {
                    stalled(s2)
                },
            }
        } else {
            stalled(s1)
        },
    }
}

/// classDecl → "class" IDENTIFIER ( "<" IDENTIFIER )? "{" function* "}" (after the keyword)
pub open spec fn parse_class(s: ParserState) -> (ParserState, Result<StmtView, SyntaxErrorView>)
    decreases remaining(s), 59int,
{
    let (s1, n) = expect(s, TokenKind::Identifier);
    match n {
        Err(e) => (s1, Err(e)),
        Ok(name) => {
            let (s2, sup) = parse_superclass(s1);
            match sup {
                Err(e) => (s2, Err(e)),
                Ok(superclass) => {
                    let (s3, b) = expect(s2, TokenKind::LeftBrace);
                    match b {
                        Err(e) => (s3, Err(e)),
                        Ok(_) => if remaining(s3) < remaining(s) {
                            let (s4, m) = parse_methods(s3, Seq::empty());
                            match m {
                                Err(e) => (s4, Err(e)),
                                Ok(methods) => (s4, Ok(StmtView::Class { name, superclass, methods })),
                            }
                        } else {
                            stalled(s3)
                        },
                    }
                },
            }
        },
    }
}

/// The optional superclass of a class: `<` and its name.
pub open spec fn parse_superclass(s: ParserState) -> (ParserState, Result<Option<TokenView>, SyntaxErrorView>) {
    let (s1, a) = next_token(s);
    match a {
        Err(e) => (s1, Err(e)),
        Ok(None) => (s1, Ok(None)),
        Ok(Some(t)) => if t.kind == TokenKind::Less {
            let (s2, n) = expect(s1, TokenKind::Identifier);
            match n {
                Err(e) => (s2, Err(e)),
                Ok(name) => (s2, Ok(Some(name))),
            }
        } else {
            (put_back(s1, t), Ok(None))
        },
    }
}

// ---------------------------------------------------------------------------
// Programs
// ---------------------------------------------------------------------------

/// Whether a token kind starts a declaration or statement, where the parser
/// resumes after an error.
pub open spec fn is_statement_start(kind: TokenKind) -> bool {
    kind == TokenKind::Class || kind == TokenKind::Fun || kind == TokenKind::Var || kind == TokenKind::For
        || kind == TokenKind::If || kind == TokenKind::While || kind == TokenKind::Print
        || kind == TokenKind::Return
}

/// Skipping what follows an error: up to and including the next `;`, or up
/// to the next token that starts a statement, or to the end.
pub open spec fn synchronize(s: ParserState) -> (ParserState, Result<(), SyntaxErrorView>)
    decreases remaining(s),
{
    let (s1, a) = next_token(s);
    match a {
        Err(e) => (s1, Err(e)),
        Ok(None) => (s1, Ok(())),
        Ok(Some(t)) => if t.kind == TokenKind::Semicolon {
            (s1, Ok(()))
        } else if is_statement_start(t.kind) {
            (put_back(s1, t), Ok(()))
        } else if remaining(s1) < remaining(s) {
            synchronize(s1)
        } else {
            (s1, Ok(()))
        },
    }
}

/// The declarations that follow `statements` and `errors`: each error is
/// followed by skipping to the next statement; an error while skipping ends
/// the program.
pub open spec fn parse_program_from(s: ParserState, statements: Seq<StmtView>, errors: Seq<SyntaxErrorView>) -> (Seq<StmtView>, Seq<SyntaxErrorView>)
    decreases remaining(s),
{
    let (s1, d) = parse_declaration(s, false);
    match d {
        None => (statements, errors),
        Some(Ok(st)) => if remaining(s1) < remaining(s) {
            parse_program_from(s1, statements.push(st), errors)
        } else {
            (statements, errors)
        },
        Some(Err(e)) => {
            let (s2, r) = synchronize(s1);
            match r {
                Err(e2) => (statements, errors.push(e).push(e2)),
                Ok(_) => if remaining(s2) < remaining(s) {
                    parse_program_from(s2, statements, errors.push(e))
                } else {
                    (statements, errors.push(e))
                },
            }
        },
    }
}

/// program → declaration* EOF
///
/// The statements of the program that starts at `s`, or all its syntax errors.
pub open spec fn parse_program(s: ParserState) -> Result<Seq<StmtView>, Seq<SyntaxErrorView>> {
    let (statements, errors) = parse_program_from(s, Seq::empty(), Seq::empty());
    if errors.len() == 0 {
        Ok(statements)
    } else {
        Err(errors)
    }
}

/// The statements of a program, or all its syntax errors.
pub open spec fn spec_parse(items: Seq<Result<TokenView, LexingErrorView>>) -> Result<Seq<StmtView>, Seq<SyntaxErrorView>> {
    parse_program(start_state(items))
}

/// An expression alone: the expression at the start of the items.
pub open spec fn spec_parse_expr(items: Seq<Result<TokenView, LexingErrorView>>) -> Result<ExprView, SyntaxErrorView> {
    parse_expression(start_state(items)).1
}

} // verus!
