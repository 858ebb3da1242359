//! The parser of Lox: turns the items of the lexer into statements.
use crate::expr::{
    expr_view, Assign, Binary, Call, Expr, ExprView, Get, Grouping, Literal, Logical, SetProperty,
    Super, This, Unary, Variable,
};
use crate::grammar::{
    desugar_for, error_at_last, level_rank, parse_finish_call, expect, first_token, is_operator_of, is_statement_start,
    max_arguments, next_token, number_text, operation_of, parse_arguments, parse_assignment,
    parse_block, parse_call, parse_call_rest, parse_class, parse_declaration, parse_expression,
    parse_expression_statement, parse_for, parse_for_condition, parse_for_increment,
    parse_for_initializer, parse_function, parse_if, parse_methods, parse_operand,
    parse_operation, parse_operation_rest, parse_parameter_list, parse_parameters,
    parse_parameters_end, parse_primary, parse_print, parse_program_from, parse_return,
    parse_program, parse_return_value, parse_statement, parse_superclass, parse_unary, parse_var_declaration,
    parse_var_end, parse_while, put_back, remaining, spec_parse, spec_parse_expr, start_state,
    string_value, synchronize, ParserState, Precedence,
};
use crate::span::Span;
use crate::stmt::{
    function_view, functions_view, lemma_functions_view_push, lemma_stmts_view, lemma_stmts_view_push,
    stmts_view, tokens_view, Block, Class, Expression, Function, If, Print, Return, Stmt, StmtView,
    Var, While,
};
use crate::syntax::{SyntaxError, SyntaxErrorCode, SyntaxErrorView};
use crate::token::{LiteralView, Token, TokenKind, TokenView};
use crate::tokenize::{item_view, LexingError, LexingErrorView};
use vstd::prelude::*;

verus! {

/// Whether a number or string literal token carries its value, as the lexer
/// gives it.
pub open spec fn has_literal(t: TokenView) -> bool {
    &&& (t.kind == TokenKind::NumberLiteral ==> (t.literal matches Some(LiteralView::Number(_))))
    &&& (t.kind == TokenKind::StringLiteral ==> (t.literal matches Some(LiteralView::String(_))))
}

/// Whether every literal token among the items carries its value.
pub open spec fn items_have_literals(items: Seq<Result<TokenView, LexingErrorView>>) -> bool {
    forall|i: int| 0 <= i < items.len() && (#[trigger] items[i]) is Ok ==> has_literal(items[i]->Ok_0)
}

/// Whether a token kind can start a primary expression.
pub open spec fn starts_primary(kind: TokenKind) -> bool {
    kind == TokenKind::Nil || kind == TokenKind::False || kind == TokenKind::True
        || kind == TokenKind::NumberLiteral || kind == TokenKind::StringLiteral
        || kind == TokenKind::Identifier || kind == TokenKind::This || kind == TokenKind::Super
        || kind == TokenKind::LeftParen
}

/// Whether a token kind can start an expression.
pub open spec fn starts_expression(kind: TokenKind) -> bool {
    starts_primary(kind) || kind == TokenKind::Bang || kind == TokenKind::Minus
}

/// Whether a token kind is the keyword or brace that starts a statement other
/// than an expression statement.
pub open spec fn is_statement_keyword(kind: TokenKind) -> bool {
    kind == TokenKind::LeftBrace || kind == TokenKind::For || kind == TokenKind::If
        || kind == TokenKind::Print || kind == TokenKind::Return || kind == TokenKind::While
}

/// The parser read nothing and put back the first token, of a kind for
/// which `allowed` fails.
pub open spec fn stuck_before(old: ParserState, new: ParserState, allowed: spec_fn(TokenKind) -> bool) -> bool {
    &&& remaining(new) == remaining(old)
    &&& first_token(old) is Some
    &&& new.peeked == first_token(old)
    &&& !allowed(first_token(old)->Some_0.kind)
}

/// After an error, the parser read something, or there was nothing to read,
/// or it put back a first token for which `allowed` fails.
pub open spec fn moved_or_stuck(old: ParserState, new: ParserState, allowed: spec_fn(TokenKind) -> bool) -> bool {
    remaining(new) < remaining(old) || remaining(old) == 0 || stuck_before(old, new, allowed)
}

/// The view of a result of the parser.
pub open spec fn result_view<T: View>(r: Result<T, SyntaxError>) -> Result<T::V, SyntaxErrorView> {
    match r {
        Ok(v) => Ok(v@),
        Err(e) => Err(e@),
    }
}

/// The view of the result of reading an item.
pub open spec fn read_view(r: Result<Option<Token>, SyntaxError>) -> Result<Option<TokenView>, SyntaxErrorView> {
    match r {
        Ok(Some(t)) => Ok(Some(t@)),
        Ok(None) => Ok(None),
        Err(e) => Err(e@),
    }
}

/// The views of items, the last one first.
pub open spec fn reversed_view(v: Seq<Result<Token, LexingError>>) -> Seq<Result<TokenView, LexingErrorView>>
    decreases v.len(),
{
    if v.len() == 0 {
        Seq::empty()
    } else {
        seq![item_view(v.last())] + reversed_view(v.drop_last())
    }
}

proof fn lemma_reversed_view(v: Seq<Result<Token, LexingError>>)
    ensures
        reversed_view(v).len() == v.len(),
        v.len() > 0 ==> reversed_view(v)[0] == item_view(v.last()),
        v.len() > 0 ==> reversed_view(v).drop_first() == reversed_view(v.drop_last()),
    decreases v.len(),
{
    if v.len() > 0 {
        lemma_reversed_view(v.drop_last());
        assert(reversed_view(v).drop_first() =~= reversed_view(v.drop_last()));
    }
}

/// A recursive-descent parser over the items of the lexer.
pub struct Parser {
    /// The items not read yet, the next one last.
    pending: Vec<Result<Token, LexingError>>,
    /// The token put back, to be read again.
    peeked: Option<Token>,
    /// The location of the last token read.
    last: Span,
}

impl Parser {
    /// The state of the parser.
    pub closed spec fn state(&self) -> ParserState {
        ParserState {
            rest: reversed_view(self.pending@),
            peeked: match self.peeked {
                Some(t) => Some(t@),
                None => None,
            },
            last: self.last,
        }
    }

    /// Every literal token not read yet carries its value.
    pub closed spec fn wf(&self) -> bool {
        &&& items_have_literals(self.state().rest)
        &&& (self.peeked matches Some(t) ==> has_literal(t@))
    }

    /// A parser at the start of `items`.
    pub fn new(items: Vec<Result<Token, LexingError>>) -> (parser: Parser)
        requires
            items_have_literals(crate::tokenize::items_view(items@)),
        ensures
            parser.wf(),
            parser.state() == start_state(crate::tokenize::items_view(items@)),
    {
        let ghost all = crate::tokenize::items_view(items@);
        let mut input = items;
        let mut pending: Vec<Result<Token, LexingError>> = Vec::new();
        while input.len() > 0
            invariant
                all == crate::tokenize::items_view(input@) + reversed_view(pending@),
            decreases input.len(),
        {
            let ghost before = input@;
            let item = input.pop().unwrap();
            proof {
                lemma_reversed_view(pending@.push(item));
                assert(pending@.push(item).drop_last() =~= pending@);
                assert(reversed_view(pending@.push(item)) =~= seq![item_view(item)] + reversed_view(pending@));
                assert(crate::tokenize::items_view(before) =~= crate::tokenize::items_view(input@).push(item_view(item)));
                assert(all =~= crate::tokenize::items_view(input@) + reversed_view(pending@.push(item)));
            }
            pending.push(item);
        }
        assert(all =~= reversed_view(pending@));
        Parser { pending, peeked: None, last: Span::new(0, 0) }
    }

    /// Reads the next item: the token put back if there is one, else the next
    /// item, whose lexing error becomes a syntax error.
    fn advance(&mut self) -> (r: Result<Option<Token>, SyntaxError>)
        requires
            old(self).wf(),
        ensures
            final(self).wf(),
            next_token(old(self).state()) == (final(self).state(), read_view(r)),
            remaining(final(self).state()) <= remaining(old(self).state()),
            r matches Ok(Some(t)) ==> {
                &&& has_literal(t@)
                &&& remaining(final(self).state()) + 1 == remaining(old(self).state())
                &&& final(self).state().peeked is None
                &&& first_token(old(self).state()) == Some(t@)
            },
            r matches Ok(None) ==> remaining(old(self).state()) == 0,
            r is Err ==> remaining(final(self).state()) < remaining(old(self).state()),
    {
        proof {
            lemma_reversed_view(self.pending@);
        }
        match self.peeked.take() {
            Some(t) => {
                self.last = t.location;
                Ok(Some(t))
            },
            None => {
                let item = self.pending.pop();
                proof {
                    if self.pending@.len() < old(self).pending@.len() {
                        assert(old(self).pending@.drop_last() == self.pending@);
                        let r = reversed_view(old(self).pending@);
                        assert forall|i: int| 0 <= i < r.drop_first().len() && (#[trigger] r.drop_first()[i]) is Ok
                            implies has_literal(r.drop_first()[i]->Ok_0) by {
                            assert(r.drop_first()[i] == r[i + 1]);
                        }
                    }
                }
                match item {
                    None => Ok(None),
                    Some(Ok(t)) => {
                        self.last = t.location;
                        Ok(Some(t))
                    },
                    Some(Err(e)) => Err(SyntaxError::from_lexing(e)),
                }
            },
        }
    }

    /// Puts a token back, to be read again.
    fn revert(&mut self, token: Token)
        requires
            old(self).wf(),
            has_literal(token@),
        ensures
            final(self).wf(),
            final(self).state() == put_back(old(self).state(), token@),
    {
        self.peeked = Some(token);
    }

    /// An error at the location of the last token read.
    fn error(&self, code: SyntaxErrorCode) -> (e: SyntaxError)
        ensures
            e@ == error_at_last(self.state(), code@),
    {
        SyntaxError::new(code, self.last)
    }

    /// Reads a token of the given kind.
    fn consume(&mut self, kind: TokenKind) -> (r: Result<Token, SyntaxError>)
        requires
            old(self).wf(),
        ensures
            final(self).wf(),
            expect(old(self).state(), kind) == (final(self).state(), result_view(r)),
            remaining(final(self).state()) <= remaining(old(self).state()),
            r is Ok ==> remaining(final(self).state()) < remaining(old(self).state()),
    {
        match self.advance() {
            Err(e) => Err(e),
            Ok(Some(token)) => {
                if token.kind == kind {
                    Ok(token)
                } else {
                    let location = token.location;
                    self.revert(token);
                    Err(SyntaxError::new(SyntaxErrorCode::MissingToken(kind), location))
                }
            },
            Ok(None) => Err(self.error(SyntaxErrorCode::MissingToken(kind))),
        }
    }
}

/// The view of the arguments of a call and its closing parenthesis.
pub open spec fn arguments_view(r: Result<(Vec<Expr>, Token), SyntaxError>) -> Result<(Seq<ExprView>, TokenView), SyntaxErrorView> {
    match r {
        Ok((arguments, paren)) => Ok((crate::expr::exprs_view(arguments@), paren@)),
        Err(e) => Err(e@),
    }
}

/// The operation of an operator of the given level on two operands.
fn operation_node(p: Precedence, left: Expr, operator: Token, right: Expr) -> (e: Expr)
    ensures
        e@ == operation_of(p, left@, operator@, right@),
{
    match p {
        Precedence::Or | Precedence::And => Expr::Logical(Logical::new(left, operator, right)),
        _ => Expr::Binary(Binary::new(left, operator, right)),
    }
}

/// Whether a token kind is an operator of the given level.
fn is_operator(p: Precedence, kind: TokenKind) -> (b: bool)
    ensures
        b == is_operator_of(p, kind),
{
    match p {
        Precedence::Or => kind == TokenKind::Or,
        Precedence::And => kind == TokenKind::And,
        Precedence::Equality => kind == TokenKind::BangEqual || kind == TokenKind::EqualEqual,
        Precedence::Comparison => kind == TokenKind::Greater || kind == TokenKind::GreaterEqual
            || kind == TokenKind::Less || kind == TokenKind::LessEqual,
        Precedence::Term => kind == TokenKind::Minus || kind == TokenKind::Plus,
        Precedence::Factor => kind == TokenKind::Slash || kind == TokenKind::Star,
    }
}

impl Parser {
    fn expression(&mut self) -> (r: Result<Expr, SyntaxError>)
        requires
            old(self).wf(),
        ensures
            final(self).wf(),
            parse_expression(old(self).state()) == (final(self).state(), result_view(r)),
            remaining(final(self).state()) <= remaining(old(self).state()),
            r is Ok ==> remaining(final(self).state()) < remaining(old(self).state()),
            r is Err ==> moved_or_stuck(old(self).state(), final(self).state(), |k: TokenKind| starts_expression(k)),
        decreases remaining(old(self).state()), 50int,
    {
        self.assignment()
    }

    fn assignment(&mut self) -> (r: Result<Expr, SyntaxError>)
        requires
            old(self).wf(),
        ensures
            final(self).wf(),
            parse_assignment(old(self).state()) == (final(self).state(), result_view(r)),
            remaining(final(self).state()) <= remaining(old(self).state()),
            r is Ok ==> remaining(final(self).state()) < remaining(old(self).state()),
            r is Err ==> moved_or_stuck(old(self).state(), final(self).state(), |k: TokenKind| starts_expression(k)),
        decreases remaining(old(self).state()), 49int,
    {
        let target = match self.operation(Precedence::Or) {
            Ok(e) => e,
            Err(e) => return Err(e),
        };
        match self.advance() {
            Err(e) => Err(e),
            Ok(None) => Ok(target),
            Ok(Some(token)) => {
                if token.kind == TokenKind::Equal {
                    let value = match self.assignment() {
                        Ok(v) => v,
                        Err(e) => return Err(e),
                    };
                    match target {
                        Expr::Variable(variable) => Ok(Expr::Assign(Assign::new(variable.take_name(), value))),
                        Expr::Get(get) => Ok(Expr::SetProperty(SetProperty::new(*get.object, get.name, value))),
                        _ => {
                            self.revert(token);
                            Err(self.error(SyntaxErrorCode::InvalidAssignmentTarget))
                        },
                    }
                } else {
                    self.revert(token);
                    Ok(target)
                }
            },
        }
    }

    /// The operand of an operator of the given level.
    fn operand(&mut self, p: Precedence) -> (r: Result<Expr, SyntaxError>)
        requires
            old(self).wf(),
        ensures
            final(self).wf(),
            parse_operand(p, old(self).state()) == (final(self).state(), result_view(r)),
            remaining(final(self).state()) <= remaining(old(self).state()),
            r is Ok ==> remaining(final(self).state()) < remaining(old(self).state()),
            r is Err ==> moved_or_stuck(old(self).state(), final(self).state(), |k: TokenKind| starts_expression(k)),
        decreases remaining(old(self).state()), level_rank(p) - 1,
    {
        match p {
            Precedence::Or => self.operation(Precedence::And),
            Precedence::And => self.operation(Precedence::Equality),
            Precedence::Equality => self.operation(Precedence::Comparison),
            Precedence::Comparison => self.operation(Precedence::Term),
            Precedence::Term => self.operation(Precedence::Factor),
            Precedence::Factor => self.unary(),
        }
    }

    /// An operation of the given level: logical or, logical and, equality,
    /// comparison, term or factor.
    fn operation(&mut self, p: Precedence) -> (r: Result<Expr, SyntaxError>)
        requires
            old(self).wf(),
        ensures
            final(self).wf(),
            parse_operation(p, old(self).state()) == (final(self).state(), result_view(r)),
            remaining(final(self).state()) <= remaining(old(self).state()),
            r is Ok ==> remaining(final(self).state()) < remaining(old(self).state()),
            r is Err ==> moved_or_stuck(old(self).state(), final(self).state(), |k: TokenKind| starts_expression(k)),
        decreases remaining(old(self).state()), level_rank(p),
    {
        let ghost s0 = self.state();
        let mut expr = match self.operand(p) {
            Ok(e) => e,
            Err(e) => return Err(e),
        };
        loop
            invariant
                self.wf(),
                parse_operation(p, s0) == parse_operation_rest(p, self.state(), expr@),
                remaining(self.state()) < remaining(s0),
                s0 == old(self).state(),
            decreases remaining(self.state()),
        {
            match self.advance() {
                Err(e) => return Err(e),
                Ok(None) => return Ok(expr),
                Ok(Some(token)) => {
                    if is_operator(p, token.kind) {
                        let right = match self.operand(p) {
                            Ok(e) => e,
                            Err(e) => return Err(e),
                        };
                        expr = operation_node(p, expr, token, right);
                    } else {
                        self.revert(token);
                        return Ok(expr);
                    }
                },
            }
        }
    }

    fn unary(&mut self) -> (r: Result<Expr, SyntaxError>)
        requires
            old(self).wf(),
        ensures
            final(self).wf(),
            parse_unary(old(self).state()) == (final(self).state(), result_view(r)),
            remaining(final(self).state()) <= remaining(old(self).state()),
            r is Ok ==> remaining(final(self).state()) < remaining(old(self).state()),
            r is Err ==> moved_or_stuck(old(self).state(), final(self).state(), |k: TokenKind| starts_expression(k)),
        decreases remaining(old(self).state()), 30int,
    {
        match self.advance() {
            Err(e) => Err(e),
            Ok(None) => Err(self.error(SyntaxErrorCode::UnexpectedEndOfInput)),
            Ok(Some(token)) => {
                if token.kind == TokenKind::Bang || token.kind == TokenKind::Minus {
                    match self.unary() {
                        Err(e) => Err(e),
                        Ok(right) => Ok(Expr::Unary(Unary::new(token, right))),
                    }
                } else {
                    self.revert(token);
                    self.call()
                }
            },
        }
    }

    fn call(&mut self) -> (r: Result<Expr, SyntaxError>)
        requires
            old(self).wf(),
        ensures
            final(self).wf(),
            parse_call(old(self).state()) == (final(self).state(), result_view(r)),
            remaining(final(self).state()) <= remaining(old(self).state()),
            r is Ok ==> remaining(final(self).state()) < remaining(old(self).state()),
            r is Err ==> moved_or_stuck(old(self).state(), final(self).state(), |k: TokenKind| starts_primary(k)),
        decreases remaining(old(self).state()), 29int,
    {
        let ghost s0 = self.state();
        let mut expr = match self.primary() {
            Ok(e) => e,
            Err(e) => return Err(e),
        };
        loop
            invariant
                self.wf(),
                parse_call(s0) == parse_call_rest(self.state(), expr@),
                remaining(self.state()) < remaining(s0),
                s0 == old(self).state(),
            decreases remaining(self.state()),
        {
            match self.advance() {
                Err(e) => return Err(e),
                Ok(None) => return Ok(expr),
                Ok(Some(token)) => {
                    if token.kind == TokenKind::LeftParen {
                        expr = match self.finish_call(expr) {
                            Ok(e) => e,
                            Err(e) => return Err(e),
                        };
                    } else if token.kind == TokenKind::Dot {
                        let name = match self.consume(TokenKind::Identifier) {
                            Ok(t) => t,
                            Err(e) => return Err(e),
                        };
                        expr = Expr::Get(Get::new(expr, name));
                    } else {
                        self.revert(token);
                        return Ok(expr);
                    }
                },
            }
        }
    }

    /// The arguments of a call after its `(`, up to and including `)`.
    fn finish_call(&mut self, callee: Expr) -> (r: Result<Expr, SyntaxError>)
        requires
            old(self).wf(),
        ensures
            final(self).wf(),
            parse_finish_call(old(self).state(), callee@) === (final(self).state(), result_view(r)),
            remaining(final(self).state()) <= remaining(old(self).state()),
        decreases remaining(old(self).state()), 52int,
    {
        let ghost s = self.state();
        match self.advance() {
            Err(e) => Err(e),
            Ok(None) => Err(self.error(SyntaxErrorCode::MissingToken(TokenKind::RightParen))),
            Ok(Some(token)) => {
                if token.kind == TokenKind::RightParen {
                    let call = Expr::Call(Call::new(callee, token, Vec::new()));
                    assert(crate::expr::exprs_view(Seq::<Expr>::empty()) === Seq::<ExprView>::empty());
                    Ok(call)
                } else {
                    let ghost s1 = self.state();
                    self.revert(token);
                    assert(remaining(self.state()) <= remaining(s));
                    let result = self.arguments();
                    let ghost s2 = self.state();
                    assert(parse_arguments(put_back(s1, token@), Seq::empty()) == (s2, arguments_view(result)));
                    match result {
                        Err(e) => Err(e),
                        Ok((arguments, paren)) => {
                            assert(arguments_view(Ok::<(Vec<Expr>, Token), SyntaxError>((arguments, paren)))
                                == Ok::<(Seq<ExprView>, TokenView), SyntaxErrorView>((crate::expr::exprs_view(arguments@), paren@)));
                            assert(remaining(put_back(s1, token@)) <= remaining(s));
                            self.checked_call(callee, arguments, paren)
                        },
                    }
                }
            },
        }
    }

    /// A call, refused when it has too many arguments.
    fn checked_call(&self, callee: Expr, arguments: Vec<Expr>, paren: Token) -> (r: Result<Expr, SyntaxError>)
        ensures
            result_view(r) == if crate::expr::exprs_view(arguments@).len() > max_arguments() {
                Err(error_at_last(self.state(), crate::syntax::SyntaxErrorCodeView::TooManyCallArguments(
                    crate::expr::exprs_view(arguments@).len(), max_arguments())))
            } else {
                Ok::<ExprView, SyntaxErrorView>(ExprView::Call { callee: Box::new(callee@), paren: paren@, arguments: crate::expr::exprs_view(arguments@) })
            },
    {
        proof {
            crate::expr::lemma_exprs_view(arguments@);
        }
        if arguments.len() > 255 {
            Err(self.error(SyntaxErrorCode::TooManyCallArguments(arguments.len(), 255)))
        } else {
            Ok(Expr::Call(Call::new(callee, paren, arguments)))
        }
    }

    /// The arguments of a call and its closing parenthesis.
    fn arguments(&mut self) -> (r: Result<(Vec<Expr>, Token), SyntaxError>)
        requires
            old(self).wf(),
        ensures
            final(self).wf(),
            parse_arguments(old(self).state(), Seq::empty()) == (final(self).state(), arguments_view(r)),
            remaining(final(self).state()) <= remaining(old(self).state()),
        decreases remaining(old(self).state()), 51int,
    {
        let ghost s0 = self.state();
        let mut arguments: Vec<Expr> = Vec::new();
        loop
            invariant
                self.wf(),
                parse_arguments(s0, Seq::empty()) == parse_arguments(self.state(), crate::expr::exprs_view(arguments@)),
                remaining(self.state()) <= remaining(s0),
                s0 == old(self).state(),
            decreases remaining(self.state()),
        {
            let arg = match self.expression() {
                Ok(e) => e,
                Err(e) => return Err(e),
            };
            proof {
                crate::expr::lemma_exprs_view_push(arguments@, arg);
            }
            arguments.push(arg);
            match self.advance() {
                Err(e) => return Err(e),
                Ok(Some(token)) => {
                    if token.kind != TokenKind::Comma {
                        self.revert(token);
                        let paren = match self.consume(TokenKind::RightParen) {
                            Ok(t) => t,
                            Err(e) => return Err(e),
                        };
                        return Ok((arguments, paren));
                    }
                },
                Ok(None) => {},
            }
        }
    }

    fn primary(&mut self) -> (r: Result<Expr, SyntaxError>)
        requires
            old(self).wf(),
        ensures
            final(self).wf(),
            parse_primary(old(self).state()) == (final(self).state(), result_view(r)),
            remaining(final(self).state()) <= remaining(old(self).state()),
            r is Ok ==> remaining(final(self).state()) < remaining(old(self).state()),
            r is Err ==> moved_or_stuck(old(self).state(), final(self).state(), |k: TokenKind| starts_primary(k)),
        decreases remaining(old(self).state()), 27int,
    {
        match self.advance() {
            Err(e) => Err(e),
            Ok(None) => Err(self.error(SyntaxErrorCode::UnexpectedEndOfInput)),
            Ok(Some(token)) => match token.kind {
                TokenKind::Nil => Ok(Expr::Literal(Literal::Nil)),
                TokenKind::False => Ok(Expr::Literal(Literal::Bool(false))),
                TokenKind::True => Ok(Expr::Literal(Literal::Bool(true))),
                TokenKind::NumberLiteral => {
                    let text = match token.literal {
                        Some(crate::token::Literal::Number(text)) => text,
                        _ => token.lexeme,
                    };
                    Ok(Expr::Literal(Literal::Number(text)))
                },
                TokenKind::StringLiteral => {
                    let value = match token.literal {
                        Some(crate::token::Literal::String(value)) => value,
                        _ => String::from_str(crate::token::Token::unescape(token.lexeme.as_str())),
                    };
                    Ok(Expr::Literal(Literal::String(value)))
                },
                TokenKind::Identifier => Ok(Expr::Variable(Variable::new(token))),
                TokenKind::This => Ok(Expr::This(This::new(token))),
                TokenKind::Super => {
                    match self.consume(TokenKind::Dot) {
                        Ok(_) => {},
                        Err(e) => return Err(e),
                    }
                    let method = match self.consume(TokenKind::Identifier) {
                        Ok(t) => t,
                        Err(e) => return Err(e),
                    };
                    Ok(Expr::Super(Super::new(token, method)))
                },
                TokenKind::LeftParen => {
                    let expr = match self.expression() {
                        Ok(e) => e,
                        Err(e) => return Err(e),
                    };
                    match self.consume(TokenKind::RightParen) {
                        Ok(_) => Ok(Expr::Grouping(Grouping::new(expr))),
                        Err(e) => Err(e),
                    }
                },
                _ => {
                    let lexeme = token.lexeme.clone();
                    self.revert(token);
                    Err(self.error(SyntaxErrorCode::InvalidExpression(lexeme)))
                },
            },
        }
    }
}

/// The view of an optional statement.
pub open spec fn opt_stmt_view(s: Option<Stmt>) -> Option<StmtView> {
    match s {
        Some(s) => Some(s@),
        None => None,
    }
}

/// The view of the result of an optional statement.
pub open spec fn opt_stmt_result_view(r: Result<Option<Stmt>, SyntaxError>) -> Result<Option<StmtView>, SyntaxErrorView> {
    match r {
        Ok(s) => Ok(opt_stmt_view(s)),
        Err(e) => Err(e@),
    }
}

/// The view of the result of a sequence of statements.
pub open spec fn stmts_result_view(r: Result<Vec<Stmt>, SyntaxError>) -> Result<Seq<StmtView>, SyntaxErrorView> {
    match r {
        Ok(v) => Ok(stmts_view(v@)),
        Err(e) => Err(e@),
    }
}

/// The view of the result of a declaration.
pub open spec fn declaration_view(d: Option<Result<Stmt, SyntaxError>>) -> Option<Result<StmtView, SyntaxErrorView>> {
    match d {
        Some(r) => Some(result_view(r)),
        None => None,
    }
}

/// The views of syntax errors.
pub open spec fn errors_view(errors: Seq<SyntaxError>) -> Seq<SyntaxErrorView> {
    errors.map_values(|e: SyntaxError| e@)
}

/// The view of the result of parsing a program.
pub open spec fn program_view(r: Result<Vec<Stmt>, Vec<SyntaxError>>) -> Result<Seq<StmtView>, Seq<SyntaxErrorView>> {
    match r {
        Ok(statements) => Ok(stmts_view(statements@)),
        Err(errors) => Err(errors_view(errors@)),
    }
}

/// A block of two statements.
fn block_of_two(first: Stmt, second: Stmt) -> (s: Stmt)
    ensures
        s@ == (StmtView::Block { statements: seq![first@, second@] }),
{
    let mut statements: Vec<Stmt> = Vec::new();
    statements.push(first);
    statements.push(second);
    proof {
        lemma_stmts_view(statements@);
        assert(stmts_view(statements@) =~= seq![first@, second@]);
    }
    Stmt::Block(Block { statements })
}

/// A for loop as the while loop it stands for.
fn desugared_for(initializer: Option<Stmt>, condition: Expr, increment: Option<Stmt>, body: Stmt) -> (s: Stmt)
    ensures
        s@ == desugar_for(opt_stmt_view(initializer), condition@, opt_stmt_view(increment), body@),
{
    let body = match increment {
        Some(incr) => block_of_two(body, incr),
        None => body,
    };
    let looped = Stmt::While(While { condition, body: Box::new(body) });
    match initializer {
        Some(init) => block_of_two(init, looped),
        None => looped,
    }
}

impl Parser {
    fn expression_statement(&mut self) -> (r: Result<Stmt, SyntaxError>)
        requires
            old(self).wf(),
        ensures
            final(self).wf(),
            parse_expression_statement(old(self).state()) === (final(self).state(), result_view(r)),
            remaining(final(self).state()) <= remaining(old(self).state()),
            r is Ok ==> remaining(final(self).state()) < remaining(old(self).state()),
            r is Err ==> moved_or_stuck(old(self).state(), final(self).state(), |k: TokenKind| starts_expression(k)),
    {
        let expr = match self.expression() {
            Ok(e) => e,
            Err(e) => return Err(e),
        };
        match self.consume(TokenKind::Semicolon) {
            Ok(_) => Ok(Stmt::Expression(Expression { expression: expr })),
            Err(e) => Err(e),
        }
    }

    /// A print statement after its keyword.
    fn print_statement(&mut self) -> (r: Result<Stmt, SyntaxError>)
        requires
            old(self).wf(),
        ensures
            final(self).wf(),
            parse_print(old(self).state()) === (final(self).state(), result_view(r)),
            remaining(final(self).state()) <= remaining(old(self).state()),
    {
        let expr = match self.expression() {
            Ok(e) => e,
            Err(e) => return Err(e),
        };
        match self.consume(TokenKind::Semicolon) {
            Ok(_) => Ok(Stmt::Print(Print { expression: expr })),
            Err(e) => Err(e),
        }
    }

    /// A return statement after its keyword.
    fn return_statement(&mut self, keyword: Token) -> (r: Result<Stmt, SyntaxError>)
        requires
            old(self).wf(),
        ensures
            final(self).wf(),
            parse_return(old(self).state(), keyword@) === (final(self).state(), result_view(r)),
            remaining(final(self).state()) <= remaining(old(self).state()),
    {
        match self.advance() {
            Err(e) => return Err(e),
            Ok(Some(token)) => {
                if token.kind == TokenKind::Semicolon {
                    return Ok(Stmt::Return(Return { keyword, value: None }));
                }
                self.revert(token);
            },
            Ok(None) => {},
        }
        let value = match self.expression() {
            Ok(e) => e,
            Err(e) => return Err(e),
        };
        match self.consume(TokenKind::Semicolon) {
            Ok(_) => Ok(Stmt::Return(Return { keyword, value: Some(value) })),
            Err(e) => Err(e),
        }
    }

    /// A variable declaration after its keyword.
    fn var_declaration(&mut self) -> (r: Result<Stmt, SyntaxError>)
        requires
            old(self).wf(),
        ensures
            final(self).wf(),
            parse_var_declaration(old(self).state()) === (final(self).state(), result_view(r)),
            remaining(final(self).state()) <= remaining(old(self).state()),
    {
        let name = match self.consume(TokenKind::Identifier) {
            Ok(t) => t,
            Err(e) => return Err(e),
        };
        let initializer = match self.advance() {
            Err(e) => return Err(e),
            Ok(None) => None,
            Ok(Some(token)) => {
                if token.kind == TokenKind::Equal {
                    match self.expression() {
                        Ok(e) => Some(e),
                        Err(e) => return Err(e),
                    }
                } else {
                    self.revert(token);
                    None
                }
            },
        };
        match self.consume(TokenKind::Semicolon) {
            Ok(_) => Ok(Stmt::Var(Var { name, initializer })),
            Err(e) => Err(e),
        }
    }

    /// The initializer clause of a for loop.
    fn for_initializer(&mut self) -> (r: Result<Option<Stmt>, SyntaxError>)
        requires
            old(self).wf(),
        ensures
            final(self).wf(),
            parse_for_initializer(old(self).state()) === (final(self).state(), opt_stmt_result_view(r)),
            remaining(final(self).state()) <= remaining(old(self).state()),
    {
        match self.advance() {
            Err(e) => Err(e),
            Ok(None) => Err(self.error(SyntaxErrorCode::MissingForInitializer)),
            Ok(Some(token)) => {
                if token.kind == TokenKind::Semicolon {
                    Ok(None)
                } else if token.kind == TokenKind::Var {
                    match self.var_declaration() {
                        Ok(st) => Ok(Some(st)),
                        Err(e) => Err(e),
                    }
                } else {
                    self.revert(token);
                    match self.expression_statement() {
                        Ok(st) => Ok(Some(st)),
                        Err(e) => Err(e),
                    }
                }
            },
        }
    }

    /// The condition of a for loop and its semicolon.
    fn for_condition(&mut self) -> (r: Result<Expr, SyntaxError>)
        requires
            old(self).wf(),
        ensures
            final(self).wf(),
            parse_for_condition(old(self).state()) === (final(self).state(), result_view(r)),
            remaining(final(self).state()) <= remaining(old(self).state()),
    {
        match self.advance() {
            Err(e) => Err(e),
            Ok(None) => Err(self.error(SyntaxErrorCode::MissingForCondition)),
            Ok(Some(token)) => {
                let kind = token.kind;
                self.revert(token);
                let condition = if kind == TokenKind::Semicolon {
                    Expr::Literal(Literal::Bool(true))
                } else {
                    match self.expression() {
                        Ok(e) => e,
                        Err(e) => return Err(e),
                    }
                };
                match self.consume(TokenKind::Semicolon) {
                    Ok(_) => Ok(condition),
                    Err(e) => Err(e),
                }
            },
        }
    }

    /// The increment of a for loop and its closing parenthesis.
    fn for_increment(&mut self) -> (r: Result<Option<Stmt>, SyntaxError>)
        requires
            old(self).wf(),
        ensures
            final(self).wf(),
            parse_for_increment(old(self).state()) === (final(self).state(), opt_stmt_result_view(r)),
            remaining(final(self).state()) <= remaining(old(self).state()),
    {
        match self.advance() {
            Err(e) => Err(e),
            Ok(None) => Err(self.error(SyntaxErrorCode::MissingForIncrement)),
            Ok(Some(token)) => {
                let kind = token.kind;
                self.revert(token);
                let increment = if kind == TokenKind::RightParen {
                    None
                } else {
                    match self.expression() {
                        Ok(e) => Some(Stmt::Expression(Expression { expression: e })),
                        Err(e) => return Err(e),
                    }
                };
                match self.consume(TokenKind::RightParen) {
                    Ok(_) => Ok(increment),
                    Err(e) => Err(e),
                }
            },
        }
    }

    /// A for loop after its keyword, as the while loop it stands for.
    fn for_statement(&mut self) -> (r: Result<Stmt, SyntaxError>)
        requires
            old(self).wf(),
        ensures
            final(self).wf(),
            parse_for(old(self).state()) === (final(self).state(), result_view(r)),
            remaining(final(self).state()) <= remaining(old(self).state()),
        decreases remaining(old(self).state()), 59int,
    {
        match self.consume(TokenKind::LeftParen) {
            Ok(_) => {},
            Err(e) => return Err(e),
        }
        let initializer = match self.for_initializer() {
            Ok(i) => i,
            Err(e) => return Err(e),
        };
        let condition = match self.for_condition() {
            Ok(c) => c,
            Err(e) => return Err(e),
        };
        let increment = match self.for_increment() {
            Ok(i) => i,
            Err(e) => return Err(e),
        };
        let body = match self.statement() {
            Ok(b) => b,
            Err(e) => return Err(e),
        };
        Ok(desugared_for(initializer, condition, increment, body))
    }

    /// An if statement after its keyword.
    fn if_statement(&mut self) -> (r: Result<Stmt, SyntaxError>)
        requires
            old(self).wf(),
        ensures
            final(self).wf(),
            parse_if(old(self).state()) === (final(self).state(), result_view(r)),
            remaining(final(self).state()) <= remaining(old(self).state()),
        decreases remaining(old(self).state()), 59int,
    {
        match self.consume(TokenKind::LeftParen) {
            Ok(_) => {},
            Err(e) => return Err(e),
        }
        let condition = match self.expression() {
            Ok(e) => e,
            Err(e) => return Err(e),
        };
        match self.consume(TokenKind::RightParen) {
            Ok(_) => {},
            Err(e) => return Err(e),
        }
        let then_branch = match self.statement() {
            Ok(st) => st,
            Err(e) => return Err(e),
        };
        let else_branch = match self.advance() {
            Err(e) => return Err(e),
            Ok(None) => None,
            Ok(Some(token)) => {
                if token.kind == TokenKind::Else {
                    match self.statement() {
                        Ok(st) => Some(Box::new(st)),
                        Err(e) => return Err(e),
                    }
                } else {
                    self.revert(token);
                    None
                }
            },
        };
        Ok(Stmt::If(If { condition, then_branch: Box::new(then_branch), else_branch }))
    }

    /// A while loop after its keyword.
    fn while_statement(&mut self) -> (r: Result<Stmt, SyntaxError>)
        requires
            old(self).wf(),
        ensures
            final(self).wf(),
            parse_while(old(self).state()) === (final(self).state(), result_view(r)),
            remaining(final(self).state()) <= remaining(old(self).state()),
        decreases remaining(old(self).state()), 59int,
    {
        match self.consume(TokenKind::LeftParen) {
            Ok(_) => {},
            Err(e) => return Err(e),
        }
        let condition = match self.expression() {
            Ok(e) => e,
            Err(e) => return Err(e),
        };
        match self.consume(TokenKind::RightParen) {
            Ok(_) => {},
            Err(e) => return Err(e),
        }
        match self.statement() {
            Ok(body) => Ok(Stmt::While(While { condition, body: Box::new(body) })),
            Err(e) => Err(e),
        }
    }

    /// The statements of a block after its `{`, up to and including `}`.
    fn block(&mut self) -> (r: Result<Vec<Stmt>, SyntaxError>)
        requires
            old(self).wf(),
        ensures
            final(self).wf(),
            parse_block(old(self).state(), Seq::empty()) === (final(self).state(), stmts_result_view(r)),
            remaining(final(self).state()) <= remaining(old(self).state()),
        decreases remaining(old(self).state()), 62int,
    {
        let ghost s0 = self.state();
        let mut statements: Vec<Stmt> = Vec::new();
        loop
            invariant
                self.wf(),
                parse_block(s0, Seq::empty()) === parse_block(self.state(), stmts_view(statements@)),
                remaining(self.state()) <= remaining(s0),
                s0 == old(self).state(),
            decreases remaining(self.state()),
        {
            match self.declaration(true) {
                None => {
                    return match self.consume(TokenKind::RightBrace) {
                        Ok(_) => Ok(statements),
                        Err(e) => Err(e),
                    };
                },
                Some(Err(e)) => return Err(e),
                Some(Ok(st)) => {
                    proof {
                        lemma_stmts_view_push(statements@, st);
                    }
                    statements.push(st);
                },
            }
        }
    }

    /// The parameters of a function after its `(`, up to and including `)`.
    fn parameters(&mut self) -> (r: Result<Vec<Token>, SyntaxError>)
        requires
            old(self).wf(),
        ensures
            final(self).wf(),
            parse_parameters(old(self).state()) === (final(self).state(), match r {
                Ok(ps) => Ok(tokens_view(ps@)),
                Err(e) => Err(e@),
            }),
            remaining(final(self).state()) <= remaining(old(self).state()),
    {
        match self.advance() {
            Err(e) => return Err(e),
            Ok(Some(token)) => {
                if token.kind == TokenKind::RightParen {
                    assert(tokens_view(Seq::<Token>::empty()) =~= Seq::<TokenView>::empty());
                    return Ok(Vec::new());
                }
                self.revert(token);
            },
            Ok(None) => {},
        }
        let ghost s0 = self.state();
        let ghost start = old(self).state();
        assert(parse_parameters(start) === parse_parameter_list(s0, Seq::empty()));
        let mut parameters: Vec<Token> = Vec::new();
        assert(tokens_view(parameters@) =~= Seq::<TokenView>::empty());
        loop
            invariant
                self.wf(),
                parse_parameter_list(s0, Seq::empty()) === parse_parameter_list(self.state(), tokens_view(parameters@)),
                remaining(self.state()) <= remaining(s0),
                parse_parameters(start) === parse_parameter_list(s0, Seq::empty()),
                remaining(s0) <= remaining(start),
                start == old(self).state(),
            decreases remaining(self.state()),
        {
            let name = match self.consume(TokenKind::Identifier) {
                Ok(t) => t,
                Err(e) => return Err(e),
            };
            proof {
                assert(tokens_view(parameters@.push(name)) =~= tokens_view(parameters@).push(name@));
            }
            parameters.push(name);
            match self.advance() {
                Err(e) => return Err(e),
                Ok(Some(token)) => {
                    if token.kind != TokenKind::Comma {
                        self.revert(token);
                        return match self.consume(TokenKind::RightParen) {
                            Ok(_) => Ok(parameters),
                            Err(e) => Err(e),
                        };
                    }
                },
                Ok(None) => {
                    return match self.consume(TokenKind::RightParen) {
                        Ok(_) => Ok(parameters),
                        Err(e) => Err(e),
                    };
                },
            }
        }
    }

    /// A function: its name, parameters and body.
    fn function(&mut self) -> (r: Result<Function, SyntaxError>)
        requires
            old(self).wf(),
        ensures
            final(self).wf(),
            parse_function(old(self).state()) === (final(self).state(), result_view(r)),
            remaining(final(self).state()) <= remaining(old(self).state()),
            r is Ok ==> remaining(final(self).state()) < remaining(old(self).state()),
        decreases remaining(old(self).state()), 63int,
    {
        let name = match self.consume(TokenKind::Identifier) {
            Ok(t) => t,
            Err(e) => return Err(e),
        };
        match self.consume(TokenKind::LeftParen) {
            Ok(_) => {},
            Err(e) => return Err(e),
        }
        let parameters = match self.parameters() {
            Ok(ps) => ps,
            Err(e) => return Err(e),
        };
        match self.consume(TokenKind::LeftBrace) {
            Ok(_) => {},
            Err(e) => return Err(e),
        }
        match self.block() {
            Ok(body) => Ok(Function { name, parameters, body }),
            Err(e) => Err(e),
        }
    }

    /// The methods of a class up to and including its `}`.
    fn methods(&mut self) -> (r: Result<Vec<Function>, SyntaxError>)
        requires
            old(self).wf(),
        ensures
            final(self).wf(),
            parse_methods(old(self).state(), Seq::empty()) === (final(self).state(), match r {
                Ok(fs) => Ok(functions_view(fs@)),
                Err(e) => Err(e@),
            }),
            remaining(final(self).state()) <= remaining(old(self).state()),
        decreases remaining(old(self).state()), 64int,
    {
        let ghost s0 = self.state();
        let mut methods: Vec<Function> = Vec::new();
        loop
            invariant
                self.wf(),
                parse_methods(s0, Seq::empty()) === parse_methods(self.state(), functions_view(methods@)),
                remaining(self.state()) <= remaining(s0),
                s0 == old(self).state(),
            decreases remaining(self.state()),
        {
            match self.advance() {
                Err(e) => return Err(e),
                Ok(None) => return Err(self.error(SyntaxErrorCode::MissingToken(TokenKind::RightBrace))),
                Ok(Some(token)) => {
                    if token.kind == TokenKind::RightBrace {
                        return Ok(methods);
                    } else if token.kind == TokenKind::EndOfFile {
                        let location = token.location;
                        self.revert(token);
                        return Err(SyntaxError::new(SyntaxErrorCode::MissingToken(TokenKind::RightBrace), location));
                    }
                    self.revert(token);
                    let f = match self.function() {
                        Ok(f) => f,
                        Err(e) => return Err(e),
                    };
                    proof {
                        lemma_functions_view_push(methods@, f);
                    }
                    methods.push(f);
                },
            }
        }
    }

    /// The optional superclass of a class.
    fn superclass(&mut self) -> (r: Result<Option<Variable>, SyntaxError>)
        requires
            old(self).wf(),
        ensures
            final(self).wf(),
            parse_superclass(old(self).state()) === (final(self).state(), match r {
                Ok(Some(v)) => Ok(Some(v.name@)),
                Ok(None) => Ok(None),
                Err(e) => Err(e@),
            }),
            remaining(final(self).state()) <= remaining(old(self).state()),
    {
        match self.advance() {
            Err(e) => Err(e),
            Ok(None) => Ok(None),
            Ok(Some(token)) => {
                if token.kind == TokenKind::Less {
                    match self.consume(TokenKind::Identifier) {
                        Ok(name) => Ok(Some(Variable::new(name))),
                        Err(e) => Err(e),
                    }
                } else {
                    self.revert(token);
                    Ok(None)
                }
            },
        }
    }

    /// A class declaration after its keyword.
    fn class_declaration(&mut self) -> (r: Result<Stmt, SyntaxError>)
        requires
            old(self).wf(),
        ensures
            final(self).wf(),
            parse_class(old(self).state()) === (final(self).state(), result_view(r)),
            remaining(final(self).state()) <= remaining(old(self).state()),
        decreases remaining(old(self).state()), 59int,
    {
        let name = match self.consume(TokenKind::Identifier) {
            Ok(t) => t,
            Err(e) => return Err(e),
        };
        let superclass = match self.superclass() {
            Ok(sc) => sc,
            Err(e) => return Err(e),
        };
        match self.consume(TokenKind::LeftBrace) {
            Ok(_) => {},
            Err(e) => return Err(e),
        }
        match self.methods() {
            Ok(methods) => Ok(Stmt::Class(Class { name, superclass, methods })),
            Err(e) => Err(e),
        }
    }

    fn statement(&mut self) -> (r: Result<Stmt, SyntaxError>)
        requires
            old(self).wf(),
        ensures
            final(self).wf(),
            parse_statement(old(self).state()) === (final(self).state(), result_view(r)),
            remaining(final(self).state()) <= remaining(old(self).state()),
            r is Ok ==> remaining(final(self).state()) < remaining(old(self).state()),
            r is Err ==> moved_or_stuck(old(self).state(), final(self).state(),
                |k: TokenKind| starts_expression(k) || is_statement_keyword(k)),
        decreases remaining(old(self).state()), 60int,
    {
        match self.advance() {
            Err(e) => Err(e),
            Ok(None) => Err(self.error(SyntaxErrorCode::UnexpectedEndOfInput)),
            Ok(Some(token)) => match token.kind {
                TokenKind::LeftBrace => match self.block() {
                    Ok(statements) => Ok(Stmt::Block(Block { statements })),
                    Err(e) => Err(e),
                },
                TokenKind::For => self.for_statement(),
                TokenKind::If => self.if_statement(),
                TokenKind::Print => self.print_statement(),
                TokenKind::Return => self.return_statement(token),
                TokenKind::While => self.while_statement(),
                _ => {
                    self.revert(token);
                    self.expression_statement()
                },
            },
        }
    }

    /// A declaration or statement; nothing at the end of the items, at the
    /// end-of-file token and, inside a block, before its `}`.
    fn declaration(&mut self, in_block: bool) -> (d: Option<Result<Stmt, SyntaxError>>)
        requires
            old(self).wf(),
        ensures
            final(self).wf(),
            parse_declaration(old(self).state(), in_block) === (final(self).state(), declaration_view(d)),
            remaining(final(self).state()) <= remaining(old(self).state()),
            d matches Some(Ok(_)) ==> remaining(final(self).state()) < remaining(old(self).state()),
            d matches Some(Err(_)) ==> remaining(final(self).state()) < remaining(old(self).state())
                || (final(self).state().peeked matches Some(t) && !is_statement_start(t.kind)),
        decreases remaining(old(self).state()), 61int,
    {
        match self.advance() {
            Err(e) => Some(Err(e)),
            Ok(None) => None,
            Ok(Some(token)) => {
                if in_block && token.kind == TokenKind::RightBrace {
                    self.revert(token);
                    None
                } else if token.kind == TokenKind::EndOfFile {
                    None
                } else if token.kind == TokenKind::Var {
                    Some(self.var_declaration())
                } else if token.kind == TokenKind::Class {
                    Some(self.class_declaration())
                } else if token.kind == TokenKind::Fun {
                    match self.function() {
                        Ok(f) => Some(Ok(Stmt::Function(f))),
                        Err(e) => Some(Err(e)),
                    }
                } else {
                    self.revert(token);
                    Some(self.statement())
                }
            },
        }
    }

    /// Skips what follows an error: up to and including the next `;`, or up
    /// to the next token that starts a statement.
    fn synchronize(&mut self) -> (r: Result<(), SyntaxError>)
        requires
            old(self).wf(),
        ensures
            final(self).wf(),
            synchronize(old(self).state()) === (final(self).state(), match r {
                Ok(()) => Ok(()),
                Err(e) => Err(e@),
            }),
            remaining(final(self).state()) <= remaining(old(self).state()),
            (old(self).state().peeked matches Some(t) && !is_statement_start(t.kind)) ==> (r is Err
                || remaining(final(self).state()) < remaining(old(self).state())),
    {
        let ghost s0 = self.state();
        loop
            invariant
                self.wf(),
                synchronize(s0) === synchronize(self.state()),
                self.state() == s0 || remaining(self.state()) < remaining(s0),
                s0 == old(self).state(),
            decreases remaining(self.state()),
        {
            match self.advance() {
                Err(e) => return Err(e),
                Ok(None) => return Ok(()),
                Ok(Some(token)) => {
                    if token.kind == TokenKind::Semicolon {
                        return Ok(());
                    }
                    if token.kind == TokenKind::Class || token.kind == TokenKind::Fun
                        || token.kind == TokenKind::Var || token.kind == TokenKind::For
                        || token.kind == TokenKind::If || token.kind == TokenKind::While
                        || token.kind == TokenKind::Print || token.kind == TokenKind::Return {
                        self.revert(token);
                        return Ok(());
                    }
                },
            }
        }
    }

    /// The statements of the program, or all its syntax errors.
    #[verifier::rlimit(40)]
    fn program(&mut self) -> (r: Result<Vec<Stmt>, Vec<SyntaxError>>)
        requires
            old(self).wf(),
        ensures
            program_view(r) == parse_program(old(self).state()),
    {
        let ghost s0 = self.state();
        let mut statements: Vec<Stmt> = Vec::new();
        let mut errors: Vec<SyntaxError> = Vec::new();
        assert(errors_view(errors@) =~= Seq::<SyntaxErrorView>::empty());
        assert(stmts_view(statements@) =~= Seq::<StmtView>::empty());
        loop
            invariant_except_break
                self.wf(),
                parse_program_from(s0, Seq::empty(), Seq::empty())
                    === parse_program_from(self.state(), stmts_view(statements@), errors_view(errors@)),
            ensures
                parse_program_from(s0, Seq::empty(), Seq::empty()) === (stmts_view(statements@), errors_view(errors@)),
            decreases remaining(self.state()),
        {
            let ghost s = self.state();
            let ghost sv = stmts_view(statements@);
            let ghost ev = errors_view(errors@);
            match self.declaration(false) {
                None => {
                    assert(parse_program_from(s, sv, ev) === (sv, ev));
                    break;
                },
                Some(Ok(st)) => {
                    assert(parse_program_from(s, sv, ev) === parse_program_from(self.state(), sv.push(st@), ev));
                    proof {
                        lemma_stmts_view_push(statements@, st);
                    }
                    statements.push(st);
                },
                Some(Err(error)) => {
                    let ghost s1 = self.state();
                    proof {
                        assert(errors_view(errors@.push(error)) =~= ev.push(error@));
                    }
                    errors.push(error);
                    match self.synchronize() {
                        Ok(()) => {
                            assert(parse_program_from(s, sv, ev) === parse_program_from(self.state(), sv, ev.push(error@)));
                        },
                        Err(e) => {
                            assert(parse_program_from(s, sv, ev) === (sv, ev.push(error@).push(e@)));
                            proof {
                                assert(errors_view(errors@.push(e)) =~= errors_view(errors@).push(e@));
                            }
                            errors.push(e);
                            break;
                        },
                    }
                },
            }
        }
        if errors.len() == 0 {
            Ok(statements)
        } else {
            Err(errors)
        }
    }
}

/// Parsing of the items of a lexer.
pub trait Parse: Sized {
    /// The items that parsing reads.
    spec fn items(&self) -> Seq<Result<TokenView, LexingErrorView>>;

    /// Whether these items can be parsed: every literal token carries its
    /// value.
    spec fn parsable(&self) -> bool;

    /// The statements of the program, or all its syntax errors.
    fn parse(self) -> (r: Result<Vec<Stmt>, Vec<SyntaxError>>)
        requires
            self.parsable(),
        ensures
            program_view(r) == spec_parse(self.items()),
    ;

    /// The expression at the start of the items.
    fn parse_expr(self) -> (r: Result<Expr, SyntaxError>)
        requires
            self.parsable(),
        ensures
            result_view(r) == spec_parse_expr(self.items()),
    ;
}

impl Parse for Vec<Result<Token, LexingError>> {
    open spec fn items(&self) -> Seq<Result<TokenView, LexingErrorView>> {
        crate::tokenize::items_view(self@)
    }

    open spec fn parsable(&self) -> bool {
        items_have_literals(crate::tokenize::items_view(self@))
    }

    fn parse(self) -> (r: Result<Vec<Stmt>, Vec<SyntaxError>>) {
        let mut parser = Parser::new(self);
        parser.program()
    }

    fn parse_expr(self) -> (r: Result<Expr, SyntaxError>) {
        let mut parser = Parser::new(self);
        parser.expression()
    }
}

impl Parse for crate::tokenize::Tokens {
    open spec fn items(&self) -> Seq<Result<TokenView, LexingErrorView>> {
        if self.finished() {
            Seq::empty()
        } else {
            crate::tokenize::items_from(self.source(), self.position())
        }
    }

    open spec fn parsable(&self) -> bool {
        self.wf()
    }

    fn parse(self) -> (r: Result<Vec<Stmt>, Vec<SyntaxError>>) {
        let ghost s = self.source();
        let ghost i = self.position();
        let items = self.collect();
        proof {
            crate::lexing_laws::law_literal_tokens_carry_values(s, i);
        }
        items.parse()
    }

    fn parse_expr(self) -> (r: Result<Expr, SyntaxError>) {
        let ghost s = self.source();
        let ghost i = self.position();
        let items = self.collect();
        proof {
            crate::lexing_laws::law_literal_tokens_carry_values(s, i);
        }
        items.parse_expr()
    }
}

} // verus!
