//! Static resolution of local variables: for each use of a local variable,
//! how many scopes lie between the use and the declaration it refers to.
use crate::expr::{Expr, ExprView};
use crate::span::Span;
use crate::stmt::{stmts_view, tokens_view, Function, FunctionView, Stmt, StmtView};
use crate::token::{Token, TokenKind, TokenView};
use vstd::prelude::*;

verus! {

/// What resolution finds wrong.
#[derive(Debug, Clone, Copy, PartialEq, Eq, Structural)]
pub enum ResolverErrorCode {
    CannotReadLocalVariableInInitializer,
    CannotReturnFromOutsideFunction,
    RedeclaredVariableInSameScope,
}

/// An error of resolution: what is wrong, the token where it is and its location.
#[derive(Debug, Clone, PartialEq)]
pub struct ResolverError {
    pub code: ResolverErrorCode,
    pub token: Token,
    pub location: Span,
}

/// The mathematical view of a [`ResolverError`].
pub struct ResolverErrorView {
    pub code: ResolverErrorCode,
    pub token: TokenView,
    pub location: Span,
}

impl View for ResolverError {
    type V = ResolverErrorView;

    open spec fn view(&self) -> ResolverErrorView {
        ResolverErrorView { code: self.code, token: self.token@, location: self.location }
    }
}

/// The message of an error of resolution.
pub open spec fn spec_resolver_message(e: ResolverErrorView) -> Seq<char> {
    match e.code {
        ResolverErrorCode::CannotReadLocalVariableInInitializer => "can't read local variable in its own initializer"@,
        ResolverErrorCode::CannotReturnFromOutsideFunction => "can't return from outside of any function"@,
        ResolverErrorCode::RedeclaredVariableInSameScope =>
            "variable with name '"@ + e.token.lexeme + "' already declared in this scope"@,
    }
}

impl ResolverError {
    /// The message that describes this error.
    pub fn message(&self) -> (message: String)
        ensures
            message@ == spec_resolver_message(self@),
    {
        match self.code {
            ResolverErrorCode::CannotReadLocalVariableInInitializer => {
                String::from_str("can't read local variable in its own initializer")
            },
            ResolverErrorCode::CannotReturnFromOutsideFunction => {
                String::from_str("can't return from outside of any function")
            },
            ResolverErrorCode::RedeclaredVariableInSameScope => {
                let mut s = String::from_str("variable with name '");
                s.append(self.token.lexeme.as_str());
                s.append("' already declared in this scope");
                s
            },
        }
    }
}

// ---------------------------------------------------------------------------
// Scopes and the resolution map
// ---------------------------------------------------------------------------

/// The variables of one scope, each with whether its initializer has been
/// resolved.
#[verifier::external_body]
pub struct Scope {
    names: hashbrown::HashMap<String, bool>,
}

/// The variables of a scope: each name with whether it is defined (its
/// initializer resolved) or only declared.
pub uninterp spec fn scope_entries(scope: Scope) -> Map<Seq<char>, bool>;

impl View for Scope {
    type V = Map<Seq<char>, bool>;

    /// The variables of this scope.
    open spec fn view(&self) -> Map<Seq<char>, bool> {
        scope_entries(*self)
    }
}

/// The variables of an empty scope.
pub open spec fn no_names() -> Map<Seq<char>, bool> {
    Map::empty()
}

/// The distances of an empty resolution map.
pub open spec fn no_distances() -> Map<(Seq<char>, usize, usize, TokenKind), usize> {
    Map::empty()
}

/// An empty scope.
///
/// Trusted: `hashbrown::HashMap::new` creates an empty map.
#[verifier::external_body]
fn new_scope() -> (scope: Scope)
    ensures
        scope@ == no_names(),
{
    Scope { names: hashbrown::HashMap::new() }
}

/// Whether a name is in a scope, and whether it is defined there.
///
/// Trusted: `hashbrown::HashMap::get` gives the value of the key equal to
/// the one asked for, or nothing when there is none; `String` keys are equal
/// when their texts are.
#[verifier::external_body]
fn scope_get(scope: &Scope, name: &str) -> (state: Option<bool>)
    ensures
        state == (if scope_entries(*scope).dom().contains(name@) {
            Some(scope_entries(*scope)[name@])
        } else {
            None
        }),
{
    scope.names.get(name).copied()
}

/// Records a name in a scope.
///
/// Trusted: `hashbrown::HashMap::insert` maps the key to the value, in place
/// of any value that an equal key had, and leaves the other keys unchanged.
#[verifier::external_body]
fn scope_insert(scope: &mut Scope, name: String, defined: bool)
    ensures
        final(scope)@ == old(scope)@.insert(name@, defined),
{
    scope.names.insert(name, defined);
}

/// For each resolved use of a local variable, given by the location of its
/// token, the number of scopes between the use and the declaration.
#[verifier::external_body]
#[derive(Debug, PartialEq, Eq)]
pub struct ResolutionMap {
    distances: hashbrown::HashMap<(String, usize, usize, TokenKind), usize>,
}

/// The distances of a resolution map, by the text, offset, length and kind
/// of the token.
pub uninterp spec fn distances_of(map: ResolutionMap) -> Map<(Seq<char>, usize, usize, TokenKind), usize>;

impl View for ResolutionMap {
    type V = Map<(Seq<char>, usize, usize, TokenKind), usize>;

    /// The distances of this map.
    open spec fn view(&self) -> Map<(Seq<char>, usize, usize, TokenKind), usize> {
        distances_of(*self)
    }
}

/// An empty resolution map.
///
/// Trusted: `hashbrown::HashMap::new` creates an empty map.
#[verifier::external_body]
fn empty_distances() -> (map: ResolutionMap)
    ensures
        map@ == no_distances(),
{
    ResolutionMap { distances: hashbrown::HashMap::new() }
}

/// The distance recorded for a key.
///
/// Trusted: `hashbrown::HashMap::get` gives the value of the key equal to
/// the one asked for, or nothing when there is none; keys are equal when
/// their texts, numbers and token kinds are.
#[verifier::external_body]
fn distance_get(map: &ResolutionMap, key: &(String, usize, usize, TokenKind)) -> (d: Option<usize>)
    ensures
        d == (if distances_of(*map).dom().contains(key_view(*key)) {
            Some(distances_of(*map)[key_view(*key)])
        } else {
            None
        }),
{
    map.distances.get(key).copied()
}

/// Records the distance for a key.
///
/// Trusted: `hashbrown::HashMap::insert` maps the key to the value, in place
/// of any value that the key had, and leaves the other keys unchanged.
#[verifier::external_body]
fn distance_insert(map: &mut ResolutionMap, key: (String, usize, usize, TokenKind), d: usize)
    ensures
        final(map)@ == old(map)@.insert(key_view(key), d),
{
    map.distances.insert(key, d);
}

/// The key under which the distance of a token's variable is recorded: the
/// token's text, location and kind, by which tokens are equal.
pub open spec fn name_key(t: TokenView) -> (Seq<char>, usize, usize, TokenKind) {
    (t.lexeme, t.location.offset, t.location.length, t.kind)
}

/// The view of a key of a resolution map.
pub open spec fn key_view(key: (String, usize, usize, TokenKind)) -> (Seq<char>, usize, usize, TokenKind) {
    (key.0@, key.1, key.2, key.3)
}

impl ResolutionMap {
    /// An empty resolution map.
    pub fn new() -> (map: ResolutionMap)
        ensures
            distances_of(map) == Map::<(Seq<char>, usize, usize, TokenKind), usize>::empty(),
    {
        empty_distances()
    }

    /// The distance recorded for the variable of a token.
    pub fn get_distance(&self, token: Token) -> (d: Option<usize>)
        ensures
            d == (if distances_of(*self).dom().contains(name_key(token@)) {
                Some(distances_of(*self)[name_key(token@)])
            } else {
                None
            }),
    {
        let key = (token.lexeme, token.location.offset, token.location.length, token.kind);
        distance_get(self, &key)
    }

    /// Records the distance for the variable of a token.
    pub fn insert_distance(&mut self, token: Token, distance: usize)
        ensures
            final(self)@ == old(self)@.insert(name_key(token@), distance),
    {
        distance_insert(self, (token.lexeme, token.location.offset, token.location.length, token.kind), distance)
    }
}

// ---------------------------------------------------------------------------
// Resolution, stated over views
// ---------------------------------------------------------------------------

/// The state of resolution: the scopes from the outermost to the innermost,
/// the distances found so far and whether a function is being resolved.
pub struct ResolverView {
    pub scopes: Seq<Map<Seq<char>, bool>>,
    pub distances: Map<(Seq<char>, usize, usize, TokenKind), usize>,
    pub in_function: bool,
}

/// The outcome of resolving a part of a program from a state: the state after
/// it and the errors found, or nothing for a part that resolution does not
/// handle (property accesses, `this` and `super`).
pub open spec fn outcome(r: ResolverView, errors: Seq<ResolverErrorView>) -> Option<(ResolverView, Result<(), Seq<ResolverErrorView>>)> {
    if errors.len() == 0 {
        Some((r, Ok(())))
    } else {
        Some((r, Err(errors)))
    }
}

/// The errors of a result.
pub open spec fn errors_in(res: Result<(), Seq<ResolverErrorView>>) -> Seq<ResolverErrorView> {
    match res {
        Ok(_) => Seq::empty(),
        Err(es) => es,
    }
}

/// A new innermost scope.
pub open spec fn begin_scope(r: ResolverView) -> ResolverView {
    ResolverView { scopes: r.scopes.push(Map::empty()), distances: r.distances, in_function: r.in_function }
}

/// Without the innermost scope.
pub open spec fn end_scope(r: ResolverView) -> ResolverView {
    ResolverView {
        scopes: if r.scopes.len() > 0 { r.scopes.drop_last() } else { r.scopes },
        distances: r.distances,
        in_function: r.in_function,
    }
}

/// Declaring a name in the innermost scope, where it must not be yet; global
/// names are not tracked.
pub open spec fn declare(r: ResolverView, name: TokenView) -> (ResolverView, Result<(), ResolverErrorView>) {
    if r.scopes.len() == 0 {
        (r, Ok(()))
    } else if r.scopes.last().dom().contains(name.lexeme) {
        (r, Err(ResolverErrorView {
            code: ResolverErrorCode::RedeclaredVariableInSameScope,
            token: name,
            location: name.location,
        }))
    } else {
        (ResolverView {
            scopes: r.scopes.update(r.scopes.len() - 1, r.scopes.last().insert(name.lexeme, false)),
            distances: r.distances,
            in_function: r.in_function,
        }, Ok(()))
    }
}

/// Marking a name of the innermost scope as defined.
pub open spec fn define(r: ResolverView, name: TokenView) -> ResolverView {
    if r.scopes.len() == 0 {
        r
    } else {
        ResolverView {
            scopes: r.scopes.update(r.scopes.len() - 1, r.scopes.last().insert(name.lexeme, true)),
            distances: r.distances,
            in_function: r.in_function,
        }
    }
}

/// The distance from the innermost scope to the first scope, `d` or more
/// scopes out, that holds `name`.
pub open spec fn distance_from(scopes: Seq<Map<Seq<char>, bool>>, name: Seq<char>, d: nat) -> Option<nat>
    decreases scopes.len() - d,
{
    if d >= scopes.len() {
        None
    } else if scopes[scopes.len() - 1 - d].dom().contains(name) {
        Some(d)
    } else {
        distance_from(scopes, name, d + 1)
    }
}

/// Recording the distance to the nearest scope that holds a name; nothing
/// for a global name.
pub open spec fn resolve_local(r: ResolverView, name: TokenView) -> ResolverView {
    match distance_from(r.scopes, name.lexeme, 0) {
        Some(d) => ResolverView {
            scopes: r.scopes,
            distances: r.distances.insert(name_key(name), d as usize),
            in_function: r.in_function,
        },
        None => r,
    }
}

/// Resolving an expression; the first error stops it.
pub open spec fn resolve_expr(r: ResolverView, e: ExprView) -> Option<(ResolverView, Result<(), Seq<ResolverErrorView>>)>
    decreases e,
{
    match e {
        ExprView::Assign { name, value } => match resolve_expr(r, *value) {
            Some((r1, Ok(_))) => Some((resolve_local(r1, name), Ok(()))),
            other => other,
        },
        ExprView::Binary { left, operator, right } => match resolve_expr(r, *left) {
            Some((r1, Ok(_))) => resolve_expr(r1, *right),
            other => other,
        },
        ExprView::Call { callee, paren, arguments } => match resolve_expr(r, *callee) {
            Some((r1, Ok(_))) => resolve_exprs(r1, arguments),
            other => other,
        },
        ExprView::Grouping { expression } => resolve_expr(r, *expression),
        ExprView::Literal { value } => Some((r, Ok(()))),
        ExprView::Logical { left, operator, right } => match resolve_expr(r, *left) {
            Some((r1, Ok(_))) => resolve_expr(r1, *right),
            other => other,
        },
        ExprView::Unary { operator, right } => resolve_expr(r, *right),
        ExprView::Variable { name } => if r.scopes.len() > 0 && r.scopes.last().dom().contains(name.lexeme)
            && !r.scopes.last()[name.lexeme] {
            Some((r, Err(seq![ResolverErrorView {
                code: ResolverErrorCode::CannotReadLocalVariableInInitializer,
                token: name,
                location: name.location,
            }])))
        } else {
            Some((resolve_local(r, name), Ok(())))
        },
        _ => None,
    }
}

/// Resolving expressions in order; the first error stops it.
pub open spec fn resolve_exprs(r: ResolverView, es: Seq<ExprView>) -> Option<(ResolverView, Result<(), Seq<ResolverErrorView>>)>
    decreases es,
{
    if es.len() == 0 {
        Some((r, Ok(())))
    } else {
        match resolve_expr(r, es[0]) {
            Some((r1, Ok(_))) => resolve_exprs(r1, es.drop_first()),
            other => other,
        }
    }
}

/// Declaring and defining the parameters of a function in order; the first
/// error stops it.
pub open spec fn resolve_parameters(r: ResolverView, ps: Seq<TokenView>) -> (ResolverView, Result<(), ResolverErrorView>)
    decreases ps.len(),
{
    if ps.len() == 0 {
        (r, Ok(()))
    } else {
        let (r1, d) = declare(r, ps[0]);
        match d {
            Err(e) => (r1, Err(e)),
            Ok(_) => resolve_parameters(define(r1, ps[0]), ps.drop_first()),
        }
    }
}

/// Resolving a statement.
pub open spec fn resolve_stmt(r: ResolverView, s: StmtView) -> Option<(ResolverView, Result<(), Seq<ResolverErrorView>>)>
    decreases s,
{
    match s {
        StmtView::Block { statements } => match resolve_stmts(begin_scope(r), statements) {
            Some((r1, res)) => Some((end_scope(r1), res)),
            None => None,
        },
        StmtView::Class { name, superclass, methods } => {
            let (r1, d) = declare(r, name);
            match d {
                Err(e) => Some((r1, Err(seq![e]))),
                Ok(_) => Some((define(r1, name), Ok(()))),
            }
        },
        StmtView::Expression { expression } => resolve_expr(r, expression),
        StmtView::Function { function } => {
            let (r1, d) = declare(r, function.name);
            match d {
                Err(e) => Some((r1, Err(seq![e]))),
                Ok(_) => resolve_function(define(r1, function.name), function),
            }
        },
        StmtView::If { condition, then_branch, else_branch } => match resolve_expr(r, condition) {
            Some((r1, Ok(_))) => match resolve_stmt(r1, *then_branch) {
                Some((r2, Ok(_))) => match else_branch {
                    Some(b) => resolve_stmt(r2, *b),
                    None => Some((r2, Ok(()))),
                },
                other => other,
            },
            other => other,
        },
        StmtView::Print { expression } => resolve_expr(r, expression),
        StmtView::Return { keyword, value } => if !r.in_function {
            Some((r, Err(seq![ResolverErrorView {
                code: ResolverErrorCode::CannotReturnFromOutsideFunction,
                token: keyword,
                location: keyword.location,
            }])))
        } else {
            match value {
                Some(v) => resolve_expr(r, v),
                None => Some((r, Ok(()))),
            }
        },
        StmtView::Var { name, initializer } => {
            let (r1, d) = declare(r, name);
            match d {
                Err(e) => Some((r1, Err(seq![e]))),
                Ok(_) => match initializer {
                    Some(init) => match resolve_expr(r1, init) {
                        Some((r2, Ok(_))) => Some((define(r2, name), Ok(()))),
                        other => other,
                    },
                    None => Some((define(r1, name), Ok(()))),
                },
            }
        },
        StmtView::While { condition, body } => match resolve_expr(r, condition) {
            Some((r1, Ok(_))) => resolve_stmt(r1, *body),
            other => other,
        },
    }
}

/// Resolving statements in order; an error does not stop the statements
/// after it, and the errors of all of them are kept in order.
pub open spec fn resolve_stmts(r: ResolverView, ss: Seq<StmtView>) -> Option<(ResolverView, Result<(), Seq<ResolverErrorView>>)>
    decreases ss,
{
    if ss.len() == 0 {
        Some((r, Ok(())))
    } else {
        match resolve_stmt(r, ss[0]) {
            None => None,
            Some((r1, res1)) => match resolve_stmts(r1, ss.drop_first()) {
                None => None,
                Some((r2, res2)) => outcome(r2, errors_in(res1) + errors_in(res2)),
            },
        }
    }
}

/// Resolving a function in a scope of its own that holds its parameters. An
/// error leaves that scope, and the function being resolved, in place.
pub open spec fn resolve_function(r: ResolverView, f: FunctionView) -> Option<(ResolverView, Result<(), Seq<ResolverErrorView>>)>
    decreases f,
{
    let inner = ResolverView { scopes: r.scopes.push(Map::empty()), distances: r.distances, in_function: true };
    let (r1, p) = resolve_parameters(inner, f.parameters);
    match p {
        Err(e) => Some((r1, Err(seq![e]))),
        Ok(_) => match resolve_stmts(r1, f.body) {
            Some((r2, Ok(_))) => {
                let closed = end_scope(r2);
                Some((ResolverView { scopes: closed.scopes, distances: closed.distances, in_function: r.in_function }, Ok(())))
            },
            other => other,
        },
    }
}

/// Resolving a program: the scopes are emptied first; the distances found are
/// handed out, and the state keeps none, when no error was found.
pub open spec fn resolve_program(r: ResolverView, ss: Seq<StmtView>) -> Option<(ResolverView, Result<Map<(Seq<char>, usize, usize, TokenKind), usize>, Seq<ResolverErrorView>>)> {
    let cleared = ResolverView { scopes: Seq::empty(), distances: r.distances, in_function: r.in_function };
    match resolve_stmts(cleared, ss) {
        None => None,
        Some((r1, Err(es))) => Some((r1, Err(es))),
        Some((r1, Ok(_))) => Some((
            ResolverView { scopes: r1.scopes, distances: Map::empty(), in_function: r1.in_function },
            Ok(r1.distances),
        )),
    }
}

// ---------------------------------------------------------------------------
// The resolver
// ---------------------------------------------------------------------------

/// Whether a function is being resolved.
#[derive(Debug, Clone, Copy, PartialEq, Eq, Structural)]
pub enum FunctionKind {
    NoFunction,
    Function,
}

/// The resolver: the stack of scopes, the distances found so far and the
/// kind of function being resolved.
pub struct Resolver {
    pub scopes: Vec<Scope>,
    resolution_map: ResolutionMap,
    current_function: FunctionKind,
}

/// The views of scopes.
pub open spec fn scopes_view(scopes: Seq<Scope>) -> Seq<Map<Seq<char>, bool>> {
    scopes.map_values(|s: Scope| s@)
}

impl View for Resolver {
    type V = ResolverView;

    closed spec fn view(&self) -> ResolverView {
        ResolverView {
            scopes: scopes_view(self.scopes@),
            distances: self.resolution_map@,
            in_function: self.current_function == FunctionKind::Function,
        }
    }
}

/// The views of errors of resolution.
pub open spec fn resolver_errors_view(errors: Seq<ResolverError>) -> Seq<ResolverErrorView> {
    errors.map_values(|e: ResolverError| e@)
}

/// The view of the result of resolving a part of a program.
pub open spec fn resolved_view(r: Result<(), Vec<ResolverError>>) -> Result<(), Seq<ResolverErrorView>> {
    match r {
        Ok(_) => Ok(()),
        Err(es) => Err(resolver_errors_view(es@)),
    }
}

/// The outcome of resolving a part of a program, as the result of the
/// resolver and its state after it.
pub open spec fn checked_view(s: ResolverView, r: Option<Result<(), Vec<ResolverError>>>) -> Option<(ResolverView, Result<(), Seq<ResolverErrorView>>)> {
    match r {
        Some(res) => Some((s, resolved_view(res))),
        None => None,
    }
}

/// The outcome after `errors` of what follows them.
pub open spec fn after_errors(errors: Seq<ResolverErrorView>, o: Option<(ResolverView, Result<(), Seq<ResolverErrorView>>)>) -> Option<(ResolverView, Result<(), Seq<ResolverErrorView>>)> {
    match o {
        None => None,
        Some((r, res)) => outcome(r, errors + errors_in(res)),
    }
}

/// The state before any resolution.
pub open spec fn initial_resolver() -> ResolverView {
    ResolverView { scopes: Seq::empty(), distances: Map::empty(), in_function: false }
}

fn single_error(e: ResolverError) -> (v: Vec<ResolverError>)
    ensures
        resolver_errors_view(v@) == seq![e@],
{
    let mut v: Vec<ResolverError> = Vec::new();
    v.push(e);
    assert(resolver_errors_view(v@) =~= seq![e@]);
    v
}

proof fn lemma_scopes_view_push(scopes: Seq<Scope>, s: Scope)
    ensures
        scopes_view(scopes.push(s)) == scopes_view(scopes).push(s@),
{
    assert(scopes_view(scopes.push(s)) =~= scopes_view(scopes).push(s@));
}

proof fn lemma_scopes_view_drop_last(scopes: Seq<Scope>)
    requires
        scopes.len() > 0,
    ensures
        scopes_view(scopes.drop_last()) == scopes_view(scopes).drop_last(),
        scopes_view(scopes).last() == scopes.last()@,
{
    assert(scopes_view(scopes.drop_last()) =~= scopes_view(scopes).drop_last());
}

impl Resolver {
    /// A resolver with no scope, no distance and no function.
    pub fn new() -> (r: Resolver)
        ensures
            r@ == initial_resolver(),
    {
        let r = Resolver { scopes: Vec::new(), resolution_map: ResolutionMap::new(), current_function: FunctionKind::NoFunction };
        assert(r@.scopes =~= Seq::<Map<Seq<char>, bool>>::empty());
        r
    }

    fn begin_scope(&mut self)
        ensures
            final(self)@ == begin_scope(old(self)@),
    {
        let scope = new_scope();
        proof {
            lemma_scopes_view_push(self.scopes@, scope);
        }
        self.scopes.push(scope);
    }

    fn end_scope(&mut self)
        ensures
            final(self)@ == end_scope(old(self)@),
    {
        if self.scopes.len() > 0 {
            proof {
                lemma_scopes_view_drop_last(self.scopes@);
            }
            self.scopes.pop();
        }
    }

    fn declare(&mut self, name: &Token) -> (r: Result<(), ResolverError>)
        ensures
            declare(old(self)@, name@) === (final(self)@, match r {
                Ok(_) => Ok(()),
                Err(e) => Err(e@),
            }),
    {
        if self.scopes.len() == 0 {
            return Ok(());
        }
        proof {
            lemma_scopes_view_drop_last(self.scopes@);
        }
        let mut scope = self.scopes.pop().unwrap();
        if scope_get(&scope, name.lexeme.as_str()).is_some() {
            proof {
                lemma_scopes_view_push(self.scopes@, scope);
                assert(scopes_view(self.scopes@.push(scope)) =~= scopes_view(old(self).scopes@));
            }
            self.scopes.push(scope);
            return Err(ResolverError {
                code: ResolverErrorCode::RedeclaredVariableInSameScope,
                token: name.duplicate(),
                location: name.location,
            });
        }
        scope_insert(&mut scope, name.lexeme.clone(), false);
        proof {
            lemma_scopes_view_push(self.scopes@, scope);
            let old_view = scopes_view(old(self).scopes@);
            assert(scopes_view(self.scopes@.push(scope)) =~= old_view.update(old_view.len() - 1, old_view.last().insert(name.lexeme@, false)));
        }
        self.scopes.push(scope);
        Ok(())
    }

    fn define(&mut self, name: &Token)
        ensures
            final(self)@ == define(old(self)@, name@),
    {
        if self.scopes.len() == 0 {
            return;
        }
        proof {
            lemma_scopes_view_drop_last(self.scopes@);
        }
        let mut scope = self.scopes.pop().unwrap();
        scope_insert(&mut scope, name.lexeme.clone(), true);
        proof {
            lemma_scopes_view_push(self.scopes@, scope);
            let old_view = scopes_view(old(self).scopes@);
            assert(scopes_view(self.scopes@.push(scope)) =~= old_view.update(old_view.len() - 1, old_view.last().insert(name.lexeme@, true)));
        }
        self.scopes.push(scope);
    }

    fn resolve_local(&mut self, name: &Token)
        ensures
            final(self)@ == resolve_local(old(self)@, name@),
    {
        let n = self.scopes.len();
        let mut d: usize = 0;
        while d < n
            invariant
                d <= n,
                n == self.scopes.len(),
                *self == *old(self),
                distance_from(self@.scopes, name.lexeme@, 0) == distance_from(self@.scopes, name.lexeme@, d as nat),
            decreases n - d,
        {
            assert(self@.scopes[n - 1 - d] == self.scopes@[n - 1 - d]@);
            if scope_get(&self.scopes[n - 1 - d], name.lexeme.as_str()).is_some() {
                self.resolution_map.insert_distance(name.duplicate(), d);
                return;
            }
            d = d + 1;
        }
    }

    /// Resolves an expression; the first error stops it.
    fn resolve_expr(&mut self, expr: &Expr) -> (r: Option<Result<(), Vec<ResolverError>>>)
        ensures
            resolve_expr(old(self)@, expr@) === checked_view(final(self)@, r),
        decreases expr,
    {
        match expr {
            Expr::Assign(a) => {
                match self.resolve_expr(&a.value) {
                    None => return None,
                    Some(Err(es)) => return Some(Err(es)),
                    Some(Ok(())) => {},
                }
                self.resolve_local(&a.name);
                Some(Ok(()))
            },
            Expr::Binary(b) => {
                match self.resolve_expr(&b.left) {
                    None => return None,
                    Some(Err(es)) => return Some(Err(es)),
                    Some(Ok(())) => {},
                }
                self.resolve_expr(&b.right)
            },
            Expr::Call(c) => {
                match self.resolve_expr(&c.callee) {
                    None => return None,
                    Some(Err(es)) => return Some(Err(es)),
                    Some(Ok(())) => {},
                }
                self.resolve_arguments(c.arguments.as_slice())
            },
            Expr::Grouping(g) => self.resolve_expr(&g.expression),
            Expr::Literal(_) => Some(Ok(())),
            Expr::Logical(l) => {
                match self.resolve_expr(&l.left) {
                    None => return None,
                    Some(Err(es)) => return Some(Err(es)),
                    Some(Ok(())) => {},
                }
                self.resolve_expr(&l.right)
            },
            Expr::Unary(u) => self.resolve_expr(&u.right),
            Expr::Variable(v) => {
                let n = self.scopes.len();
                if n > 0 {
                    proof {
                        lemma_scopes_view_drop_last(self.scopes@);
                    }
                    if scope_get(&self.scopes[n - 1], v.name.lexeme.as_str()) == Some(false) {
                        return Some(Err(single_error(ResolverError {
                            code: ResolverErrorCode::CannotReadLocalVariableInInitializer,
                            token: v.name.duplicate(),
                            location: v.name.location,
                        })));
                    }
                }
                self.resolve_local(&v.name);
                Some(Ok(()))
            },
            Expr::Get(_) | Expr::SetProperty(_) | Expr::Super(_) | Expr::This(_) => None,
        }
    }

    /// Resolves the arguments of a call in order; the first error stops it.
    fn resolve_arguments(&mut self, arguments: &[Expr]) -> (r: Option<Result<(), Vec<ResolverError>>>)
        ensures
            resolve_exprs(old(self)@, crate::expr::exprs_view(arguments@)) === checked_view(final(self)@, r),
        decreases arguments@,
    {
        let ghost all = crate::expr::exprs_view(arguments@);
        proof {
            crate::expr::lemma_exprs_view(arguments@);
        }
        let n = arguments.len();
        let mut i: usize = 0;
        assert(all.subrange(0, n as int) =~= all);
        while i < n
            invariant
                i <= n,
                n == arguments@.len(),
                all == crate::expr::exprs_view(arguments@),
                all.len() == n,
                forall|k: int| 0 <= k < n ==> #[trigger] all[k] == arguments@[k]@,
                resolve_exprs(old(self)@, all) === resolve_exprs(self@, all.subrange(i as int, n as int)),
            decreases n - i,
        {
            let ghost rest = all.subrange(i as int, n as int);
            assert(rest[0] == arguments@[i as int]@);
            assert(rest.drop_first() =~= all.subrange(i + 1, n as int));
            match self.resolve_expr(&arguments[i]) {
                None => return None,
                    Some(Err(es)) => return Some(Err(es)),
                Some(Ok(())) => {},
            }
            i = i + 1;
        }
        assert(all.subrange(n as int, n as int) =~= Seq::<ExprView>::empty());
        Some(Ok(()))
    }

    /// Resolves a statement.
    fn resolve_stmt(&mut self, stmt: &Stmt) -> (r: Option<Result<(), Vec<ResolverError>>>)
        ensures
            resolve_stmt(old(self)@, stmt@) === checked_view(final(self)@, r),
        decreases stmt,
    {
        match stmt {
            Stmt::Block(b) => {
                self.begin_scope();
                let r = self.resolve_stmts(b.statements.as_slice());
                self.end_scope();
                r
            },
            Stmt::Class(c) => match self.declare(&c.name) {
                Err(e) => Some(Err(single_error(e))),
                Ok(()) => {
                    self.define(&c.name);
                    Some(Ok(()))
                },
            },
            Stmt::Expression(e) => self.resolve_expr(&e.expression),
            Stmt::Function(f) => match self.declare(&f.name) {
                Err(e) => Some(Err(single_error(e))),
                Ok(()) => {
                    self.define(&f.name);
                    self.resolve_function(f)
                },
            },
            Stmt::If(i) => {
                match self.resolve_expr(&i.condition) {
                    None => return None,
                    Some(Err(es)) => return Some(Err(es)),
                    Some(Ok(())) => {},
                }
                match self.resolve_stmt(&i.then_branch) {
                    None => return None,
                    Some(Err(es)) => return Some(Err(es)),
                    Some(Ok(())) => {},
                }
                match &i.else_branch {
                    Some(b) => self.resolve_stmt(b),
                    None => Some(Ok(())),
                }
            },
            Stmt::Print(p) => self.resolve_expr(&p.expression),
            Stmt::Return(ret) => {
                if self.current_function == FunctionKind::NoFunction {
                    return Some(Err(single_error(ResolverError {
                        code: ResolverErrorCode::CannotReturnFromOutsideFunction,
                        token: ret.keyword.duplicate(),
                        location: ret.keyword.location,
                    })));
                }
                match &ret.value {
                    Some(v) => self.resolve_expr(v),
                    None => Some(Ok(())),
                }
            },
            Stmt::Var(v) => {
                match self.declare(&v.name) {
                    Err(e) => return Some(Err(single_error(e))),
                    Ok(()) => {},
                }
                match &v.initializer {
                    Some(init) => match self.resolve_expr(init) {
                        None => return None,
                    Some(Err(es)) => return Some(Err(es)),
                        Some(Ok(())) => {},
                    },
                    None => {},
                }
                self.define(&v.name);
                Some(Ok(()))
            },
            Stmt::While(w) => {
                match self.resolve_expr(&w.condition) {
                    None => return None,
                    Some(Err(es)) => return Some(Err(es)),
                    Some(Ok(())) => {},
                }
                self.resolve_stmt(&w.body)
            },
        }
    }

    /// Resolves statements in order; an error does not stop the statements
    /// after it, and the errors of all of them are kept in order.
    fn resolve_stmts(&mut self, statements: &[Stmt]) -> (r: Option<Result<(), Vec<ResolverError>>>)
        ensures
            resolve_stmts(old(self)@, stmts_view(statements@)) === checked_view(final(self)@, r),
        decreases statements@,
    {
        let ghost all = stmts_view(statements@);
        proof {
            crate::stmt::lemma_stmts_view(statements@);
        }
        let n = statements.len();
        let mut errors: Vec<ResolverError> = Vec::new();
        let mut i: usize = 0;
        assert(all.subrange(0, n as int) =~= all);
        assert(resolver_errors_view(errors@) =~= Seq::<ResolverErrorView>::empty());
        proof {
            let o = resolve_stmts(self@, all);
            assert(after_errors(Seq::empty(), o) === o) by {
                match o {
                    Some((r, res)) => {
                        assert(Seq::<ResolverErrorView>::empty() + errors_in(res) =~= errors_in(res));
                    },
                    None => {},
                }
            }
        }
        while i < n
            invariant
                i <= n,
                n == statements@.len(),
                all == stmts_view(statements@),
                all.len() == n,
                forall|k: int| 0 <= k < n ==> #[trigger] all[k] == statements@[k]@,
                resolve_stmts(old(self)@, all)
                    === after_errors(resolver_errors_view(errors@), resolve_stmts(self@, all.subrange(i as int, n as int))),
            decreases n - i,
        {
            let ghost rest = all.subrange(i as int, n as int);
            let ghost acc = resolver_errors_view(errors@);
            let ghost before = self@;
            assert(rest[0] == statements@[i as int]@);
            assert(rest.drop_first() =~= all.subrange(i + 1, n as int));
            let r = match self.resolve_stmt(&statements[i]) {
                None => return None,
                Some(r) => r,
            };
            let ghost after = self@;
            proof {
                let tail = resolve_stmts(after, all.subrange(i + 1, n as int));
                match tail {
                    Some((r2, res2)) => {
                        let e1 = errors_in(resolved_view(r));
                        assert(errors_in(outcome(r2, e1 + errors_in(res2)).unwrap().1) =~= e1 + errors_in(res2));
                        assert(acc + (e1 + errors_in(res2)) =~= (acc + e1) + errors_in(res2));
                    },
                    None => {},
                }
            }
            match r {
                Err(mut es) => {
                    proof {
                        assert(resolver_errors_view(errors@ + es@) =~= acc + resolver_errors_view(es@));
                    }
                    errors.append(&mut es);
                },
                Ok(()) => {
                    assert(acc + Seq::<ResolverErrorView>::empty() =~= acc);
                },
            }
            i = i + 1;
        }
        assert(all.subrange(n as int, n as int) =~= Seq::<StmtView>::empty());
        proof {
            let acc = resolver_errors_view(errors@);
            assert(acc + Seq::<ResolverErrorView>::empty() =~= acc);
        }
        if errors.len() == 0 {
            Some(Ok(()))
        } else {
            Some(Err(errors))
        }
    }

    /// Resolves a function in a scope of its own that holds its parameters.
    fn resolve_function(&mut self, function: &Function) -> (r: Option<Result<(), Vec<ResolverError>>>)
        ensures
            resolve_function(old(self)@, function@) === checked_view(final(self)@, r),
        decreases function,
    {
        let enclosing = self.current_function;
        self.current_function = FunctionKind::Function;
        self.begin_scope();
        let ghost params = tokens_view(function.parameters@);
        let n = function.parameters.len();
        let mut i: usize = 0;
        let ghost start = self@;
        assert(params.subrange(0, n as int) =~= params);
        while i < n
            invariant
                i <= n,
                n == function.parameters@.len(),
                params == tokens_view(function.parameters@),
                resolve_parameters(start, params) === resolve_parameters(self@, params.subrange(i as int, n as int)),
                self.current_function == FunctionKind::Function,
                start == (ResolverView { scopes: old(self)@.scopes.push(Map::empty()), distances: old(self)@.distances, in_function: true }),
                enclosing == old(self).current_function,
                function@.parameters == params,
            decreases n - i,
        {
            let ghost rest = params.subrange(i as int, n as int);
            assert(rest[0] == function.parameters@[i as int]@);
            assert(rest.drop_first() =~= params.subrange(i + 1, n as int));
            match self.declare(&function.parameters[i]) {
                Err(e) => return Some(Err(single_error(e))),
                Ok(()) => {},
            }
            self.define(&function.parameters[i]);
            i = i + 1;
        }
        assert(params.subrange(n as int, n as int) =~= Seq::<TokenView>::empty());
        match self.resolve_stmts(function.body.as_slice()) {
            None => return None,
                    Some(Err(es)) => return Some(Err(es)),
            Some(Ok(())) => {},
        }
        self.end_scope();
        self.current_function = enclosing;
        Some(Ok(()))
    }

    /// Resolves a program: empties the scopes, then resolves the statements;
    /// hands out the distances found when no error was found. Gives nothing
    /// when the program reads or writes a property, or uses `this` or
    /// `super`, which resolution does not handle.
    pub fn try_resolve(&mut self, statements: &[Stmt]) -> (r: Option<Result<ResolutionMap, Vec<ResolverError>>>)
        ensures
            resolve_program(old(self)@, stmts_view(statements@)) === match r {
                Some(Ok(map)) => Some((final(self)@, Ok(map@))),
                Some(Err(es)) => Some((final(self)@, Err(resolver_errors_view(es@)))),
                None => None,
            },
    {
        self.scopes.clear();
        assert(self@.scopes =~= Seq::<Map<Seq<char>, bool>>::empty());
        match self.resolve_stmts(statements) {
            None => None,
            Some(Err(es)) => Some(Err(es)),
            Some(Ok(())) => {
                let mut map = ResolutionMap::new();
                std::mem::swap(&mut map, &mut self.resolution_map);
                Some(Ok(map))
            },
        }
    }

    /// Resolves a program that resolution handles: empties the scopes, then
    /// resolves the statements; hands out the distances found when no error
    /// was found.
    pub fn resolve(&mut self, statements: &[Stmt]) -> (r: Result<ResolutionMap, Vec<ResolverError>>)
        requires
            resolve_program(old(self)@, stmts_view(statements@)) is Some,
        ensures
            resolve_program(old(self)@, stmts_view(statements@)) === Some((final(self)@, match r {
                Ok(map) => Ok(map@),
                Err(es) => Err(resolver_errors_view(es@)),
            })),
    {
        let r = self.try_resolve(statements);
        r.unwrap()
    }
}

impl Default for Resolver {
    fn default() -> (r: Resolver)
        ensures
            r@ == initial_resolver(),
    {
        Resolver::new()
    }
}

/// Resolution of the variables of a program.
pub trait Resolve: Sized {
    /// The statements to resolve.
    spec fn statements(&self) -> Seq<StmtView>;

    /// The statements, and for each resolved use of a local variable the
    /// number of scopes to its declaration; or all the errors found.
    fn resolve(self) -> (r: Result<(Vec<Stmt>, ResolutionMap), Vec<ResolverError>>)
        requires
            resolve_program(initial_resolver(), self.statements()) is Some,
        ensures
            match r {
                Ok((statements, map)) => {
                    &&& stmts_view(statements@) == self.statements()
                    &&& resolve_program(initial_resolver(), self.statements()) matches Some((_, Ok(d)))
                    &&& map@ == d
                },
                Err(es) => {
                    &&& resolve_program(initial_resolver(), self.statements()) matches Some((_, Err(e)))
                    &&& resolver_errors_view(es@) == e
                },
            },
    ;
}

impl Resolve for Vec<Stmt> {
    open spec fn statements(&self) -> Seq<StmtView> {
        stmts_view(self@)
    }

    fn resolve(self) -> (r: Result<(Vec<Stmt>, ResolutionMap), Vec<ResolverError>>) {
        let mut resolver = Resolver::new();
        match resolver.resolve(self.as_slice()) {
            Ok(map) => Ok((self, map)),
            Err(es) => Err(es),
        }
    }
}

/// The distance recorded for a local variable leads to the innermost scope
/// that declares the name: that scope holds it and no scope within it does.
/// A name that no scope declares is global, and gets no distance.
pub proof fn law_distance_is_to_innermost_declaration(scopes: Seq<Map<Seq<char>, bool>>, name: Seq<char>)
    ensures
        match distance_from(scopes, name, 0) {
            Some(d) => {
                &&& d < scopes.len()
                &&& scopes[scopes.len() - 1 - d].dom().contains(name)
                &&& forall|k: int| 0 <= k < d ==> !(#[trigger] scopes[scopes.len() - 1 - k]).dom().contains(name)
            },
            None => forall|k: int| 0 <= k < scopes.len() ==> !(#[trigger] scopes[k]).dom().contains(name),
        },
{
    lemma_distance_from(scopes, name, 0);
    if distance_from(scopes, name, 0) is None {
        assert forall|k: int| 0 <= k < scopes.len() implies !(#[trigger] scopes[k]).dom().contains(name) by {
            let j = scopes.len() - 1 - k;
            assert(scopes[scopes.len() - 1 - j] == scopes[k]);
        }
    }
}

/// What `distance_from` finds from `d` scopes out.
proof fn lemma_distance_from(scopes: Seq<Map<Seq<char>, bool>>, name: Seq<char>, d: nat)
    ensures
        match distance_from(scopes, name, d) {
            Some(e) => {
                &&& d <= e < scopes.len()
                &&& scopes[scopes.len() - 1 - e].dom().contains(name)
                &&& forall|k: int| d <= k < e ==> !(#[trigger] scopes[scopes.len() - 1 - k]).dom().contains(name)
            },
            None => forall|k: int| d <= k < scopes.len() ==> !(#[trigger] scopes[scopes.len() - 1 - k]).dom().contains(name),
        },
    decreases scopes.len() - d,
{
    if d < scopes.len() && !scopes[scopes.len() - 1 - d].dom().contains(name) {
        lemma_distance_from(scopes, name, d + 1);
    }
}

/// Resolving an expression leaves the scopes, and whether a function is
/// being resolved, as they were: it only records distances.
pub proof fn law_expression_resolution_keeps_scopes(r: ResolverView, e: ExprView)
    ensures
        resolve_expr(r, e) matches Some((r1, _)) ==> r1.scopes == r.scopes && r1.in_function == r.in_function,
    decreases e,
{
    match e {
        ExprView::Assign { name, value } => law_expression_resolution_keeps_scopes(r, *value),
        ExprView::Binary { left, operator, right } => {
            law_expression_resolution_keeps_scopes(r, *left);
            if let Some((r1, Ok(_))) = resolve_expr(r, *left) {
                law_expression_resolution_keeps_scopes(r1, *right);
            }
        },
        ExprView::Call { callee, paren, arguments } => {
            law_expression_resolution_keeps_scopes(r, *callee);
            if let Some((r1, Ok(_))) = resolve_expr(r, *callee) {
                lemma_expressions_resolution_keeps_scopes(r1, arguments);
            }
        },
        ExprView::Grouping { expression } => law_expression_resolution_keeps_scopes(r, *expression),
        ExprView::Logical { left, operator, right } => {
            law_expression_resolution_keeps_scopes(r, *left);
            if let Some((r1, Ok(_))) = resolve_expr(r, *left) {
                law_expression_resolution_keeps_scopes(r1, *right);
            }
        },
        ExprView::Unary { operator, right } => law_expression_resolution_keeps_scopes(r, *right),
        _ => {},
    }
}

/// Resolving expressions in order leaves the scopes as they were.
proof fn lemma_expressions_resolution_keeps_scopes(r: ResolverView, es: Seq<ExprView>)
    ensures
        resolve_exprs(r, es) matches Some((r1, _)) ==> r1.scopes == r.scopes && r1.in_function == r.in_function,
    decreases es,
{
    if es.len() > 0 {
        law_expression_resolution_keeps_scopes(r, es[0]);
        if let Some((r1, Ok(_))) = resolve_expr(r, es[0]) {
            lemma_expressions_resolution_keeps_scopes(r1, es.drop_first());
        }
    }
}

/// An expression that resolution rejects has at least one error.
proof fn lemma_expression_errors_nonempty(r: ResolverView, e: ExprView)
    ensures
        resolve_expr(r, e) matches Some((_, Err(es))) ==> es.len() > 0,
    decreases e,
{
    match e {
        ExprView::Assign { name, value } => lemma_expression_errors_nonempty(r, *value),
        ExprView::Binary { left, operator, right } => {
            lemma_expression_errors_nonempty(r, *left);
            if let Some((r1, Ok(_))) = resolve_expr(r, *left) {
                lemma_expression_errors_nonempty(r1, *right);
            }
        },
        ExprView::Call { callee, paren, arguments } => {
            lemma_expression_errors_nonempty(r, *callee);
            if let Some((r1, Ok(_))) = resolve_expr(r, *callee) {
                lemma_expressions_errors_nonempty(r1, arguments);
            }
        },
        ExprView::Grouping { expression } => lemma_expression_errors_nonempty(r, *expression),
        ExprView::Logical { left, operator, right } => {
            lemma_expression_errors_nonempty(r, *left);
            if let Some((r1, Ok(_))) = resolve_expr(r, *left) {
                lemma_expression_errors_nonempty(r1, *right);
            }
        },
        ExprView::Unary { operator, right } => lemma_expression_errors_nonempty(r, *right),
        _ => {},
    }
}

/// Expressions that resolution rejects have at least one error.
proof fn lemma_expressions_errors_nonempty(r: ResolverView, es: Seq<ExprView>)
    ensures
        resolve_exprs(r, es) matches Some((_, Err(errors))) ==> errors.len() > 0,
    decreases es,
{
    if es.len() > 0 {
        lemma_expression_errors_nonempty(r, es[0]);
        if let Some((r1, Ok(_))) = resolve_expr(r, es[0]) {
            lemma_expressions_errors_nonempty(r1, es.drop_first());
        }
    }
}

/// Declaring and defining parameters leaves the number of scopes as it was.
proof fn lemma_parameters_keep_depth(r: ResolverView, ps: Seq<TokenView>)
    ensures
        resolve_parameters(r, ps).0.scopes.len() == r.scopes.len(),
        resolve_parameters(r, ps).0.in_function == r.in_function,
    decreases ps.len(),
{
    if ps.len() > 0 {
        let (r1, d) = declare(r, ps[0]);
        if d is Ok {
            lemma_parameters_keep_depth(define(r1, ps[0]), ps.drop_first());
        }
    }
}

/// A statement that resolution accepts leaves as many scopes as it found,
/// and whether a function is being resolved: every scope that a block or a
/// function opens is closed again. A statement that it rejects has at least
/// one error.
pub proof fn law_statement_resolution_keeps_depth(r: ResolverView, s: StmtView)
    ensures
        resolve_stmt(r, s) matches Some((r1, Ok(_))) ==> r1.scopes.len() == r.scopes.len() && r1.in_function == r.in_function,
        resolve_stmt(r, s) matches Some((_, Err(es))) ==> es.len() > 0,
    decreases s, 1nat,
{
    match s {
        StmtView::Block { statements } => {
            lemma_statements_keep_depth(begin_scope(r), statements);
        },
        StmtView::Class { name, superclass, methods } => {},
        StmtView::Expression { expression } => {
            law_expression_resolution_keeps_scopes(r, expression);
            lemma_expression_errors_nonempty(r, expression);
        },
        StmtView::Function { function } => {
            let (r1, d) = declare(r, function.name);
            if d is Ok {
                lemma_function_keeps_depth(define(r1, function.name), function);
            }
        },
        StmtView::If { condition, then_branch, else_branch } => {
            law_expression_resolution_keeps_scopes(r, condition);
            lemma_expression_errors_nonempty(r, condition);
            if let Some((r1, Ok(_))) = resolve_expr(r, condition) {
                law_statement_resolution_keeps_depth(r1, *then_branch);
                if let Some((r2, Ok(_))) = resolve_stmt(r1, *then_branch) {
                    if let Some(b) = else_branch {
                        law_statement_resolution_keeps_depth(r2, *b);
                    }
                }
            }
        },
        StmtView::Print { expression } => {
            law_expression_resolution_keeps_scopes(r, expression);
            lemma_expression_errors_nonempty(r, expression);
        },
        StmtView::Return { keyword, value } => {
            if let Some(v) = value {
                law_expression_resolution_keeps_scopes(r, v);
                lemma_expression_errors_nonempty(r, v);
            }
        },
        StmtView::Var { name, initializer } => {
            let (r1, d) = declare(r, name);
            if let Some(init) = initializer {
                law_expression_resolution_keeps_scopes(r1, init);
                lemma_expression_errors_nonempty(r1, init);
            }
        },
        StmtView::While { condition, body } => {
            law_expression_resolution_keeps_scopes(r, condition);
            lemma_expression_errors_nonempty(r, condition);
            if let Some((r1, Ok(_))) = resolve_expr(r, condition) {
                law_statement_resolution_keeps_depth(r1, *body);
            }
        },
    }
}

/// Statements that resolution accepts leave as many scopes as they found;
/// statements that it rejects have at least one error.
proof fn lemma_statements_keep_depth(r: ResolverView, ss: Seq<StmtView>)
    ensures
        resolve_stmts(r, ss) matches Some((r1, Ok(_))) ==> r1.scopes.len() == r.scopes.len() && r1.in_function == r.in_function,
        resolve_stmts(r, ss) matches Some((_, Err(es))) ==> es.len() > 0,
    decreases ss, 0nat,
{
    if ss.len() > 0 {
        law_statement_resolution_keeps_depth(r, ss[0]);
        if let Some((r1, res1)) = resolve_stmt(r, ss[0]) {
            lemma_statements_keep_depth(r1, ss.drop_first());
            if let Some((r2, res2)) = resolve_stmts(r1, ss.drop_first()) {
                if errors_in(res1).len() + errors_in(res2).len() == 0 {
                    assert(res1 is Ok);
                    assert(res2 is Ok);
                }
            }
        }
    }
}

/// A function that resolution accepts leaves as many scopes as it found;
/// one that it rejects has at least one error.
proof fn lemma_function_keeps_depth(r: ResolverView, f: FunctionView)
    ensures
        resolve_function(r, f) matches Some((r1, Ok(_))) ==> r1.scopes.len() == r.scopes.len() && r1.in_function == r.in_function,
        resolve_function(r, f) matches Some((_, Err(es))) ==> es.len() > 0,
    decreases f, 0nat,
{
    let inner = ResolverView { scopes: r.scopes.push(Map::empty()), distances: r.distances, in_function: true };
    lemma_parameters_keep_depth(inner, f.parameters);
    let (r1, p) = resolve_parameters(inner, f.parameters);
    if p is Ok {
        lemma_statements_keep_depth(r1, f.body);
    }
}

/// A program that resolution accepts leaves no scope open: it starts with
/// none, and every block and function closes the scope it opens.
pub proof fn law_program_resolution_closes_all_scopes(r: ResolverView, ss: Seq<StmtView>)
    ensures
        resolve_program(r, ss) matches Some((r1, Ok(_))) ==> r1.scopes.len() == 0,
{
    let cleared = ResolverView { scopes: Seq::empty(), distances: r.distances, in_function: r.in_function };
    lemma_statements_keep_depth(cleared, ss);
}

/// A while loop is resolved as a conditional statement with the same
/// condition and the loop's body as its branch: its condition first, then
/// its body, whose uses of local variables get their distances as in any
/// other statement.
pub proof fn law_loop_body_is_resolved_like_a_branch(r: ResolverView, condition: ExprView, body: StmtView)
    ensures
        resolve_stmt(r, StmtView::While { condition, body: Box::new(body) })
            == resolve_stmt(r, StmtView::If { condition, then_branch: Box::new(body), else_branch: None }),
{
    let w = resolve_stmt(r, StmtView::While { condition, body: Box::new(body) });
    let f = resolve_stmt(r, StmtView::If { condition, then_branch: Box::new(body), else_branch: None });
    match resolve_expr(r, condition) {
        Some((r1, Ok(_))) => {
            assert(w == resolve_stmt(r1, body));
            match resolve_stmt(r1, body) {
                Some((r2, Ok(u))) => {
                    assert(u == ());
                    assert(f == Some((r2, Ok::<(), Seq<ResolverErrorView>>(()))));
                },
                other => assert(f == other),
            }
        },
        other => {
            assert(w == other);
            assert(f == other);
        },
    }
}

/// After a condition that resolution accepts, resolving a while loop is
/// resolving its condition as an expression statement and then its body.
pub proof fn law_loop_resolves_condition_then_body(r: ResolverView, condition: ExprView, body: StmtView)
    requires
        resolve_expr(r, condition) matches Some((_, Ok(_))),
    ensures
        resolve_stmt(r, StmtView::While { condition, body: Box::new(body) })
            == resolve_stmts(r, seq![StmtView::Expression { expression: condition }, body]),
{
    let (r1, c) = resolve_expr(r, condition)->Some_0;
    assert(c->Ok_0 == ());
    let ss = seq![StmtView::Expression { expression: condition }, body];
    let one = seq![body];
    assert(ss[0] == StmtView::Expression { expression: condition });
    assert(ss.drop_first() =~= one);
    assert(one[0] == body);
    assert(one.drop_first() =~= Seq::<StmtView>::empty());
    assert(resolve_stmt(r, ss[0]) == Some((r1, Ok::<(), Seq<ResolverErrorView>>(()))));
    law_statement_resolution_keeps_depth(r1, body);
    match resolve_stmt(r1, body) {
        None => {
            assert(resolve_stmts(r1, one) is None);
        },
        Some((r2, res2)) => {
            assert(resolve_stmts(r2, Seq::<StmtView>::empty()) == Some((r2, Ok::<(), Seq<ResolverErrorView>>(()))));
            assert(errors_in(res2) + errors_in(Ok::<(), Seq<ResolverErrorView>>(())) =~= errors_in(res2));
            assert(resolve_stmts(r1, one) == outcome(r2, errors_in(res2)));
            match res2 {
                Ok(u) => assert(u == ()),
                Err(es) => assert(es.len() > 0),
            }
            assert(outcome(r2, errors_in(res2)) == Some((r2, res2)));
            assert(errors_in(Ok::<(), Seq<ResolverErrorView>>(())) + errors_in(res2) =~= errors_in(res2));
            assert(resolve_stmts(r, ss) == outcome(r2, errors_in(res2)));
        },
    }
}

} // verus!
