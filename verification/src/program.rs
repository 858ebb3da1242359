//! A program ready to run: its statements and the resolution of its local
//! variables.
use crate::parse::errors_view;
use crate::chars::byte_len;
use crate::grammar::spec_parse;
use crate::parse::Parse;
use crate::resolver::{
    initial_resolver, resolve_program, resolver_errors_view, ResolutionMap, Resolver, ResolverError,
    ResolverErrorView,
};
use crate::tokenize::{spec_tokenize, Tokenize};
use crate::stmt::{lemma_stmts_view_push, stmts_view, Stmt, StmtView};
use crate::syntax::{SyntaxError, SyntaxErrorView};
use crate::tokenize::{LexingError, LexingErrorView};
use vstd::prelude::*;

verus! {

/// An error found before a program can run.
#[derive(Debug, Clone, PartialEq)]
pub enum ProgramError {
    LexingError(LexingError),
    SyntaxError(SyntaxError),
    ResolverError(ResolverError),
}

/// The mathematical view of a [`ProgramError`].
pub enum ProgramErrorView {
    LexingError(LexingErrorView),
    SyntaxError(SyntaxErrorView),
    ResolverError(ResolverErrorView),
}

impl View for ProgramError {
    type V = ProgramErrorView;

    open spec fn view(&self) -> ProgramErrorView {
        match self {
            ProgramError::LexingError(e) => ProgramErrorView::LexingError(e@),
            ProgramError::SyntaxError(e) => ProgramErrorView::SyntaxError(e@),
            ProgramError::ResolverError(e) => ProgramErrorView::ResolverError(e@),
        }
    }
}

/// The views of program errors.
pub open spec fn program_errors_view(errors: Seq<ProgramError>) -> Seq<ProgramErrorView> {
    errors.map_values(|e: ProgramError| e@)
}

/// The statements of a program and the distances of its local variables.
#[derive(Debug, PartialEq)]
pub struct Program {
    pub statements: Vec<Stmt>,
    pub resolution_map: ResolutionMap,
}

impl Program {
    pub fn new(statements: Vec<Stmt>, resolution_map: ResolutionMap) -> (program: Program)
        ensures
            program.statements == statements,
            program.resolution_map == resolution_map,
    {
        Program { statements, resolution_map }
    }

    pub fn statements(&self) -> (statements: &[Stmt])
        ensures
            statements@ == self.statements@,
    {
        self.statements.as_slice()
    }

    pub fn resolution_map(&self) -> (map: &ResolutionMap)
        ensures
            map == &self.resolution_map,
    {
        &self.resolution_map
    }

    /// Appends a statement.
    pub fn add_stmt(&mut self, stmt: Stmt)
        ensures
            stmts_view(final(self).statements@) == stmts_view(old(self).statements@).push(stmt@),
            final(self).resolution_map == old(self).resolution_map,
    {
        proof {
            lemma_stmts_view_push(self.statements@, stmt);
        }
        self.statements.push(stmt);
    }
}

/// Turning the outcome of resolution into a program.
pub trait IntoProgram: Sized {
    /// The statements of the program, when there is no error.
    spec fn program_statements(&self) -> Option<Seq<StmtView>>;

    /// The errors, as program errors, when there are some.
    spec fn program_errors(&self) -> Seq<ProgramErrorView>;

    fn into_program(self) -> (r: Result<Program, Vec<ProgramError>>)
        ensures
            match r {
                Ok(p) => self.program_statements() == Some(stmts_view(p.statements@)),
                Err(es) => self.program_statements() is None && program_errors_view(es@) == self.program_errors(),
            },
    ;
}

impl IntoProgram for (Vec<Stmt>, ResolutionMap) {
    open spec fn program_statements(&self) -> Option<Seq<StmtView>> {
        Some(stmts_view(self.0@))
    }

    open spec fn program_errors(&self) -> Seq<ProgramErrorView> {
        Seq::empty()
    }

    fn into_program(self) -> (r: Result<Program, Vec<ProgramError>>) {
        Ok(Program::new(self.0, self.1))
    }
}

impl IntoProgram for Result<(Vec<Stmt>, ResolutionMap), Vec<ResolverError>> {
    open spec fn program_statements(&self) -> Option<Seq<StmtView>> {
        match self {
            Ok((statements, _)) => Some(stmts_view(statements@)),
            Err(_) => None,
        }
    }

    open spec fn program_errors(&self) -> Seq<ProgramErrorView> {
        match self {
            Ok(_) => Seq::empty(),
            Err(es) => resolver_errors_view(es@).map_values(|e: ResolverErrorView| ProgramErrorView::ResolverError(e)),
        }
    }

    fn into_program(self) -> (r: Result<Program, Vec<ProgramError>>) {
        match self {
            Ok((statements, map)) => Ok(Program::new(statements, map)),
            Err(errors) => {
                let mut result: Vec<ProgramError> = Vec::new();
                for e in it: errors.into_iter()
                    invariant
                        program_errors_view(result@) == resolver_errors_view(it.seq().take(it.index() as int))
                            .map_values(|e: ResolverErrorView| ProgramErrorView::ResolverError(e)),
                {
                    let ghost k = it.index() as int;
                    proof {
                        assert(it.seq().take(k + 1) =~= it.seq().take(k).push(e));
                        assert(program_errors_view(result@.push(ProgramError::ResolverError(e)))
                            =~= program_errors_view(result@).push(ProgramErrorView::ResolverError(e@)));
                        assert(resolver_errors_view(it.seq().take(k).push(e)).map_values(|e: ResolverErrorView| ProgramErrorView::ResolverError(e))
                            =~= resolver_errors_view(it.seq().take(k)).map_values(|e: ResolverErrorView| ProgramErrorView::ResolverError(e)).push(ProgramErrorView::ResolverError(e@)));
                    }
                    result.push(ProgramError::ResolverError(e));
                }
                proof {
                    assert(errors@.take(errors@.len() as int) =~= errors@);
                }
                Err(result)
            },
        }
    }
}

impl IntoProgram for Result<(Vec<Stmt>, ResolutionMap), Vec<ProgramError>> {
    open spec fn program_statements(&self) -> Option<Seq<StmtView>> {
        match self {
            Ok((statements, _)) => Some(stmts_view(statements@)),
            Err(_) => None,
        }
    }

    open spec fn program_errors(&self) -> Seq<ProgramErrorView> {
        match self {
            Ok(_) => Seq::empty(),
            Err(es) => program_errors_view(es@),
        }
    }

    fn into_program(self) -> (r: Result<Program, Vec<ProgramError>>) {
        match self {
            Ok((statements, map)) => Ok(Program::new(statements, map)),
            Err(errors) => Err(errors),
        }
    }
}

/// The syntax errors of a program, as program errors.
fn syntax_program_errors(errors: Vec<SyntaxError>) -> (result: Vec<ProgramError>)
    ensures
        program_errors_view(result@) == errors_view(errors@).map_values(|e: SyntaxErrorView| ProgramErrorView::SyntaxError(e)),
{
    let mut result: Vec<ProgramError> = Vec::new();
    for e in it: errors.into_iter()
        invariant
            program_errors_view(result@) == errors_view(it.seq().take(it.index() as int))
                .map_values(|e: SyntaxErrorView| ProgramErrorView::SyntaxError(e)),
    {
        let ghost k = it.index() as int;
        proof {
            assert(it.seq().take(k + 1) =~= it.seq().take(k).push(e));
            assert(program_errors_view(result@.push(ProgramError::SyntaxError(e)))
                =~= program_errors_view(result@).push(ProgramErrorView::SyntaxError(e@)));
            assert(errors_view(it.seq().take(k).push(e)).map_values(|e: SyntaxErrorView| ProgramErrorView::SyntaxError(e))
                =~= errors_view(it.seq().take(k)).map_values(|e: SyntaxErrorView| ProgramErrorView::SyntaxError(e)).push(ProgramErrorView::SyntaxError(e@)));
        }
        result.push(ProgramError::SyntaxError(e));
    }
    proof {
        assert(errors@.take(errors@.len() as int) =~= errors@);
    }
    result
}

/// What compiling a source code gives: the statements of the program when it
/// parses and resolves, else its syntax errors, else its resolution errors;
/// nothing when resolution meets what it does not handle.
pub open spec fn spec_program_of(source: Seq<char>) -> Option<Result<Seq<StmtView>, Seq<ProgramErrorView>>> {
    match spec_parse(spec_tokenize(source)) {
        Err(errors) => Some(Err(errors.map_values(|e: SyntaxErrorView| ProgramErrorView::SyntaxError(e)))),
        Ok(statements) => match resolve_program(initial_resolver(), statements) {
            None => None,
            Some((_, Ok(_))) => Some(Ok(statements)),
            Some((_, Err(errors))) => Some(Err(errors.map_values(|e: ResolverErrorView| ProgramErrorView::ResolverError(e)))),
        },
    }
}

/// Compiles a source code: lexes and parses it, then resolves its local
/// variables.
pub fn program_of(source_code: &str) -> (r: Option<Result<Program, Vec<ProgramError>>>)
    requires
        byte_len(source_code@) <= usize::MAX,
    ensures
        spec_program_of(source_code@) == match r {
            Some(Ok(p)) => Some(Ok(stmts_view(p.statements@))),
            Some(Err(es)) => Some(Err(program_errors_view(es@))),
            None => None::<Result<Seq<StmtView>, Seq<ProgramErrorView>>>,
        },
        r matches Some(Ok(p)) ==> resolve_program(initial_resolver(), stmts_view(p.statements@))
            matches Some((_, Ok(d))) && p.resolution_map@ == d,
{
    let tokens = source_code.tokenize();
    match tokens.parse() {
        Err(errors) => Some(Err(syntax_program_errors(errors))),
        Ok(statements) => {
            let mut resolver = Resolver::new();
            match resolver.try_resolve(statements.as_slice()) {
                None => None,
                Some(Ok(map)) => Some(Ok(Program::new(statements, map))),
                Some(Err(errors)) => {
                    let r: Result<(Vec<Stmt>, ResolutionMap), Vec<ResolverError>> = Err(errors);
                    match r.into_program() {
                        Ok(p) => Some(Ok(p)),
                        Err(es) => Some(Err(es)),
                    }
                },
            }
        },
    }
}

} // verus!
