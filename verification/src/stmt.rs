//! The statements of Lox.
use crate::expr::{expr_view, Expr, ExprView, Variable};
use crate::token::{Token, TokenView};
use vstd::prelude::*;

verus! {

/// A statement.
#[derive(Debug, PartialEq)]
pub enum Stmt {
    Block(Block),
    Class(Class),
    Expression(Expression),
    Function(Function),
    If(If),
    Print(Print),
    Return(Return),
    Var(Var),
    While(While),
}

/// A block: statements in a scope of their own.
#[derive(Debug, PartialEq)]
pub struct Block {
    pub statements: Vec<Stmt>,
}

/// A class declaration with its optional superclass and its methods.
#[derive(Debug, PartialEq)]
pub struct Class {
    pub name: Token,
    pub superclass: Option<Variable>,
    pub methods: Vec<Function>,
}

/// An expression evaluated for its effect.
#[derive(Debug, PartialEq)]
pub struct Expression {
    pub expression: Expr,
}

/// A function declaration.
#[derive(Debug, PartialEq)]
pub struct Function {
    pub name: Token,
    pub parameters: Vec<Token>,
    pub body: Vec<Stmt>,
}

/// A conditional statement.
#[derive(Debug, PartialEq)]
pub struct If {
    pub condition: Expr,
    pub then_branch: Box<Stmt>,
    pub else_branch: Option<Box<Stmt>>,
}

/// Printing the value of an expression.
#[derive(Debug, PartialEq)]
pub struct Print {
    pub expression: Expr,
}

/// Returning from a function, with an optional value.
#[derive(Debug, PartialEq)]
pub struct Return {
    pub keyword: Token,
    pub value: Option<Expr>,
}

/// A variable declaration with an optional initializer.
#[derive(Debug, PartialEq)]
pub struct Var {
    pub name: Token,
    pub initializer: Option<Expr>,
}

/// A loop that runs its body while the condition holds.
#[derive(Debug, PartialEq)]
pub struct While {
    pub condition: Expr,
    pub body: Box<Stmt>,
}

/// The mathematical view of a function declaration.
pub struct FunctionView {
    pub name: TokenView,
    pub parameters: Seq<TokenView>,
    pub body: Seq<StmtView>,
}

/// The mathematical view of a statement. A superclass is given by the name
/// of the variable that denotes it.
pub enum StmtView {
    Block { statements: Seq<StmtView> },
    Class { name: TokenView, superclass: Option<TokenView>, methods: Seq<FunctionView> },
    Expression { expression: ExprView },
    Function { function: FunctionView },
    If { condition: ExprView, then_branch: Box<StmtView>, else_branch: Option<Box<StmtView>> },
    Print { expression: ExprView },
    Return { keyword: TokenView, value: Option<ExprView> },
    Var { name: TokenView, initializer: Option<ExprView> },
    While { condition: ExprView, body: Box<StmtView> },
}

/// The view of an optional expression.
pub open spec fn opt_expr_view(e: Option<Expr>) -> Option<ExprView> {
    match e {
        Some(e) => Some(expr_view(e)),
        None => None,
    }
}

/// The views of a sequence of tokens.
pub open spec fn tokens_view(ts: Seq<Token>) -> Seq<TokenView> {
    ts.map_values(|t: Token| t@)
}

/// The view of a statement.
pub open spec fn stmt_view(s: Stmt) -> StmtView
    decreases s,
{
    match s {
        Stmt::Block(b) => StmtView::Block { statements: stmts_view(b.statements@) },
        Stmt::Class(c) => StmtView::Class {
            name: c.name@,
            superclass: match c.superclass {
                Some(v) => Some(v.name@),
                None => None,
            },
            methods: functions_view(c.methods@),
        },
        Stmt::Expression(e) => StmtView::Expression { expression: expr_view(e.expression) },
        Stmt::Function(f) => StmtView::Function { function: function_view(f) },
        Stmt::If(i) => StmtView::If {
            condition: expr_view(i.condition),
            then_branch: Box::new(stmt_view(*i.then_branch)),
            else_branch: match i.else_branch {
                Some(b) => Some(Box::new(stmt_view(*b))),
                None => None,
            },
        },
        Stmt::Print(p) => StmtView::Print { expression: expr_view(p.expression) },
        Stmt::Return(r) => StmtView::Return { keyword: r.keyword@, value: opt_expr_view(r.value) },
        Stmt::Var(v) => StmtView::Var { name: v.name@, initializer: opt_expr_view(v.initializer) },
        Stmt::While(w) => StmtView::While {
            condition: expr_view(w.condition),
            body: Box::new(stmt_view(*w.body)),
        },
    }
}

/// The views of a sequence of statements.
pub open spec fn stmts_view(ss: Seq<Stmt>) -> Seq<StmtView>
    decreases ss,
{
    if ss.len() == 0 {
        Seq::empty()
    } else {
        seq![stmt_view(ss[0])] + stmts_view(ss.drop_first())
    }
}

/// The view of a function declaration.
pub open spec fn function_view(f: Function) -> FunctionView
    decreases f,
{
    FunctionView { name: f.name@, parameters: tokens_view(f.parameters@), body: stmts_view(f.body@) }
}

/// The views of a sequence of function declarations.
pub open spec fn functions_view(fs: Seq<Function>) -> Seq<FunctionView>
    decreases fs,
{
    if fs.len() == 0 {
        Seq::empty()
    } else {
        seq![function_view(fs[0])] + functions_view(fs.drop_first())
    }
}

impl View for Stmt {
    type V = StmtView;

    open spec fn view(&self) -> StmtView {
        stmt_view(*self)
    }
}

impl View for Function {
    type V = FunctionView;

    open spec fn view(&self) -> FunctionView {
        function_view(*self)
    }
}

impl Block {
    pub fn new(statements: Vec<Stmt>) -> (b: Block)
        ensures
            b.statements == statements,
    {
        Block { statements }
    }

    pub fn statements(&self) -> (statements: &[Stmt])
        ensures
            statements@ == self.statements@,
    {
        self.statements.as_slice()
    }
}

impl Class {
    pub fn new(name: Token, superclass: Option<Variable>, methods: Vec<Function>) -> (c: Class)
        ensures
            c.name == name,
            c.superclass == superclass,
            c.methods == methods,
    {
        Class { name, superclass, methods }
    }

    pub fn name(&self) -> (name: &Token)
        ensures
            name == &self.name,
    {
        &self.name
    }

    pub fn superclass(&self) -> (superclass: Option<&Variable>)
        ensures
            superclass == match &self.superclass {
                Some(v) => Some(v),
                None => None::<&Variable>,
            },
    {
        match &self.superclass {
            Some(v) => Some(v),
            None => None,
        }
    }

    pub fn methods(&self) -> (methods: &[Function])
        ensures
            methods@ == self.methods@,
    {
        self.methods.as_slice()
    }
}

impl Expression {
    pub fn new(expression: Expr) -> (e: Expression)
        ensures
            e.expression == expression,
    {
        Expression { expression }
    }

    pub fn expression(&self) -> (expression: &Expr)
        ensures
            expression == &self.expression,
    {
        &self.expression
    }
}

impl Function {
    pub fn new(name: Token, parameters: Vec<Token>, body: Vec<Stmt>) -> (f: Function)
        ensures
            f.name == name,
            f.parameters == parameters,
            f.body == body,
    {
        Function { name, parameters, body }
    }

    pub fn name(&self) -> (name: &Token)
        ensures
            name == &self.name,
    {
        &self.name
    }

    pub fn parameters(&self) -> (parameters: &[Token])
        ensures
            parameters@ == self.parameters@,
    {
        self.parameters.as_slice()
    }

    pub fn body(&self) -> (body: &[Stmt])
        ensures
            body@ == self.body@,
    {
        self.body.as_slice()
    }
}

impl If {
    pub fn new(condition: Expr, then_branch: Stmt, else_branch: Option<Stmt>) -> (i: If)
        ensures
            i.condition == condition,
            *i.then_branch == then_branch,
            match else_branch {
                Some(b) => i.else_branch matches Some(e) && *e == b,
                None => i.else_branch is None,
            },
    {
        let else_branch = match else_branch {
            Some(b) => Some(Box::new(b)),
            None => None,
        };
        If { condition, then_branch: Box::new(then_branch), else_branch }
    }

    pub fn condition(&self) -> (condition: &Expr)
        ensures
            condition == &self.condition,
    {
        &self.condition
    }

    pub fn then_branch(&self) -> (then_branch: &Stmt)
        ensures
            then_branch == &*self.then_branch,
    {
        &self.then_branch
    }

    pub fn else_branch(&self) -> (else_branch: Option<&Stmt>)
        ensures
            match &self.else_branch {
                Some(b) => else_branch == Some(&**b),
                None => else_branch is None,
            },
    {
        match &self.else_branch {
            Some(b) => Some(&**b),
            None => None,
        }
    }
}

impl Print {
    pub fn new(expression: Expr) -> (p: Print)
        ensures
            p.expression == expression,
    {
        Print { expression }
    }

    pub fn expression(&self) -> (expression: &Expr)
        ensures
            expression == &self.expression,
    {
        &self.expression
    }
}

impl Return {
    pub fn new(keyword: Token, value: Option<Expr>) -> (r: Return)
        ensures
            r.keyword == keyword,
            r.value == value,
    {
        Return { keyword, value }
    }

    pub fn keyword(&self) -> (keyword: &Token)
        ensures
            keyword == &self.keyword,
    {
        &self.keyword
    }

    pub fn value(&self) -> (value: Option<&Expr>)
        ensures
            match &self.value {
                Some(v) => value == Some(v),
                None => value is None,
            },
    {
        match &self.value {
            Some(v) => Some(v),
            None => None,
        }
    }
}

impl Var {
    pub fn new(name: Token, initializer: Option<Expr>) -> (v: Var)
        ensures
            v.name == name,
            v.initializer == initializer,
    {
        Var { name, initializer }
    }

    pub fn name(&self) -> (name: &Token)
        ensures
            name == &self.name,
    {
        &self.name
    }

    pub fn initializer(&self) -> (initializer: Option<&Expr>)
        ensures
            match &self.initializer {
                Some(e) => initializer == Some(e),
                None => initializer is None,
            },
    {
        match &self.initializer {
            Some(e) => Some(e),
            None => None,
        }
    }
}

impl While {
    pub fn new(condition: Expr, body: Stmt) -> (w: While)
        ensures
            w.condition == condition,
            *w.body == body,
    {
        While { condition, body: Box::new(body) }
    }

    pub fn condition(&self) -> (condition: &Expr)
        ensures
            condition == &self.condition,
    {
        &self.condition
    }

    pub fn body(&self) -> (body: &Stmt)
        ensures
            body == &*self.body,
    {
        &self.body
    }
}

/// A copy of an optional expression.
fn duplicate_opt_expr(e: &Option<Expr>) -> (copy: Option<Expr>)
    ensures
        opt_expr_view(copy) == opt_expr_view(*e),
{
    match e {
        Some(e) => Some(e.duplicate()),
        None => None,
    }
}

/// A copy of a list of tokens.
fn duplicate_tokens(ts: &Vec<Token>) -> (copy: Vec<Token>)
    ensures
        tokens_view(copy@) == tokens_view(ts@),
{
    let mut copy: Vec<Token> = Vec::new();
    let mut i: usize = 0;
    while i < ts.len()
        invariant
            i <= ts.len(),
            copy@.len() == i,
            forall|j: int| 0 <= j < i ==> (#[trigger] copy@[j])@ == ts@[j]@,
        decreases ts.len() - i,
    {
        copy.push(ts[i].duplicate());
        i = i + 1;
    }
    assert(tokens_view(copy@) =~= tokens_view(ts@));
    copy
}

impl Stmt {
    /// A copy of this statement.
    pub fn duplicate(&self) -> (copy: Stmt)
        ensures
            stmt_view(copy) == stmt_view(*self),
        decreases self, 0nat,
    {
        match self {
            Stmt::Block(b) => {
                let mut statements: Vec<Stmt> = Vec::new();
                let mut i: usize = 0;
                while i < b.statements.len()
                    invariant
                        i <= b.statements.len(),
                        *self == Stmt::Block(*b),
                        statements@.len() == i,
                        forall|j: int| 0 <= j < i ==> stmt_view(#[trigger] statements@[j]) == stmt_view(b.statements@[j]),
                    decreases b.statements.len() - i,
                {
                    proof {
                        assert(decreases_to!(*self => (*self)->Block_0));
                        assert(decreases_to!(*b => b.statements));
                        assert(decreases_to!(b.statements => b.statements@));
                        assert(decreases_to!(b.statements@ => b.statements@[i as int]));
                    }
                    statements.push(b.statements[i].duplicate());
                    i = i + 1;
                }
                proof {
                    lemma_stmts_view(statements@);
                    lemma_stmts_view(b.statements@);
                    assert(stmts_view(statements@) =~= stmts_view(b.statements@));
                }
                Stmt::Block(Block { statements })
            },
            Stmt::Class(c) => {
                let mut methods: Vec<Function> = Vec::new();
                let mut i: usize = 0;
                while i < c.methods.len()
                    invariant
                        i <= c.methods.len(),
                        *self == Stmt::Class(*c),
                        methods@.len() == i,
                        forall|j: int| 0 <= j < i ==> function_view(#[trigger] methods@[j]) == function_view(c.methods@[j]),
                    decreases c.methods.len() - i,
                {
                    proof {
                        assert(decreases_to!(*self => (*self)->Class_0));
                        assert(decreases_to!(*c => c.methods));
                        assert(decreases_to!(c.methods => c.methods@));
                        assert(decreases_to!(c.methods@ => c.methods@[i as int]));
                    }
                    methods.push(c.methods[i].duplicate());
                    i = i + 1;
                }
                proof {
                    lemma_functions_view(methods@);
                    lemma_functions_view(c.methods@);
                    assert(functions_view(methods@) =~= functions_view(c.methods@));
                }
                let superclass = match &c.superclass {
                    Some(v) => Some(Variable { name: v.name.duplicate() }),
                    None => None,
                };
                Stmt::Class(Class { name: c.name.duplicate(), superclass, methods })
            },
            Stmt::Expression(e) => Stmt::Expression(Expression { expression: e.expression.duplicate() }),
            Stmt::Function(f) => {
                proof {
                    assert(decreases_to!(*self => (*self)->Function_0));
                }
                Stmt::Function(f.duplicate())
            },
            Stmt::If(i) => {
                let else_branch = match &i.else_branch {
                    Some(b) => Some(Box::new(b.duplicate())),
                    None => None,
                };
                Stmt::If(If {
                    condition: i.condition.duplicate(),
                    then_branch: Box::new(i.then_branch.duplicate()),
                    else_branch,
                })
            },
            Stmt::Print(p) => Stmt::Print(Print { expression: p.expression.duplicate() }),
            Stmt::Return(r) => Stmt::Return(Return { keyword: r.keyword.duplicate(), value: duplicate_opt_expr(&r.value) }),
            Stmt::Var(v) => Stmt::Var(Var { name: v.name.duplicate(), initializer: duplicate_opt_expr(&v.initializer) }),
            Stmt::While(w) => Stmt::While(While { condition: w.condition.duplicate(), body: Box::new(w.body.duplicate()) }),
        }
    }
}

impl Function {
    /// A copy of this function declaration.
    pub fn duplicate(&self) -> (copy: Function)
        ensures
            function_view(copy) == function_view(*self),
        decreases self, 0nat,
    {
        let mut body: Vec<Stmt> = Vec::new();
        let mut i: usize = 0;
        while i < self.body.len()
            invariant
                i <= self.body.len(),
                body@.len() == i,
                forall|j: int| 0 <= j < i ==> stmt_view(#[trigger] body@[j]) == stmt_view(self.body@[j]),
            decreases self.body.len() - i,
        {
            proof {
                assert(decreases_to!(*self => self.body));
                assert(decreases_to!(self.body => self.body@));
                assert(decreases_to!(self.body@ => self.body@[i as int]));
            }
            body.push(self.body[i].duplicate());
            i = i + 1;
        }
        proof {
            lemma_stmts_view(body@);
            lemma_stmts_view(self.body@);
            assert(stmts_view(body@) =~= stmts_view(self.body@));
        }
        Function { name: self.name.duplicate(), parameters: duplicate_tokens(&self.parameters), body }
    }
}

/// The views of a sequence of statements, element by element.
pub proof fn lemma_stmts_view(ss: Seq<Stmt>)
    ensures
        stmts_view(ss).len() == ss.len(),
        forall|i: int| 0 <= i < ss.len() ==> #[trigger] stmts_view(ss)[i] == stmt_view(ss[i]),
    decreases ss.len(),
{
    if ss.len() > 0 {
        lemma_stmts_view(ss.drop_first());
        assert forall|i: int| 0 <= i < ss.len() implies #[trigger] stmts_view(ss)[i] == stmt_view(ss[i]) by {
            if i > 0 {
                assert(ss.drop_first()[i - 1] == ss[i]);
            }
        }
    }
}

/// Appending a statement appends its view.
pub proof fn lemma_stmts_view_push(ss: Seq<Stmt>, s: Stmt)
    ensures
        stmts_view(ss.push(s)) == stmts_view(ss).push(stmt_view(s)),
{
    lemma_stmts_view(ss);
    lemma_stmts_view(ss.push(s));
    assert(stmts_view(ss.push(s)) =~= stmts_view(ss).push(stmt_view(s)));
}

/// The views of a sequence of functions, element by element.
pub proof fn lemma_functions_view(fs: Seq<Function>)
    ensures
        functions_view(fs).len() == fs.len(),
        forall|i: int| 0 <= i < fs.len() ==> #[trigger] functions_view(fs)[i] == function_view(fs[i]),
    decreases fs.len(),
{
    if fs.len() > 0 {
        lemma_functions_view(fs.drop_first());
        assert forall|i: int| 0 <= i < fs.len() implies #[trigger] functions_view(fs)[i] == function_view(fs[i]) by {
            if i > 0 {
                assert(fs.drop_first()[i - 1] == fs[i]);
            }
        }
    }
}

/// Appending a function appends its view.
pub proof fn lemma_functions_view_push(fs: Seq<Function>, f: Function)
    ensures
        functions_view(fs.push(f)) == functions_view(fs).push(function_view(f)),
{
    lemma_functions_view(fs);
    lemma_functions_view(fs.push(f));
    assert(functions_view(fs.push(f)) =~= functions_view(fs).push(function_view(f)));
}

} // verus!
