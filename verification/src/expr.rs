//! The expressions of Lox.
use crate::token::{Token, TokenView};
use vstd::prelude::*;

verus! {

/// The value of a literal expression. A number is kept as the decimal text
/// that denotes it.
#[derive(Debug, Clone, PartialEq)]
pub enum Literal {
    Nil,
    Bool(bool),
    Number(String),
    String(String),
}

/// The mathematical view of a literal expression.
pub enum LiteralValue {
    Nil,
    Bool(bool),
    Number(Seq<char>),
    String(Seq<char>),
}

impl View for Literal {
    type V = LiteralValue;

    open spec fn view(&self) -> LiteralValue {
        match self {
            Literal::Nil => LiteralValue::Nil,
            Literal::Bool(b) => LiteralValue::Bool(*b),
            Literal::Number(t) => LiteralValue::Number(t@),
            Literal::String(t) => LiteralValue::String(t@),
        }
    }
}

/// An expression.
#[derive(Debug, PartialEq)]
pub enum Expr {
    Assign(Assign),
    Binary(Binary),
    Call(Call),
    Get(Get),
    Grouping(Grouping),
    Literal(Literal),
    Logical(Logical),
    SetProperty(SetProperty),
    Super(Super),
    This(This),
    Unary(Unary),
    Variable(Variable),
}

/// Assignment of a value to a variable.
#[derive(Debug, PartialEq)]
pub struct Assign {
    pub name: Token,
    pub value: Box<Expr>,
}

/// A binary operation.
#[derive(Debug, PartialEq)]
pub struct Binary {
    pub left: Box<Expr>,
    pub operator: Token,
    pub right: Box<Expr>,
}

/// A call; `paren` is the closing parenthesis.
#[derive(Debug, PartialEq)]
pub struct Call {
    pub callee: Box<Expr>,
    pub paren: Token,
    pub arguments: Vec<Expr>,
}

/// Reading a property of an object.
#[derive(Debug, PartialEq)]
pub struct Get {
    pub object: Box<Expr>,
    pub name: Token,
}

/// An expression in parentheses.
#[derive(Debug, PartialEq)]
pub struct Grouping {
    pub expression: Box<Expr>,
}

/// `and` or `or`, which evaluate the right operand only when needed.
#[derive(Debug, PartialEq)]
pub struct Logical {
    pub left: Box<Expr>,
    pub operator: Token,
    pub right: Box<Expr>,
}

/// Writing a property of an object.
#[derive(Debug, PartialEq)]
pub struct SetProperty {
    pub object: Box<Expr>,
    pub name: Token,
    pub value: Box<Expr>,
}

/// A method of the superclass: `super.method`.
#[derive(Debug, PartialEq)]
pub struct Super {
    pub keyword: Token,
    pub method: Token,
}

/// The object of a method: `this`.
#[derive(Debug, PartialEq)]
pub struct This {
    pub keyword: Token,
}

/// A unary operation.
#[derive(Debug, PartialEq)]
pub struct Unary {
    pub operator: Token,
    pub right: Box<Expr>,
}

/// A reference to a variable.
#[derive(Debug, PartialEq)]
pub struct Variable {
    pub name: Token,
}

/// The mathematical view of an expression.
pub enum ExprView {
    Assign { name: TokenView, value: Box<ExprView> },
    Binary { left: Box<ExprView>, operator: TokenView, right: Box<ExprView> },
    Call { callee: Box<ExprView>, paren: TokenView, arguments: Seq<ExprView> },
    Get { object: Box<ExprView>, name: TokenView },
    Grouping { expression: Box<ExprView> },
    Literal { value: LiteralValue },
    Logical { left: Box<ExprView>, operator: TokenView, right: Box<ExprView> },
    SetProperty { object: Box<ExprView>, name: TokenView, value: Box<ExprView> },
    Super { keyword: TokenView, method: TokenView },
    This { keyword: TokenView },
    Unary { operator: TokenView, right: Box<ExprView> },
    Variable { name: TokenView },
}

/// The view of an expression.
pub open spec fn expr_view(e: Expr) -> ExprView
    decreases e,
{
    match e {
        Expr::Assign(a) => ExprView::Assign { name: a.name@, value: Box::new(expr_view(*a.value)) },
        Expr::Binary(b) => ExprView::Binary {
            left: Box::new(expr_view(*b.left)),
            operator: b.operator@,
            right: Box::new(expr_view(*b.right)),
        },
        Expr::Call(c) => ExprView::Call {
            callee: Box::new(expr_view(*c.callee)),
            paren: c.paren@,
            arguments: exprs_view(c.arguments@),
        },
        Expr::Get(g) => ExprView::Get { object: Box::new(expr_view(*g.object)), name: g.name@ },
        Expr::Grouping(g) => ExprView::Grouping { expression: Box::new(expr_view(*g.expression)) },
        Expr::Literal(l) => ExprView::Literal { value: l@ },
        Expr::Logical(l) => ExprView::Logical {
            left: Box::new(expr_view(*l.left)),
            operator: l.operator@,
            right: Box::new(expr_view(*l.right)),
        },
        Expr::SetProperty(s) => ExprView::SetProperty {
            object: Box::new(expr_view(*s.object)),
            name: s.name@,
            value: Box::new(expr_view(*s.value)),
        },
        Expr::Super(s) => ExprView::Super { keyword: s.keyword@, method: s.method@ },
        Expr::This(t) => ExprView::This { keyword: t.keyword@ },
        Expr::Unary(u) => ExprView::Unary { operator: u.operator@, right: Box::new(expr_view(*u.right)) },
        Expr::Variable(v) => ExprView::Variable { name: v.name@ },
    }
}

/// The views of a sequence of expressions.
pub open spec fn exprs_view(es: Seq<Expr>) -> Seq<ExprView>
    decreases es,
{
    if es.len() == 0 {
        Seq::empty()
    } else {
        seq![expr_view(es[0])] + exprs_view(es.drop_first())
    }
}

impl View for Expr {
    type V = ExprView;

    open spec fn view(&self) -> ExprView {
        expr_view(*self)
    }
}

/// The views of a sequence of expressions, element by element.
pub proof fn lemma_exprs_view(es: Seq<Expr>)
    ensures
        exprs_view(es).len() == es.len(),
        forall|i: int| 0 <= i < es.len() ==> #[trigger] exprs_view(es)[i] == expr_view(es[i]),
    decreases es.len(),
{
    if es.len() > 0 {
        lemma_exprs_view(es.drop_first());
        assert forall|i: int| 0 <= i < es.len() implies #[trigger] exprs_view(es)[i] == expr_view(es[i]) by {
            if i > 0 {
                assert(es.drop_first()[i - 1] == es[i]);
            }
        }
    }
}

/// Appending an expression appends its view.
pub proof fn lemma_exprs_view_push(es: Seq<Expr>, e: Expr)
    ensures
        exprs_view(es.push(e)) == exprs_view(es).push(expr_view(e)),
{
    lemma_exprs_view(es);
    lemma_exprs_view(es.push(e));
    assert(exprs_view(es.push(e)) =~= exprs_view(es).push(expr_view(e)));
}

impl Literal {
    /// A copy of this literal.
    pub fn duplicate(&self) -> (copy: Literal)
        ensures
            copy@ == self@,
    {
        match self {
            Literal::Nil => Literal::Nil,
            Literal::Bool(b) => Literal::Bool(*b),
            Literal::Number(text) => Literal::Number(text.clone()),
            Literal::String(text) => Literal::String(text.clone()),
        }
    }
}

impl Expr {
    /// A copy of this expression.
    pub fn duplicate(&self) -> (copy: Expr)
        ensures
            expr_view(copy) == expr_view(*self),
        decreases self,
    {
        match self {
            Expr::Assign(a) => Expr::Assign(Assign { name: a.name.duplicate(), value: Box::new(a.value.duplicate()) }),
            Expr::Binary(b) => Expr::Binary(Binary {
                left: Box::new(b.left.duplicate()),
                operator: b.operator.duplicate(),
                right: Box::new(b.right.duplicate()),
            }),
            Expr::Call(c) => {
                let callee = Box::new(c.callee.duplicate());
                let mut arguments: Vec<Expr> = Vec::new();
                let mut i: usize = 0;
                while i < c.arguments.len()
                    invariant
                        i <= c.arguments.len(),
                        *self == Expr::Call(*c),
                        arguments@.len() == i,
                        forall|j: int| 0 <= j < i ==> expr_view(#[trigger] arguments@[j]) == expr_view(c.arguments@[j]),
                    decreases c.arguments.len() - i,
                {
                    proof {
                        assert(decreases_to!(c.arguments => c.arguments@));
                        assert(decreases_to!(c.arguments@ => c.arguments@[i as int]));
                        assert(decreases_to!(*c => c.arguments));
                        assert(decreases_to!(*self => (*self)->Call_0));
                        assert(decreases_to!(*self => c.arguments@[i as int]));
                    }
                    arguments.push(c.arguments[i].duplicate());
                    i = i + 1;
                }
                proof {
                    lemma_exprs_view(arguments@);
                    lemma_exprs_view(c.arguments@);
                    assert(exprs_view(arguments@) =~= exprs_view(c.arguments@));
                }
                Expr::Call(Call { callee, paren: c.paren.duplicate(), arguments })
            },
            Expr::Get(g) => Expr::Get(Get { object: Box::new(g.object.duplicate()), name: g.name.duplicate() }),
            Expr::Grouping(g) => Expr::Grouping(Grouping { expression: Box::new(g.expression.duplicate()) }),
            Expr::Literal(l) => Expr::Literal(l.duplicate()),
            Expr::Logical(l) => Expr::Logical(Logical {
                left: Box::new(l.left.duplicate()),
                operator: l.operator.duplicate(),
                right: Box::new(l.right.duplicate()),
            }),
            Expr::SetProperty(s) => Expr::SetProperty(SetProperty {
                object: Box::new(s.object.duplicate()),
                name: s.name.duplicate(),
                value: Box::new(s.value.duplicate()),
            }),
            Expr::Super(s) => Expr::Super(Super { keyword: s.keyword.duplicate(), method: s.method.duplicate() }),
            Expr::This(t) => Expr::This(This { keyword: t.keyword.duplicate() }),
            Expr::Unary(u) => Expr::Unary(Unary { operator: u.operator.duplicate(), right: Box::new(u.right.duplicate()) }),
            Expr::Variable(v) => Expr::Variable(Variable { name: v.name.duplicate() }),
        }
    }
}

impl Assign {
    pub fn new(name: Token, value: Expr) -> (a: Assign)
        ensures
            a.name == name,
            *a.value == value,
    {
        Assign { name, value: Box::new(value) }
    }

    pub fn name(&self) -> (name: &Token)
        ensures
            name == &self.name,
    {
        &self.name
    }

    pub fn value(&self) -> (value: &Expr)
        ensures
            value == &*self.value,
    {
        &self.value
    }
}

impl Binary {
    pub fn new(left: Expr, operator: Token, right: Expr) -> (b: Binary)
        ensures
            *b.left == left,
            b.operator == operator,
            *b.right == right,
    {
        Binary { left: Box::new(left), operator, right: Box::new(right) }
    }

    pub fn left(&self) -> (left: &Expr)
        ensures
            left == &*self.left,
    {
        &self.left
    }

    pub fn operator(&self) -> (operator: &Token)
        ensures
            operator == &self.operator,
    {
        &self.operator
    }

    pub fn right(&self) -> (right: &Expr)
        ensures
            right == &*self.right,
    {
        &self.right
    }
}

impl Call {
    pub fn new(callee: Expr, paren: Token, arguments: Vec<Expr>) -> (c: Call)
        ensures
            *c.callee == callee,
            c.paren == paren,
            c.arguments == arguments,
    {
        Call { callee: Box::new(callee), paren, arguments }
    }

    pub fn callee(&self) -> (callee: &Expr)
        ensures
            callee == &*self.callee,
    {
        &self.callee
    }

    pub fn paren(&self) -> (paren: &Token)
        ensures
            paren == &self.paren,
    {
        &self.paren
    }

    pub fn arguments(&self) -> (arguments: &[Expr])
        ensures
            arguments@ == self.arguments@,
    {
        self.arguments.as_slice()
    }
}

impl Get {
    pub fn new(object: Expr, name: Token) -> (g: Get)
        ensures
            *g.object == object,
            g.name == name,
    {
        Get { object: Box::new(object), name }
    }

    pub fn object(&self) -> (object: &Expr)
        ensures
            object == &*self.object,
    {
        &self.object
    }

    pub fn name(&self) -> (name: &Token)
        ensures
            name == &self.name,
    {
        &self.name
    }
}

impl Grouping {
    pub fn new(expression: Expr) -> (g: Grouping)
        ensures
            *g.expression == expression,
    {
        Grouping { expression: Box::new(expression) }
    }

    pub fn expression(&self) -> (expression: &Expr)
        ensures
            expression == &*self.expression,
    {
        &self.expression
    }
}

impl Logical {
    pub fn new(left: Expr, operator: Token, right: Expr) -> (l: Logical)
        ensures
            *l.left == left,
            l.operator == operator,
            *l.right == right,
    {
        Logical { left: Box::new(left), operator, right: Box::new(right) }
    }

    pub fn left(&self) -> (left: &Expr)
        ensures
            left == &*self.left,
    {
        &self.left
    }

    pub fn operator(&self) -> (operator: &Token)
        ensures
            operator == &self.operator,
    {
        &self.operator
    }

    pub fn right(&self) -> (right: &Expr)
        ensures
            right == &*self.right,
    {
        &self.right
    }
}

impl SetProperty {
    pub fn new(object: Expr, name: Token, value: Expr) -> (s: SetProperty)
        ensures
            *s.object == object,
            s.name == name,
            *s.value == value,
    {
        SetProperty { object: Box::new(object), name, value: Box::new(value) }
    }

    pub fn object(&self) -> (object: &Expr)
        ensures
            object == &*self.object,
    {
        &self.object
    }

    pub fn name(&self) -> (name: &Token)
        ensures
            name == &self.name,
    {
        &self.name
    }

    pub fn value(&self) -> (value: &Expr)
        ensures
            value == &*self.value,
    {
        &self.value
    }
}

impl Super {
    pub fn new(keyword: Token, method: Token) -> (s: Super)
        ensures
            s.keyword == keyword,
            s.method == method,
    {
        Super { keyword, method }
    }

    pub fn keyword(&self) -> (keyword: &Token)
        ensures
            keyword == &self.keyword,
    {
        &self.keyword
    }

    pub fn method(&self) -> (method: &Token)
        ensures
            method == &self.method,
    {
        &self.method
    }
}

impl This {
    pub fn new(keyword: Token) -> (t: This)
        ensures
            t.keyword == keyword,
    {
        This { keyword }
    }

    pub fn keyword(&self) -> (keyword: &Token)
        ensures
            keyword == &self.keyword,
    {
        &self.keyword
    }
}

impl Unary {
    pub fn new(operator: Token, right: Expr) -> (u: Unary)
        ensures
            u.operator == operator,
            *u.right == right,
    {
        Unary { operator, right: Box::new(right) }
    }

    pub fn operator(&self) -> (operator: &Token)
        ensures
            operator == &self.operator,
    {
        &self.operator
    }

    pub fn right(&self) -> (right: &Expr)
        ensures
            right == &*self.right,
    {
        &self.right
    }
}

impl Variable {
    pub fn new(name: Token) -> (v: Variable)
        ensures
            v.name == name,
    {
        Variable { name }
    }

    pub fn name(&self) -> (name: &Token)
        ensures
            name == &self.name,
    {
        &self.name
    }

    /// The name of the variable, taking the variable apart.
    pub fn take_name(self) -> (name: Token)
        ensures
            name == self.name,
    {
        self.name
    }
}

} // verus!
