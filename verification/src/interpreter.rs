//! The decisions of the tree-walk interpreter that do not compute with
//! numbers: which operation an operator stands for on the kinds of its
//! operands, which runtime error comes instead, what is truthy, when a
//! logical operator stops early, whether a call has the right number of
//! arguments, and where a variable is read or written.
use crate::environment::{
    ancestor, defined, holder, value_seen, Environment, EnvironmentError, Environments, FrameView,
};
use crate::span::Span;
use crate::text::push_decimal;
use crate::text::spec_decimal;
use crate::token::{Token, TokenKind};
use vstd::prelude::*;

verus! {

/// The name of the method that initialises a new object.
pub const INIT_METHOD: &'static str = "init";

/// The name under which a method reaches the superclass of its class.
pub const SUPER: &'static str = "super";

/// The name under which a method reaches its object.
pub const THIS: &'static str = "this";

/// What goes wrong while a program runs.
#[derive(Debug, Clone, PartialEq, Eq)]
pub enum RuntimeErrorCode {
    AccessingPropertyOnNonObject,
    AccessingSuperOutsideOfObject,
    AssignFieldOnNonObject,
    CallExprOnNonCallable,
    CallWithTooFewArguments { expected: usize, actual: usize },
    CallWithTooManyArguments { expected: usize, actual: usize },
    ClassDoesNotHaveSuperclass(String),
    /// Only an operator that the parser never puts in a binary expression
    /// gives this error.
    NotABinaryOperator,
    /// Only an operator that the parser never puts in a unary expression
    /// gives this error.
    NotAnUnaryOperator,
    OperandNotANumber,
    OperandNotANumberOrString,
    OperandsOfDifferentType,
    SuperclassIsNotAClass,
    UndefinedClass(String),
    UndefinedFunction(String),
    UndefinedProperty(String),
    UndefinedVariable(String),
}

/// The message of a runtime error.
pub open spec fn spec_runtime_message(code: RuntimeErrorCode) -> Seq<char> {
    match code {
        RuntimeErrorCode::AccessingPropertyOnNonObject => "accessing property on a non-object value"@,
        RuntimeErrorCode::AccessingSuperOutsideOfObject => "accessing 'super' outside of an object"@,
        RuntimeErrorCode::AssignFieldOnNonObject => "assigning to field on a non-object value"@,
        RuntimeErrorCode::CallExprOnNonCallable => "can not call a non-callable value"@,
        RuntimeErrorCode::CallWithTooFewArguments { expected, actual } =>
            "call with too few arguments, expected "@ + spec_decimal(expected as nat) + " but got "@
                + spec_decimal(actual as nat),
        RuntimeErrorCode::CallWithTooManyArguments { expected, actual } =>
            "call with too many arguments, expected "@ + spec_decimal(expected as nat) + " but got "@
                + spec_decimal(actual as nat),
        RuntimeErrorCode::ClassDoesNotHaveSuperclass(name) =>
            "the class "@ + name@ + " does not have a superclass"@,
        RuntimeErrorCode::NotABinaryOperator =>
            "not a binary operator where a binary operator like '=', '+', '-', '*' or '/' is expected"@,
        RuntimeErrorCode::NotAnUnaryOperator =>
            "not an unary operator where an unary operator like '!' or '-'  is expected"@,
        RuntimeErrorCode::OperandNotANumber =>
            "operand is not a number but the operator requires all operands to be numbers"@,
        RuntimeErrorCode::OperandNotANumberOrString =>
            "operand is not a number or a string but the operator requires all operands to be either numbers or strings"@,
        RuntimeErrorCode::OperandsOfDifferentType =>
            "operands are of different type but the operator requires all operands to be of the same type"@,
        RuntimeErrorCode::SuperclassIsNotAClass => "superclass must be a class"@,
        RuntimeErrorCode::UndefinedClass(name) => "use of undefined class '"@ + name@ + "'"@,
        RuntimeErrorCode::UndefinedFunction(name) => "call to undefined function '"@ + name@ + "'"@,
        RuntimeErrorCode::UndefinedProperty(name) => "use of undefined property '"@ + name@ + "'"@,
        RuntimeErrorCode::UndefinedVariable(name) => "use of undefined variable '"@ + name@ + "'"@,
    }
}

impl RuntimeErrorCode {
    /// The message that describes this error.
    pub fn message(&self) -> (message: String)
        ensures
            message@ == spec_runtime_message(*self),
    {
        let mut s = String::new();
        match self {
            RuntimeErrorCode::AccessingPropertyOnNonObject => s.append("accessing property on a non-object value"),
            RuntimeErrorCode::AccessingSuperOutsideOfObject => s.append("accessing 'super' outside of an object"),
            RuntimeErrorCode::AssignFieldOnNonObject => s.append("assigning to field on a non-object value"),
            RuntimeErrorCode::CallExprOnNonCallable => s.append("can not call a non-callable value"),
            RuntimeErrorCode::CallWithTooFewArguments { expected, actual } => {
                s.append("call with too few arguments, expected ");
                push_decimal(&mut s, *expected);
                s.append(" but got ");
                push_decimal(&mut s, *actual);
            },
            RuntimeErrorCode::CallWithTooManyArguments { expected, actual } => {
                s.append("call with too many arguments, expected ");
                push_decimal(&mut s, *expected);
                s.append(" but got ");
                push_decimal(&mut s, *actual);
            },
            RuntimeErrorCode::ClassDoesNotHaveSuperclass(name) => {
                s.append("the class ");
                s.append(name.as_str());
                s.append(" does not have a superclass");
            },
            RuntimeErrorCode::NotABinaryOperator => s.append(
                "not a binary operator where a binary operator like '=', '+', '-', '*' or '/' is expected",
            ),
            RuntimeErrorCode::NotAnUnaryOperator => s.append(
                "not an unary operator where an unary operator like '!' or '-'  is expected",
            ),
            RuntimeErrorCode::OperandNotANumber => s.append(
                "operand is not a number but the operator requires all operands to be numbers",
            ),
            RuntimeErrorCode::OperandNotANumberOrString => s.append(
                "operand is not a number or a string but the operator requires all operands to be either numbers or strings",
            ),
            RuntimeErrorCode::OperandsOfDifferentType => s.append(
                "operands are of different type but the operator requires all operands to be of the same type",
            ),
            RuntimeErrorCode::SuperclassIsNotAClass => s.append("superclass must be a class"),
            RuntimeErrorCode::UndefinedClass(name) => {
                s.append("use of undefined class '");
                s.append(name.as_str());
                s.append("'");
            },
            RuntimeErrorCode::UndefinedFunction(name) => {
                s.append("call to undefined function '");
                s.append(name.as_str());
                s.append("'");
            },
            RuntimeErrorCode::UndefinedProperty(name) => {
                s.append("use of undefined property '");
                s.append(name.as_str());
                s.append("'");
            },
            RuntimeErrorCode::UndefinedVariable(name) => {
                s.append("use of undefined variable '");
                s.append(name.as_str());
                s.append("'");
            },
        }
        assert(s@ =~= spec_runtime_message(*self));
        s
    }
}

/// A runtime error: what went wrong, at which operation and where.
#[derive(Debug, Clone, PartialEq, Eq)]
pub struct RuntimeError {
    code: RuntimeErrorCode,
    operation: TokenKind,
    location: Span,
}

impl RuntimeError {
    pub closed spec fn spec_code(&self) -> RuntimeErrorCode {
        self.code
    }

    pub closed spec fn spec_operation(&self) -> TokenKind {
        self.operation
    }

    pub closed spec fn spec_location(&self) -> Span {
        self.location
    }

    /// The error `code` at the operation of `token`.
    pub fn new(code: RuntimeErrorCode, token: &Token) -> (error: RuntimeError)
        ensures
            error.spec_code() == code,
            error.spec_operation() == token.kind,
            error.spec_location() == token.location,
    {
        RuntimeError { code, operation: token.kind, location: token.location }
    }

    pub fn code(&self) -> (code: &RuntimeErrorCode)
        ensures
            *code == self.spec_code(),
    {
        &self.code
    }

    pub fn operation(&self) -> (operation: TokenKind)
        ensures
            operation == self.spec_operation(),
    {
        self.operation
    }

    pub fn location(&self) -> (location: Span)
        ensures
            location == self.spec_location(),
    {
        self.location
    }

    /// The message of the error: that of its code.
    pub fn message(&self) -> (message: String)
        ensures
            message@ == spec_runtime_message(self.spec_code()),
    {
        self.code.message()
    }
}

/// What the interpreter needs to know of a value to decide what an operator
/// does with it: its kind, and for a boolean its value.
#[derive(Debug, Clone, Copy, PartialEq, Eq, Structural)]
pub enum ValueKind {
    Nil,
    Bool(bool),
    Number,
    String,
    Function,
    NativeFunction,
    Class,
    Object,
}

/// `false` and `nil` are falsy; every other value is truthy.
pub open spec fn spec_is_truthy(value: ValueKind) -> bool {
    match value {
        ValueKind::Nil => false,
        ValueKind::Bool(b) => b,
        _ => true,
    }
}

/// Whether a value counts as true in a condition.
pub fn is_truthy(value: ValueKind) -> (truthy: bool)
    ensures
        truthy == spec_is_truthy(value),
{
    match value {
        ValueKind::Nil => false,
        ValueKind::Bool(b) => b,
        _ => true,
    }
}

/// What a binary operator computes.
#[derive(Debug, Clone, Copy, PartialEq, Eq, Structural)]
pub enum BinaryOperation {
    /// The values differ.
    NotEqual,
    /// The values are equal.
    Equal,
    /// The left value is ordered after the right one.
    Greater,
    /// The left value is ordered after or equal to the right one.
    GreaterEqual,
    /// The left value is ordered before the right one.
    Less,
    /// The left value is ordered before or equal to the right one.
    LessEqual,
    /// The difference of two numbers.
    Subtract,
    /// The sum of two numbers.
    Add,
    /// The concatenation of two strings.
    Concatenate,
    /// The quotient of two numbers.
    Divide,
    /// The product of two numbers.
    Multiply,
}

/// The operation of a binary operator on operands of the given kinds, or
/// the error that stops it.
pub open spec fn spec_binary_operation(operator: TokenKind, left: ValueKind, right: ValueKind)
    -> Result<BinaryOperation, RuntimeErrorCode>
{
    let numbers = left == ValueKind::Number && right == ValueKind::Number;
    match operator {
        TokenKind::BangEqual => Ok(BinaryOperation::NotEqual),
        TokenKind::EqualEqual => Ok(BinaryOperation::Equal),
        TokenKind::Greater => Ok(BinaryOperation::Greater),
        TokenKind::GreaterEqual => Ok(BinaryOperation::GreaterEqual),
        TokenKind::Less => Ok(BinaryOperation::Less),
        TokenKind::LessEqual => Ok(BinaryOperation::LessEqual),
        TokenKind::Minus => if numbers { Ok(BinaryOperation::Subtract) } else { Err(RuntimeErrorCode::OperandNotANumber) },
        TokenKind::Slash => if numbers { Ok(BinaryOperation::Divide) } else { Err(RuntimeErrorCode::OperandNotANumber) },
        TokenKind::Star => if numbers { Ok(BinaryOperation::Multiply) } else { Err(RuntimeErrorCode::OperandNotANumber) },
        TokenKind::Plus => {
            if numbers {
                Ok(BinaryOperation::Add)
            } else if left == ValueKind::String && right == ValueKind::String {
                Ok(BinaryOperation::Concatenate)
            } else if (left == ValueKind::String && right == ValueKind::Number)
                || (left == ValueKind::Number && right == ValueKind::String) {
                Err(RuntimeErrorCode::OperandsOfDifferentType)
            } else {
                Err(RuntimeErrorCode::OperandNotANumberOrString)
            }
        },
        _ => Err(RuntimeErrorCode::NotABinaryOperator),
    }
}

/// Decides what the binary operator `operator` does with operands of the
/// kinds `left` and `right`: the comparisons take any operands, `-`, `/`
/// and `*` take two numbers, and `+` adds two numbers or concatenates two
/// strings.
pub fn binary_operation(operator: TokenKind, left: ValueKind, right: ValueKind) -> (r: Result<BinaryOperation, RuntimeErrorCode>)
    ensures
        r == spec_binary_operation(operator, left, right),
{
    let numbers = matches!(left, ValueKind::Number) && matches!(right, ValueKind::Number);
    match operator {
        TokenKind::BangEqual => Ok(BinaryOperation::NotEqual),
        TokenKind::EqualEqual => Ok(BinaryOperation::Equal),
        TokenKind::Greater => Ok(BinaryOperation::Greater),
        TokenKind::GreaterEqual => Ok(BinaryOperation::GreaterEqual),
        TokenKind::Less => Ok(BinaryOperation::Less),
        TokenKind::LessEqual => Ok(BinaryOperation::LessEqual),
        TokenKind::Minus => if numbers { Ok(BinaryOperation::Subtract) } else { Err(RuntimeErrorCode::OperandNotANumber) },
        TokenKind::Slash => if numbers { Ok(BinaryOperation::Divide) } else { Err(RuntimeErrorCode::OperandNotANumber) },
        TokenKind::Star => if numbers { Ok(BinaryOperation::Multiply) } else { Err(RuntimeErrorCode::OperandNotANumber) },
        TokenKind::Plus => {
            let strings = matches!(left, ValueKind::String) && matches!(right, ValueKind::String);
            let mixed = (matches!(left, ValueKind::String) && matches!(right, ValueKind::Number))
                || (matches!(left, ValueKind::Number) && matches!(right, ValueKind::String));
            if numbers {
                Ok(BinaryOperation::Add)
            } else if strings {
                Ok(BinaryOperation::Concatenate)
            } else if mixed {
                Err(RuntimeErrorCode::OperandsOfDifferentType)
            } else {
                Err(RuntimeErrorCode::OperandNotANumberOrString)
            }
        },
        _ => Err(RuntimeErrorCode::NotABinaryOperator),
    }
}

/// The string that `+` gives of two strings: the left one followed by the
/// right one.
pub fn concatenate(left: &str, right: &str) -> (joined: String)
    ensures
        joined@ == left@ + right@,
{
    let mut joined = String::from_str(left);
    joined.append(right);
    joined
}

/// What a unary operator computes.
#[derive(Debug, Clone, Copy, PartialEq, Eq, Structural)]
pub enum UnaryOperation {
    /// The logical negation, whose result is known from the operand's kind.
    Not(bool),
    /// The arithmetic negation of a number.
    Negate,
}

/// The operation of a unary operator on an operand of the given kind, or the
/// error that stops it.
pub open spec fn spec_unary_operation(operator: TokenKind, operand: ValueKind) -> Result<UnaryOperation, RuntimeErrorCode> {
    match operator {
        TokenKind::Bang => Ok(UnaryOperation::Not(!spec_is_truthy(operand))),
        TokenKind::Minus => if operand == ValueKind::Number {
            Ok(UnaryOperation::Negate)
        } else {
            Err(RuntimeErrorCode::OperandNotANumber)
        },
        _ => Err(RuntimeErrorCode::NotAnUnaryOperator),
    }
}

/// Decides what the unary operator `operator` does with an operand of the
/// kind `operand`: `!` negates its truthiness and `-` negates a number.
pub fn unary_operation(operator: TokenKind, operand: ValueKind) -> (r: Result<UnaryOperation, RuntimeErrorCode>)
    ensures
        r == spec_unary_operation(operator, operand),
{
    match operator {
        TokenKind::Bang => Ok(UnaryOperation::Not(!is_truthy(operand))),
        TokenKind::Minus => if matches!(operand, ValueKind::Number) {
            Ok(UnaryOperation::Negate)
        } else {
            Err(RuntimeErrorCode::OperandNotANumber)
        },
        _ => Err(RuntimeErrorCode::NotAnUnaryOperator),
    }
}

/// The operators that a binary expression of Lox holds: the comparisons and
/// the arithmetic operators.
pub open spec fn is_binary_operator(kind: TokenKind) -> bool {
    kind == TokenKind::BangEqual || kind == TokenKind::EqualEqual || kind == TokenKind::Greater
        || kind == TokenKind::GreaterEqual || kind == TokenKind::Less || kind == TokenKind::LessEqual
        || kind == TokenKind::Minus || kind == TokenKind::Plus || kind == TokenKind::Slash || kind == TokenKind::Star
}

/// The operators that a unary expression of Lox holds.
pub open spec fn is_unary_operator(kind: TokenKind) -> bool {
    kind == TokenKind::Bang || kind == TokenKind::Minus
}

/// The operators that a logical expression of Lox holds.
pub open spec fn is_logical_operator(kind: TokenKind) -> bool {
    kind == TokenKind::And || kind == TokenKind::Or
}

/// The operators of Lox are never refused as operators: a binary operator
/// never gives `NotABinaryOperator` and a unary operator never gives
/// `NotAnUnaryOperator`, whatever its operands.
pub proof fn law_operators_of_lox_are_not_refused(kind: TokenKind, left: ValueKind, right: ValueKind)
    ensures
        is_binary_operator(kind) ==> spec_binary_operation(kind, left, right) != Err::<BinaryOperation, RuntimeErrorCode>(
            RuntimeErrorCode::NotABinaryOperator,
        ),
        is_unary_operator(kind) ==> spec_unary_operation(kind, left) != Err::<UnaryOperation, RuntimeErrorCode>(
            RuntimeErrorCode::NotAnUnaryOperator,
        ),
{
}

/// Whether a logical operator gives its left operand without evaluating the
/// right one: `or` stops at a truthy left operand, `and` at a falsy one.
pub open spec fn spec_short_circuits(operator: TokenKind, left: ValueKind) -> bool {
    if operator == TokenKind::Or {
        spec_is_truthy(left)
    } else {
        !spec_is_truthy(left)
    }
}

/// Decides whether the logical operator `operator` stops at its left operand.
pub fn short_circuits(operator: TokenKind, left: ValueKind) -> (stops: bool)
    ensures
        stops == spec_short_circuits(operator, left),
{
    if matches!(operator, TokenKind::Or) {
        is_truthy(left)
    } else {
        !is_truthy(left)
    }
}

/// Functions, native functions and classes can be called.
pub open spec fn spec_is_callable(callee: ValueKind) -> bool {
    callee == ValueKind::Function || callee == ValueKind::NativeFunction || callee == ValueKind::Class
}

/// Checks that `callee` can be called; the error is given at the closing
/// parenthesis `paren` of the call.
pub fn check_callable(paren: &Token, callee: ValueKind) -> (r: Result<(), RuntimeError>)
    ensures
        spec_is_callable(callee) <==> r is Ok,
        r matches Err(e) ==> e.spec_code() == RuntimeErrorCode::CallExprOnNonCallable
            && e.spec_operation() == paren.kind && e.spec_location() == paren.location,
{
    match callee {
        ValueKind::Function | ValueKind::NativeFunction | ValueKind::Class => Ok(()),
        _ => Err(RuntimeError::new(RuntimeErrorCode::CallExprOnNonCallable, paren)),
    }
}

/// Checks that the superclass of a class declaration, if it has one, is a
/// class; the error is given at the superclass's name.
pub fn check_superclass(superclass: Option<ValueKind>, token: &Token) -> (r: Result<(), RuntimeError>)
    ensures
        r is Err <==> (superclass matches Some(k) && k != ValueKind::Class),
        r matches Err(e) ==> {
            &&& e.spec_code() == RuntimeErrorCode::SuperclassIsNotAClass
            &&& e.spec_operation() == token.kind
            &&& e.spec_location() == token.location
        },
{
    match superclass {
        Some(ValueKind::Class) | None => Ok(()),
        Some(_) => Err(RuntimeError::new(RuntimeErrorCode::SuperclassIsNotAClass, token)),
    }
}

/// Checks that a call passes as many arguments as the callee takes; the
/// error is given at `token`, the closing parenthesis of the call.
pub fn check_arity_of_call(token: &Token, arity: usize, num_arguments: usize) -> (r: Result<(), RuntimeError>)
    ensures
        num_arguments == arity <==> r is Ok,
        r matches Err(e) ==> {
            &&& e.spec_operation() == token.kind
            &&& e.spec_location() == token.location
            &&& e.spec_code() == if num_arguments > arity {
                RuntimeErrorCode::CallWithTooManyArguments { expected: arity, actual: num_arguments }
            } else {
                RuntimeErrorCode::CallWithTooFewArguments { expected: arity, actual: num_arguments }
            }
        },
{
    if num_arguments == arity {
        Ok(())
    } else if num_arguments > arity {
        Err(RuntimeError::new(
            RuntimeErrorCode::CallWithTooManyArguments { expected: arity, actual: num_arguments },
            token,
        ))
    } else {
        Err(RuntimeError::new(
            RuntimeErrorCode::CallWithTooFewArguments { expected: arity, actual: num_arguments },
            token,
        ))
    }
}

/// The value of a variable: read `distance` environments out from
/// `current` where the resolver found the variable, else from the global
/// environment.
pub fn lookup_variable<'a, V>(
    envs: &'a Environments<V>,
    current: Environment,
    distance: Option<usize>,
    name: &str,
) -> (r: Result<&'a V, EnvironmentError>)
    requires
        envs.wf(),
        envs.holds(current),
    ensures
        ({
            let seen = match distance {
                Some(d) => value_seen(envs@, ancestor(envs@, current.index as nat, d as nat), name@),
                None => value_seen(envs@, 0, name@),
            };
            match r {
                Ok(v) => seen == Some(*v),
                Err(EnvironmentError::UndefinedVariable(n)) => seen is None && n@ == name@,
            }
        }),
{
    match distance {
        Some(d) => envs.lookup_at(current, d, name),
        None => {
            let globals = envs.global();
            envs.lookup(globals, name)
        },
    }
}

/// Gives a variable a new value: `distance` environments out from `current`
/// where the resolver found the variable, else in the first environment
/// from the global one outwards that holds it.
pub fn assign_variable<V>(
    envs: &mut Environments<V>,
    current: Environment,
    distance: Option<usize>,
    name: &str,
    value: V,
) -> (r: Result<(), EnvironmentError>)
    requires
        old(envs).wf(),
        old(envs).holds(current),
    ensures
        final(envs).wf(),
        match distance {
            Some(d) => r is Ok && final(envs)@ == defined(
                old(envs)@,
                ancestor(old(envs)@, current.index as nat, d as nat),
                name@,
                value,
            ),
            None => match holder(old(envs)@, 0, name@) {
                Some(h) => r is Ok && final(envs)@ == defined(old(envs)@, h, name@, value),
                None => {
                    &&& final(envs)@ == old(envs)@
                    &&& r matches Err(EnvironmentError::UndefinedVariable(n))
                    &&& n@ == name@
                },
            },
        },
{
    match distance {
        Some(d) => envs.assign_at(current, d, name, value),
        None => {
            let globals = envs.global();
            envs.assign(globals, name, value)
        },
    }
}

/// The store after the start of a class declaration named `name` in
/// `current`: the name is defined as `nil`, and a class with a superclass
/// gets an environment of its own, enclosed by `current`, that holds the
/// superclass as `super`.
pub open spec fn class_started<V>(
    fs: Seq<FrameView<V>>,
    current: nat,
    name: Seq<char>,
    nil: V,
    superclass: Option<V>,
) -> Seq<FrameView<V>> {
    let declared = defined(fs, current, name, nil);
    match superclass {
        None => declared,
        Some(c) => defined(
            declared.push(FrameView { enclosing: Some(current), values: Map::empty() }),
            declared.len(),
            SUPER@,
            c,
        ),
    }
}

/// Starts the declaration of the class `name` in `current`; gives the
/// environment in which its methods close: `current`, or for a class with a
/// superclass the new environment that holds `super`.
pub fn begin_class<V>(
    envs: &mut Environments<V>,
    current: Environment,
    name: &str,
    nil: V,
    superclass: Option<V>,
) -> (methods_env: Environment)
    requires
        old(envs).wf(),
        old(envs).holds(current),
    ensures
        final(envs).wf(),
        final(envs).holds(methods_env),
        final(envs)@ == class_started(old(envs)@, current.index as nat, name@, nil, superclass),
        superclass is None ==> methods_env == current,
        superclass is Some ==> methods_env.index == old(envs)@.len(),
{
    envs.define(current, String::from_str(name), nil);
    match superclass {
        None => current,
        Some(c) => {
            let methods_env = envs.new_local(current);
            envs.define(methods_env, String::from_str(SUPER), c);
            methods_env
        },
    }
}

/// Ends the declaration of a class: gives the class to its name, in the
/// first environment from `current` outwards that holds the name; the
/// runtime error `UndefinedClass` at the name when none does.
pub fn end_class<V>(envs: &mut Environments<V>, current: Environment, name: &Token, class: V) -> (r: Result<(), RuntimeError>)
    requires
        old(envs).wf(),
        old(envs).holds(current),
    ensures
        final(envs).wf(),
        match holder(old(envs)@, current.index as nat, name.lexeme@) {
            Some(h) => r is Ok && final(envs)@ == defined(old(envs)@, h, name.lexeme@, class),
            None => {
                &&& final(envs)@ == old(envs)@
                &&& r matches Err(e)
                &&& e.spec_code() == RuntimeErrorCode::UndefinedClass(name.lexeme)
                &&& e.spec_location() == name.location
            },
        },
{
    match envs.assign(current, name.lexeme.as_str(), class) {
        Ok(()) => Ok(()),
        Err(_) => Err(RuntimeError::new(RuntimeErrorCode::UndefinedClass(name.lexeme.clone()), name)),
    }
}

/// The runtime error for a variable that no environment holds.
pub fn undefined_variable(error: EnvironmentError, token: &Token) -> (e: RuntimeError)
    ensures
        e.spec_code() == match error {
            EnvironmentError::UndefinedVariable(name) => RuntimeErrorCode::UndefinedVariable(name),
        },
        e.spec_operation() == token.kind,
        e.spec_location() == token.location,
{
    match error {
        EnvironmentError::UndefinedVariable(name) => RuntimeError::new(RuntimeErrorCode::UndefinedVariable(name), token),
    }
}

/// `or` gives its left operand, without evaluating the right one, exactly
/// when the left operand is truthy, and `and` exactly when it is falsy; only
/// `nil` and `false` are falsy, so a number, a string, a function, a class or
/// an object on the left of `or` ends it.
pub proof fn law_logical_operators_stop_on_truthiness(left: ValueKind)
    ensures
        spec_is_truthy(left) == !(left == ValueKind::Nil || left == ValueKind::Bool(false)),
        spec_short_circuits(TokenKind::Or, left) == !(left == ValueKind::Nil || left == ValueKind::Bool(false)),
        spec_short_circuits(TokenKind::And, left) == (left == ValueKind::Nil || left == ValueKind::Bool(false)),
        spec_short_circuits(TokenKind::Or, left) != spec_short_circuits(TokenKind::And, left),
{
}

} // verus!
