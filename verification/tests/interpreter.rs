use lox_core::environment::{EnvironmentError, Environments};
use lox_core::interpreter::{
    assign_variable, begin_class, binary_operation, check_arity_of_call, check_callable, check_superclass, concatenate,
    end_class, is_truthy,
    lookup_variable, short_circuits, unary_operation, undefined_variable, BinaryOperation,
    RuntimeError, RuntimeErrorCode, UnaryOperation, ValueKind,
};
use lox_core::span::Span;
use lox_core::token::{Token, TokenKind};

fn token(kind: TokenKind, lexeme: &str, (offset, length): (usize, usize)) -> Token {
    Token::new(kind, None, lexeme.to_string(), Span::new(offset, length))
}

const ALL_KINDS: [ValueKind; 9] = [
    ValueKind::Nil,
    ValueKind::Bool(false),
    ValueKind::Bool(true),
    ValueKind::Number,
    ValueKind::String,
    ValueKind::Function,
    ValueKind::NativeFunction,
    ValueKind::Class,
    ValueKind::Object,
];

#[test]
fn nil_and_false_are_falsy_everything_else_is_truthy() {
    assert!(!is_truthy(ValueKind::Nil));
    assert!(!is_truthy(ValueKind::Bool(false)));
    assert!(is_truthy(ValueKind::Bool(true)));
    assert!(is_truthy(ValueKind::Number));
    assert!(is_truthy(ValueKind::String));
    assert!(is_truthy(ValueKind::Object));
}

#[test]
fn bang_negates_truthiness() {
    assert_eq!(unary_operation(TokenKind::Bang, ValueKind::Bool(true)), Ok(UnaryOperation::Not(false)));
    assert_eq!(unary_operation(TokenKind::Bang, ValueKind::Bool(false)), Ok(UnaryOperation::Not(true)));
    assert_eq!(unary_operation(TokenKind::Bang, ValueKind::Number), Ok(UnaryOperation::Not(false)));
    assert_eq!(unary_operation(TokenKind::Bang, ValueKind::String), Ok(UnaryOperation::Not(false)));
    assert_eq!(unary_operation(TokenKind::Bang, ValueKind::Nil), Ok(UnaryOperation::Not(true)));
}

#[test]
fn unary_minus_takes_numbers_only() {
    assert_eq!(unary_operation(TokenKind::Minus, ValueKind::Number), Ok(UnaryOperation::Negate));
    for kind in [ValueKind::Bool(true), ValueKind::String, ValueKind::Nil] {
        assert_eq!(unary_operation(TokenKind::Minus, kind), Err(RuntimeErrorCode::OperandNotANumber));
    }
}

#[test]
fn unary_with_illegal_operator() {
    assert_eq!(unary_operation(TokenKind::Plus, ValueKind::Number), Err(RuntimeErrorCode::NotAnUnaryOperator));
}

#[test]
fn arithmetic_operators_take_two_numbers() {
    let ops = [
        (TokenKind::Minus, BinaryOperation::Subtract),
        (TokenKind::Star, BinaryOperation::Multiply),
        (TokenKind::Slash, BinaryOperation::Divide),
    ];
    for (operator, operation) in ops {
        assert_eq!(binary_operation(operator, ValueKind::Number, ValueKind::Number), Ok(operation));
        for (left, right) in [
            (ValueKind::Bool(true), ValueKind::Bool(false)),
            (ValueKind::String, ValueKind::String),
            (ValueKind::Nil, ValueKind::Nil),
            (ValueKind::Number, ValueKind::String),
        ] {
            assert_eq!(binary_operation(operator, left, right), Err(RuntimeErrorCode::OperandNotANumber));
        }
    }
}

#[test]
fn plus_adds_numbers_and_concatenates_strings() {
    assert_eq!(binary_operation(TokenKind::Plus, ValueKind::Number, ValueKind::Number), Ok(BinaryOperation::Add));
    assert_eq!(
        binary_operation(TokenKind::Plus, ValueKind::String, ValueKind::String),
        Ok(BinaryOperation::Concatenate)
    );
}

#[test]
fn plus_with_string_and_number_is_of_different_type() {
    assert_eq!(
        binary_operation(TokenKind::Plus, ValueKind::String, ValueKind::Number),
        Err(RuntimeErrorCode::OperandsOfDifferentType)
    );
    assert_eq!(
        binary_operation(TokenKind::Plus, ValueKind::Number, ValueKind::String),
        Err(RuntimeErrorCode::OperandsOfDifferentType)
    );
}

#[test]
fn plus_with_booleans_or_nil_is_not_a_number_or_string() {
    assert_eq!(
        binary_operation(TokenKind::Plus, ValueKind::Bool(true), ValueKind::Bool(false)),
        Err(RuntimeErrorCode::OperandNotANumberOrString)
    );
    assert_eq!(
        binary_operation(TokenKind::Plus, ValueKind::Nil, ValueKind::Nil),
        Err(RuntimeErrorCode::OperandNotANumberOrString)
    );
}

#[test]
fn comparisons_take_any_operands() {
    let ops = [
        (TokenKind::BangEqual, BinaryOperation::NotEqual),
        (TokenKind::EqualEqual, BinaryOperation::Equal),
        (TokenKind::Greater, BinaryOperation::Greater),
        (TokenKind::GreaterEqual, BinaryOperation::GreaterEqual),
        (TokenKind::Less, BinaryOperation::Less),
        (TokenKind::LessEqual, BinaryOperation::LessEqual),
    ];
    for (operator, operation) in ops {
        for left in ALL_KINDS {
            for right in ALL_KINDS {
                assert_eq!(binary_operation(operator, left, right), Ok(operation));
            }
        }
    }
}

#[test]
fn binary_with_illegal_operator() {
    assert_eq!(
        binary_operation(TokenKind::Bang, ValueKind::Number, ValueKind::Number),
        Err(RuntimeErrorCode::NotABinaryOperator)
    );
}

#[test]
fn or_stops_at_truthy_and_and_stops_at_falsy() {
    assert!(short_circuits(TokenKind::Or, ValueKind::Bool(true)));
    assert!(!short_circuits(TokenKind::Or, ValueKind::Bool(false)));
    assert!(short_circuits(TokenKind::And, ValueKind::Nil));
    assert!(!short_circuits(TokenKind::And, ValueKind::Number));
}

#[test]
fn only_functions_and_classes_can_be_called() {
    let paren = token(TokenKind::RightParen, ")", (10, 1));
    assert_eq!(check_callable(&paren, ValueKind::Function), Ok(()));
    assert_eq!(check_callable(&paren, ValueKind::NativeFunction), Ok(()));
    assert_eq!(check_callable(&paren, ValueKind::Class), Ok(()));
    for kind in [ValueKind::Nil, ValueKind::Bool(true), ValueKind::Number, ValueKind::String, ValueKind::Object] {
        assert_eq!(
            check_callable(&paren, kind),
            Err(RuntimeError::new(RuntimeErrorCode::CallExprOnNonCallable, &paren))
        );
    }
}

#[test]
fn arity_check_reports_too_few_and_too_many_arguments() {
    let paren = token(TokenKind::RightParen, ")", (20, 1));
    assert_eq!(check_arity_of_call(&paren, 2, 2), Ok(()));
    let error = check_arity_of_call(&paren, 2, 3).unwrap_err();
    assert_eq!(error.code(), &RuntimeErrorCode::CallWithTooManyArguments { expected: 2, actual: 3 });
    assert_eq!(error.operation(), TokenKind::RightParen);
    assert_eq!(error.location(), Span::new(20, 1));
    assert_eq!(error.message(), "call with too many arguments, expected 2 but got 3");
    let error = check_arity_of_call(&paren, 2, 0).unwrap_err();
    assert_eq!(error.code(), &RuntimeErrorCode::CallWithTooFewArguments { expected: 2, actual: 0 });
    assert_eq!(error.message(), "call with too few arguments, expected 2 but got 0");
}

#[test]
fn runtime_error_messages() {
    assert_eq!(
        RuntimeErrorCode::UndefinedVariable("foo".into()).message(),
        "use of undefined variable 'foo'"
    );
    assert_eq!(
        RuntimeErrorCode::ClassDoesNotHaveSuperclass("Cake".into()).message(),
        "the class Cake does not have a superclass"
    );
    assert_eq!(RuntimeErrorCode::SuperclassIsNotAClass.message(), "superclass must be a class");
    assert_eq!(
        RuntimeErrorCode::OperandNotANumber.message(),
        "operand is not a number but the operator requires all operands to be numbers"
    );
    assert_eq!(
        RuntimeErrorCode::CallWithTooManyArguments { expected: 10, actual: 255 }.message(),
        "call with too many arguments, expected 10 but got 255"
    );
}

#[test]
fn variable_lookup_uses_resolved_distance_or_globals() {
    let mut envs: Environments<i32> = Environments::new();
    let globals = envs.global();
    envs.define(globals, "a".to_string(), 1);
    let local = envs.new_local(globals);
    envs.define(local, "a".to_string(), 2);
    assert_eq!(lookup_variable(&envs, local, Some(0), "a"), Ok(&2));
    assert_eq!(lookup_variable(&envs, local, Some(1), "a"), Ok(&1));
    assert_eq!(lookup_variable(&envs, local, None, "a"), Ok(&1));
    assert_eq!(
        lookup_variable(&envs, local, None, "b"),
        Err(EnvironmentError::UndefinedVariable("b".into()))
    );
}

#[test]
fn variable_assignment_uses_resolved_distance_or_globals() {
    let mut envs: Environments<i32> = Environments::new();
    let globals = envs.global();
    envs.define(globals, "a".to_string(), 1);
    let local = envs.new_local(globals);
    envs.define(local, "a".to_string(), 2);
    assert_eq!(assign_variable(&mut envs, local, None, "a", 10), Ok(()));
    assert_eq!(envs.lookup(globals, "a"), Ok(&10));
    assert_eq!(envs.lookup(local, "a"), Ok(&2));
    assert_eq!(assign_variable(&mut envs, local, Some(0), "a", 20), Ok(()));
    assert_eq!(envs.lookup(local, "a"), Ok(&20));
    assert_eq!(
        assign_variable(&mut envs, local, None, "foo", 99),
        Err(EnvironmentError::UndefinedVariable("foo".into()))
    );
}

#[test]
fn undefined_variable_error_at_the_name() {
    let name = token(TokenKind::Identifier, "foo", (23, 3));
    let error = undefined_variable(EnvironmentError::UndefinedVariable("foo".into()), &name);
    assert_eq!(error, RuntimeError::new(RuntimeErrorCode::UndefinedVariable("foo".into()), &name));
    assert_eq!(error.message(), "use of undefined variable 'foo'");
}

#[test]
fn a_superclass_must_be_a_class() {
    let name = token(TokenKind::Identifier, "Base", (14, 4));
    assert_eq!(check_superclass(None, &name), Ok(()));
    assert_eq!(check_superclass(Some(ValueKind::Class), &name), Ok(()));
    for kind in [ValueKind::Nil, ValueKind::Number, ValueKind::String, ValueKind::Function, ValueKind::Object] {
        assert_eq!(
            check_superclass(Some(kind), &name),
            Err(RuntimeError::new(RuntimeErrorCode::SuperclassIsNotAClass, &name))
        );
    }
}

#[test]
fn plus_on_strings_joins_them() {
    assert_eq!(concatenate("Hello, ", "world!"), "Hello, world!");
    assert_eq!(concatenate("", "x"), "x");
}

#[test]
fn a_class_declaration_defines_its_name_and_holds_super_for_its_methods() {
    let mut envs: Environments<i32> = Environments::new();
    let globals = envs.global();
    let name = token(TokenKind::Identifier, "Cake", (6, 4));
    let methods_env = begin_class(&mut envs, globals, "Cake", 0, Some(7));
    assert_ne!(methods_env, globals);
    assert_eq!(envs.lookup(globals, "Cake"), Ok(&0));
    assert_eq!(envs.lookup(methods_env, "super"), Ok(&7));
    assert_eq!(envs.lookup(globals, "super"), Err(EnvironmentError::UndefinedVariable("super".into())));
    assert_eq!(end_class(&mut envs, globals, &name, 42), Ok(()));
    assert_eq!(envs.lookup(globals, "Cake"), Ok(&42));

    let without = begin_class(&mut envs, globals, "Pie", 0, None);
    assert_eq!(without, globals);
    let other = token(TokenKind::Identifier, "Tart", (20, 4));
    let error = end_class(&mut envs, globals, &other, 1).unwrap_err();
    assert_eq!(error, RuntimeError::new(RuntimeErrorCode::UndefinedClass("Tart".into()), &other));
}
