use lox_core::parse::Parse;
use lox_core::program::{program_of, ProgramError};
use lox_core::resolver::{ResolutionMap, Resolve, Resolver, ResolverError, ResolverErrorCode};
use lox_core::span::Span;
use lox_core::stmt::Stmt;
use lox_core::token::{Token, TokenKind};
use lox_core::tokenize::Tokenize;

fn parse(source: &str) -> Vec<Stmt> {
    source.tokenize().parse().expect("parsing should succeed")
}

fn identifier(name: &str, (offset, length): (usize, usize)) -> Token {
    Token::new(TokenKind::Identifier, None, name.to_string(), Span::new(offset, length))
}

fn return_((offset, length): (usize, usize)) -> Token {
    Token::new(TokenKind::Return, None, "return".to_string(), Span::new(offset, length))
}

#[test]
fn a_new_resolver_starts_with_an_empty_scopes_stack() {
    let resolver = Resolver::default();

    assert!(resolver.scopes.is_empty());
}

#[test]
fn resolve_calculates_the_distance_to_a_local_variable() {
    let mut resolver = Resolver::default();
    let statements = parse("{ var a = 1; a; }");

    let resolution_map = resolver.resolve(&statements).expect("resolution should succeed");

    assert_eq!(resolution_map.get_distance(identifier("a", (13, 1))), Some(0));
}

#[test]
fn resolve_calculates_the_distance_to_a_variable_in_an_outer_scope() {
    let mut resolver = Resolver::default();
    let statements = parse("{ var a = 1; { a; } }");

    let resolution_map = resolver.resolve(&statements).expect("resolution should succeed");

    assert_eq!(resolution_map.get_distance(identifier("a", (15, 1))), Some(1));
}

#[test]
fn resolve_handles_shadowing_correctly() {
    let mut resolver = Resolver::default();
    let statements = parse("{ var a = 1; { var a = 2; a; } }");

    let resolution_map = resolver.resolve(&statements).expect("resolution should succeed");

    assert_eq!(resolution_map.get_distance(identifier("a", (26, 1))), Some(0));
}

#[test]
fn resolve_resolves_function_parameters() {
    let mut resolver = Resolver::default();
    let statements = parse("fun foo(a) { a; }");

    let resolution_map = resolver.resolve(&statements).expect("resolution should succeed");

    assert_eq!(resolution_map.get_distance(identifier("a", (13, 1))), Some(0));
    assert_eq!(resolution_map.get_distance(identifier("a", (8, 1))), None);
}

#[test]
fn resolve_returns_error_when_reading_local_variable_in_its_own_initializer() {
    let mut resolver = Resolver::default();
    let statements = parse("{ var a = a; }");

    let result = resolver.resolve(&statements);

    assert_eq!(
        result,
        Err(vec![ResolverError {
            code: ResolverErrorCode::CannotReadLocalVariableInInitializer,
            token: identifier("a", (10, 1)),
            location: Span::new(10, 1),
        }])
    );
}

#[test]
fn resolve_resolves_variables_in_assignments() {
    let mut resolver = Resolver::default();
    let statements = parse("{ var a = 1; a = 2; }");

    let resolution_map = resolver.resolve(&statements).expect("resolution should succeed");

    assert_eq!(resolution_map.get_distance(identifier("a", (13, 1))), Some(0));
}

#[test]
fn resolve_resolves_variables_in_if_statements() {
    let mut resolver = Resolver::default();
    let statements =
        parse("{ var a = true; if (a) { var b = a; print b; } else { var c = a; print c; } }");

    let resolution_map = resolver.resolve(&statements).expect("resolution should succeed");

    // condition
    assert_eq!(resolution_map.get_distance(identifier("a", (20, 1))), Some(0));
    // then branch
    assert_eq!(resolution_map.get_distance(identifier("a", (33, 1))), Some(1));
    assert_eq!(resolution_map.get_distance(identifier("b", (42, 1))), Some(0));
    // else branch
    assert_eq!(resolution_map.get_distance(identifier("a", (62, 1))), Some(1));
    assert_eq!(resolution_map.get_distance(identifier("c", (71, 1))), Some(0));
}

#[test]
fn resolve_does_not_track_global_variables_in_resolution_map() {
    let mut resolver = Resolver::default();
    let statements = parse("var a = 1; a;");

    let resolution_map = resolver.resolve(&statements).expect("resolution should succeed");

    assert_eq!(resolution_map.get_distance(identifier("a", (11, 1))), None);
}

#[test]
fn resolve_finds_redeclared_variable_in_same_local_scope() {
    let mut resolver = Resolver::default();
    let statements = parse("fun bad() { var a = \"first\"; var a = \"second\"; }");

    let result = resolver.resolve(&statements);

    assert_eq!(
        result,
        Err(vec![ResolverError {
            code: ResolverErrorCode::RedeclaredVariableInSameScope,
            token: identifier("a", (33, 1)),
            location: Span::new(33, 1),
        }])
    );
}

#[test]
fn resolve_finds_return_stmt_outside_of_any_function() {
    let mut resolver = Resolver::default();
    let statements = parse("return \"at top level\";");

    let result = resolver.resolve(&statements);

    assert_eq!(
        result,
        Err(vec![ResolverError {
            code: ResolverErrorCode::CannotReturnFromOutsideFunction,
            token: return_((0, 6)),
            location: Span::new(0, 6),
        }])
    );
}

#[test]
fn resolution_keeps_going_after_an_error_and_reports_all_errors_in_order() {
    let mut resolver = Resolver::default();
    let statements = parse("return 1; { var a = a; } return 2;");

    let result = resolver.resolve(&statements);

    assert_eq!(
        result,
        Err(vec![
            ResolverError {
                code: ResolverErrorCode::CannotReturnFromOutsideFunction,
                token: return_((0, 6)),
                location: Span::new(0, 6),
            },
            ResolverError {
                code: ResolverErrorCode::CannotReadLocalVariableInInitializer,
                token: identifier("a", (20, 1)),
                location: Span::new(20, 1),
            },
            ResolverError {
                code: ResolverErrorCode::CannotReturnFromOutsideFunction,
                token: return_((25, 6)),
                location: Span::new(25, 6),
            },
        ])
    );
}

#[test]
fn a_return_inside_a_function_is_accepted() {
    let mut resolver = Resolver::default();
    let statements = parse("fun f(x) { return x; }");

    let resolution_map = resolver.resolve(&statements).expect("resolution should succeed");

    assert_eq!(resolution_map.get_distance(identifier("x", (18, 1))), Some(0));
}

#[test]
fn resolution_of_property_access_is_not_handled() {
    let mut resolver = Resolver::default();
    let statements = parse("{ var a = 1; a.b; }");

    assert!(resolver.try_resolve(&statements).is_none());
}

#[test]
fn resolve_trait_hands_back_the_statements_and_the_distances() {
    let statements = parse("{ var a = 1; a; }");

    let (resolved, map) = statements.resolve().expect("resolution should succeed");

    assert_eq!(resolved, parse("{ var a = 1; a; }"));
    assert_eq!(map.get_distance(identifier("a", (13, 1))), Some(0));
}

#[test]
fn a_resolution_map_gives_back_what_was_inserted() {
    let mut map = ResolutionMap::new();
    map.insert_distance(identifier("a", (3, 1)), 2);
    map.insert_distance(identifier("a", (3, 1)), 4);
    map.insert_distance(identifier("b", (7, 1)), 1);

    assert_eq!(map.get_distance(identifier("a", (3, 1))), Some(4));
    assert_eq!(map.get_distance(identifier("b", (7, 1))), Some(1));
    assert_eq!(map.get_distance(identifier("c", (9, 1))), None);
}

#[test]
fn program_of_a_valid_source_code_holds_its_statements() {
    let program = program_of("{ var a = 1; print a; }").expect("handled").expect("valid program");

    assert_eq!(program.statements, parse("{ var a = 1; print a; }"));
    assert_eq!(program.resolution_map.get_distance(identifier("a", (19, 1))), Some(0));
}

#[test]
fn program_of_a_source_code_with_syntax_errors_gives_them() {
    let errors = program_of("print ;").expect("handled").expect_err("syntax error");

    assert_eq!(errors.len(), 1);
    assert!(matches!(errors[0], ProgramError::SyntaxError(_)));
}

#[test]
fn program_of_a_source_code_with_resolution_errors_gives_them() {
    let errors = program_of("return 1;").expect("handled").expect_err("resolution error");

    assert_eq!(
        errors,
        vec![ProgramError::ResolverError(ResolverError {
            code: ResolverErrorCode::CannotReturnFromOutsideFunction,
            token: return_((0, 6)),
            location: Span::new(0, 6),
        })]
    );
}

#[test]
fn resolution_closes_every_scope_it_opens() {
    let mut resolver = Resolver::default();
    let statements = parse("fun f(x) { { var y = x; { print y; } } return x; } { var z = 1; while (z < 3) { z = z + 1; } }");

    let resolution_map = resolver.resolve(&statements);

    assert!(resolution_map.is_ok());
    assert!(resolver.scopes.is_empty());
}

#[test]
fn a_distance_belongs_to_the_whole_token_not_only_its_span() {
    let mut resolver = Resolver::default();
    let statements = parse("{ var a = 1; a; }");

    let resolution_map = resolver.resolve(&statements).expect("resolution should succeed");

    assert_eq!(resolution_map.get_distance(identifier("a", (13, 1))), Some(0));
    assert_eq!(resolution_map.get_distance(identifier("b", (13, 1))), None);
    let this = Token::new(TokenKind::This, None, "a".to_string(), Span::new(13, 1));
    assert_eq!(resolution_map.get_distance(this), None);
}
