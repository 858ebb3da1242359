use lox_core::environment::{EnvironmentError, Environments};

fn value(text: &str) -> String {
    text.to_string()
}

#[test]
fn can_create_new_local_environment_that_is_enclosed_by_the_current_one() {
    let mut envs = Environments::new();
    let global_env = envs.global();
    envs.define(global_env, value("foo"), value("some value"));

    let local_env = envs.new_local(global_env);
    envs.define(local_env, value("bar"), value("another value"));

    assert_eq!(envs.lookup(local_env, "foo"), Ok(&value("some value")));
    assert_eq!(envs.lookup(local_env, "bar"), Ok(&value("another value")));
}

#[test]
fn a_new_local_environment_shadows_a_variable_with_same_name_from_the_enclosing_environment() {
    let mut envs = Environments::new();
    let global_env = envs.global();
    envs.define(global_env, value("foo"), value("some value"));
    envs.define(global_env, value("bar"), value("another value"));

    let local_env = envs.new_local(global_env);
    envs.define(local_env, value("foo"), value("different value"));
    envs.define(local_env, value("baz"), value("yet another value"));

    assert_eq!(envs.lookup(local_env, "foo"), Ok(&value("different value")));
    assert_eq!(envs.lookup(local_env, "bar"), Ok(&value("another value")));
    assert_eq!(envs.lookup(local_env, "baz"), Ok(&value("yet another value")));
}

#[test]
fn can_assign_to_a_variable_defined_in_the_enclosing_environment() {
    let mut envs = Environments::new();
    let global_env = envs.global();
    envs.define(global_env, value("foo"), value("some value"));

    let local_env = envs.new_local(global_env);
    envs.define(local_env, value("bar"), value("another value"));

    let assign_result = envs.assign(local_env, "foo", value("different value"));
    assert!(assign_result.is_ok());

    assert_eq!(envs.lookup(local_env, "foo"), Ok(&value("different value")));
    assert_eq!(envs.lookup(local_env, "bar"), Ok(&value("another value")));
}

#[test]
fn dropping_a_local_environment_does_not_affect_the_enclosing_environment() {
    let mut envs = Environments::new();
    let global_env = envs.global();
    envs.define(global_env, value("foo"), value("some value"));
    envs.define(global_env, value("bar"), value("another value"));

    let local_env = envs.new_local(global_env);
    envs.define(local_env, value("foo"), value("different value"));
    envs.define(local_env, value("baz"), value("yet another value"));

    assert_eq!(envs.lookup(local_env, "foo"), Ok(&value("different value")));
    assert_eq!(envs.lookup(local_env, "bar"), Ok(&value("another value")));

    drop(local_env);

    assert_eq!(envs.lookup(global_env, "foo"), Ok(&value("some value")));
    assert_eq!(envs.lookup(global_env, "bar"), Ok(&value("another value")));
    assert_eq!(
        envs.lookup(global_env, "baz"),
        Err(EnvironmentError::UndefinedVariable("baz".into()))
    );
}

#[test]
fn creating_a_new_local_environment_after_dropping_the_last_one() {
    let mut envs = Environments::new();
    let global_env = envs.global();
    envs.define(global_env, value("foo"), value("some value"));
    envs.define(global_env, value("bar"), value("another value"));

    assert_eq!(envs.lookup(global_env, "foo"), Ok(&value("some value")));
    assert_eq!(envs.lookup(global_env, "bar"), Ok(&value("another value")));
    assert_eq!(
        envs.lookup(global_env, "baz"),
        Err(EnvironmentError::UndefinedVariable("baz".into()))
    );

    let local_env = envs.new_local(global_env);
    envs.define(local_env, value("foo"), value("different value"));
    envs.define(local_env, value("baz"), value("yet another value"));

    assert_eq!(envs.lookup(local_env, "foo"), Ok(&value("different value")));
    assert_eq!(envs.lookup(local_env, "bar"), Ok(&value("another value")));
    assert_eq!(envs.lookup(local_env, "baz"), Ok(&value("yet another value")));

    drop(local_env);

    assert_eq!(envs.lookup(global_env, "foo"), Ok(&value("some value")));
    assert_eq!(envs.lookup(global_env, "bar"), Ok(&value("another value")));
    assert_eq!(
        envs.lookup(global_env, "baz"),
        Err(EnvironmentError::UndefinedVariable("baz".into()))
    );

    let local_env = envs.new_local(global_env);
    envs.define(local_env, value("foo"), value("completely different value"));
    envs.define(local_env, value("qux"), value("third value"));

    assert_eq!(envs.lookup(local_env, "foo"), Ok(&value("completely different value")));
    assert_eq!(envs.lookup(local_env, "bar"), Ok(&value("another value")));
    assert_eq!(
        envs.lookup(local_env, "baz"),
        Err(EnvironmentError::UndefinedVariable("baz".into()))
    );
    assert_eq!(envs.lookup(local_env, "qux"), Ok(&value("third value")));
}

#[test]
fn assigning_to_an_undefined_variable_fails() {
    let mut envs: Environments<String> = Environments::new();
    let global_env = envs.global();

    assert_eq!(
        envs.assign(global_env, "nope", value("x")),
        Err(EnvironmentError::UndefinedVariable("nope".into()))
    );
}

#[test]
fn the_global_environment_encloses_itself() {
    let mut envs: Environments<String> = Environments::new();
    let global_env = envs.global();
    let local_env = envs.new_local(global_env);

    assert_eq!(envs.enclosing(local_env), global_env);
    assert_eq!(envs.enclosing(global_env), global_env);
}

#[test]
fn lookup_at_and_assign_at_go_the_given_number_of_environments_out() {
    let mut envs = Environments::new();
    let global_env = envs.global();
    envs.define(global_env, value("a"), value("global"));
    let middle = envs.new_local(global_env);
    envs.define(middle, value("a"), value("middle"));
    let inner = envs.new_local(middle);
    envs.define(inner, value("a"), value("inner"));

    assert_eq!(envs.lookup_at(inner, 0, "a"), Ok(&value("inner")));
    assert_eq!(envs.lookup_at(inner, 1, "a"), Ok(&value("middle")));
    assert_eq!(envs.lookup_at(inner, 2, "a"), Ok(&value("global")));
    assert_eq!(envs.lookup_at(inner, 9, "a"), Ok(&value("global")));

    assert!(envs.assign_at(inner, 1, "a", value("changed")).is_ok());
    assert_eq!(envs.lookup(middle, "a"), Ok(&value("changed")));
    assert_eq!(envs.lookup(inner, "a"), Ok(&value("inner")));
    assert_eq!(envs.ancestor(inner, 1), middle);
}

#[test]
fn error_message_names_the_identifier() {
    let error = EnvironmentError::UndefinedVariable("foo".into());

    assert_eq!(error.message(), "definition for identifier 'foo' not found");
}
