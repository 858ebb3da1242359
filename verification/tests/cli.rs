use lox_core::cli::{repl_input, CliStatus, ReplInput};

#[test]
fn exit_codes_follow_sysexits() {
    assert_eq!(CliStatus::Success.code(), 0);
    assert_eq!(CliStatus::CannotReadSourceFile.code(), 66);
    assert_eq!(CliStatus::CannotWriteOutputFile.code(), 73);
    assert_eq!(CliStatus::InvalidArgument.code(), 64);
    assert_eq!(CliStatus::RuntimeError.code(), 65);
    assert_eq!(CliStatus::SyntaxError.code(), 65);
    assert_eq!(CliStatus::SystemError.code(), 70);
}

#[test]
fn only_success_exits_with_zero() {
    for status in [
        CliStatus::CannotReadSourceFile,
        CliStatus::CannotWriteOutputFile,
        CliStatus::InvalidArgument,
        CliStatus::RuntimeError,
        CliStatus::SyntaxError,
        CliStatus::SystemError,
    ] {
        assert_ne!(status.code(), 0);
    }
}

#[test]
fn repl_quits_on_quit_command_with_white_space_around() {
    assert_eq!(repl_input(":quit\n"), ReplInput::Quit);
    assert_eq!(repl_input("  :quit  \n"), ReplInput::Quit);
}

#[test]
fn repl_clears_on_clear_command() {
    assert_eq!(repl_input(":clear\n"), ReplInput::Clear);
}

#[test]
fn repl_skips_when_nothing_was_read() {
    assert_eq!(repl_input(""), ReplInput::Skip);
}

#[test]
fn repl_evaluates_an_empty_line_and_programs() {
    assert_eq!(repl_input("\n"), ReplInput::Evaluate);
    assert_eq!(repl_input("print 1;\n"), ReplInput::Evaluate);
    assert_eq!(repl_input(":quitting\n"), ReplInput::Evaluate);
}

#[test]
fn repl_commands_are_trimmed_of_unicode_white_space() {
    assert_eq!(repl_input("\u{3000}\t:quit\u{2028}\u{a0}"), ReplInput::Quit);
    assert_eq!(repl_input("\u{85}:clear\r\n"), ReplInput::Clear);
    assert_eq!(repl_input(" \u{200b}:quit\n"), ReplInput::Evaluate);
    assert_eq!(repl_input("  \n"), ReplInput::Evaluate);
}
