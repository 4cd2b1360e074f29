use lib::repl::is_exit_command;

#[test]
fn exit_and_quit_end_the_session() {
    assert!(is_exit_command("exit"));
    assert!(is_exit_command("quit\n"));
    assert!(is_exit_command("  exit \t\n"));
}

#[test]
fn other_lines_do_not_end_the_session() {
    assert!(!is_exit_command(""));
    assert!(!is_exit_command("\n"));
    assert!(!is_exit_command("Exit"));
    assert!(!is_exit_command("exit now"));
    assert!(!is_exit_command("let quit = 1;"));
}
