use shell_core::builtins::{change_directory, echo, Move};
use shell_core::fileops::Kind;

fn strings(items: &[&str]) -> Vec<String> {
    items.iter().map(|s| s.to_string()).collect()
}

#[test]
fn echo_prints_the_raw_text() {
    assert_eq!(echo(&strings(&["echo", "a", "b"]), "a   \"b\""), "a   \"b\"");
    assert_eq!(echo(&strings(&["echo"]), ""), "Syntax: echo {input}");
    assert_eq!(echo(&strings(&["echo"]), "ignored"), "Syntax: echo {input}");
}

#[test]
fn cd_without_argument_prints_usage() {
    match change_directory(&strings(&["cd"]), Kind::Missing) {
        Move::Say { line } => assert_eq!(line, "Syntax: cd {directory}"),
        _ => panic!("usage was due"),
    }
}

#[test]
fn cd_enters_a_directory() {
    match change_directory(&strings(&["cd", "src", "more"]), Kind::Directory) {
        Move::Enter { dir } => assert_eq!(dir, "src"),
        _ => panic!("src is a directory"),
    }
}

#[test]
fn cd_fails_on_anything_else() {
    for kind in [Kind::Missing, Kind::File] {
        match change_directory(&strings(&["cd", "x"]), kind) {
            Move::Fail { reason } => assert_eq!(reason, "Directory does not exist"),
            _ => panic!("x is no directory"),
        }
    }
}
