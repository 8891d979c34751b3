use shell_core::commands::create_commands;
use shell_core::dispatch::{
    dispatch, error_report, launch, raw_remainder, route, syntax_error, syntax_report, tokenize,
    Launch, Route, SyntaxError,
};
use shell_core::paint::Tint;

fn strings(items: &[&str]) -> Vec<String> {
    items.iter().map(|s| s.to_string()).collect()
}

#[test]
fn tokenize_splits_like_a_shell() {
    assert_eq!(
        tokenize("here are \"two words\"").unwrap(),
        strings(&["here", "are", "two words"])
    );
    assert_eq!(tokenize("cat file.txt | less").unwrap(), strings(&["cat", "file.txt", "|", "less"]));
    assert_eq!(tokenize("a 'b c' d\\ e").unwrap(), strings(&["a", "b c", "d e"]));
    assert_eq!(tokenize("").unwrap(), Vec::<String>::new());
    assert_eq!(tokenize("   ").unwrap(), Vec::<String>::new());
}

#[test]
fn tokenize_reports_mismatched_quotes() {
    assert_eq!(tokenize("echo \"open"), Err(SyntaxError::MismatchedQuotes));
    assert_eq!(tokenize("echo 'open"), Err(SyntaxError::MismatchedQuotes));
    assert_eq!(SyntaxError::MismatchedQuotes.message(), "Mismatched quotes");
}

#[test]
fn mismatched_quotes_run_nothing() {
    let cmds = create_commands();
    assert!(matches!(dispatch("echo \"open", &cmds), Err(SyntaxError::MismatchedQuotes)));
}

#[test]
fn empty_line_is_a_no_op() {
    let cmds = create_commands();
    assert!(matches!(dispatch("", &cmds), Ok(Route::Nothing)));
    assert!(matches!(dispatch("    ", &cmds), Ok(Route::Nothing)));
}

#[test]
fn builtin_gets_tokens_and_raw_remainder() {
    let cmds = create_commands();
    match dispatch("echo  hello   \"big world\"", &cmds) {
        Ok(Route::BuiltIn { index, tokens, remainder }) => {
            assert_eq!(cmds[index].name, "echo");
            assert_eq!(tokens, strings(&["echo", "hello", "big world"]));
            assert_eq!(remainder, " hello   \"big world\"");
        }
        _ => panic!("echo is a built-in"),
    }
}

#[test]
fn builtin_names_are_case_sensitive() {
    let cmds = create_commands();
    match dispatch("ECHO hi", &cmds) {
        Ok(Route::External { tokens }) => assert_eq!(tokens, strings(&["ECHO", "hi"])),
        _ => panic!("ECHO is no built-in"),
    }
}

#[test]
fn unknown_word_goes_to_the_resolver() {
    let cmds = create_commands();
    match dispatch("zzzz -x", &cmds) {
        Ok(Route::External { tokens }) => assert_eq!(tokens, strings(&["zzzz", "-x"])),
        _ => panic!("zzzz is no built-in"),
    }
}

#[test]
fn route_picks_the_first_command_of_a_name() {
    let mut cmds = create_commands();
    let mut twin = cmds[1].clone();
    twin.help = "second echo".to_string();
    cmds.push(twin);
    match route(strings(&["echo"]), "echo", &cmds) {
        Route::BuiltIn { index, remainder, .. } => {
            assert_eq!(index, 1);
            assert_eq!(remainder, "");
        }
        _ => panic!("echo is a built-in"),
    }
}

#[test]
fn raw_remainder_drops_name_and_one_character() {
    assert_eq!(raw_remainder("echo hi there", "echo"), "hi there");
    assert_eq!(raw_remainder("echo", "echo"), "");
    assert_eq!(raw_remainder("echo ", "echo"), "");
    assert_eq!(raw_remainder("ls\u{3000}é", "ls"), "é");
    assert_eq!(raw_remainder("", "cd"), "");
}

#[test]
fn unknown_command_gives_one_not_found_message() {
    let tokens = strings(&["zzzz"]);
    match launch(&tokens, None) {
        Launch::Missing { message } => {
            assert_eq!(message, "zzzz does not exist as a command or executable")
        }
        _ => panic!("nothing was resolved"),
    }
    let cmds = create_commands();
    assert!(matches!(dispatch("help", &cmds), Ok(Route::BuiltIn { .. })));
}

#[test]
fn resolved_executable_is_spawned_with_the_other_words() {
    let tokens = strings(&["prog", "a", "b c"]);
    match launch(&tokens, Some("./prog".to_string())) {
        Launch::Spawn { program, args } => {
            assert_eq!(program, "./prog");
            assert_eq!(args, strings(&["a", "b c"]));
        }
        _ => panic!("the program was resolved"),
    }
    match launch(&Vec::new(), Some("x".to_string())) {
        Launch::Spawn { args, .. } => assert!(args.is_empty()),
        _ => panic!("the program was resolved"),
    }
    match launch(&Vec::new(), None) {
        Launch::Missing { message } => {
            assert_eq!(message, " does not exist as a command or executable")
        }
        _ => panic!("nothing was resolved"),
    }
}

#[test]
fn reports_carry_their_tags() {
    assert_eq!(error_report(360, "disk full"), "Error (line: 360): disk full");
    assert_eq!(error_report(0, ""), "Error (line: 0): ");
    assert_eq!(syntax_report("Mismatched quotes"), "Syntax Error: Mismatched quotes");
    let painted = syntax_error("Mismatched quotes");
    assert_eq!(painted.text, "Syntax Error: Mismatched quotes");
    assert_eq!(painted.tint, Tint::Red);
    assert!(painted.shown.contains("Syntax Error: Mismatched quotes"));
}
