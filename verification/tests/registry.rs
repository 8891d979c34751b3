use shell_core::commands::{create_commands, find_command, help_command, Handler};

#[test]
fn registry_holds_the_twelve_builtins_in_order() {
    let cmds = create_commands();
    let names: Vec<&str> = cmds.iter().map(|c| c.name.as_str()).collect();
    assert_eq!(
        names,
        vec![
            "help", "echo", "exit", "cd", "set", "list", "ls", "reload-path", "which", "mkdir",
            "rm", "cp"
        ]
    );
    assert_eq!(cmds[0].help, "Shows this help menu");
    assert_eq!(cmds[11].help, "Copy a file/directory (recursive)");
    assert_eq!(cmds[10].func, Handler::Remove);
}

#[test]
fn find_command_is_exact_and_case_sensitive() {
    let cmds = create_commands();
    assert_eq!(find_command(&cmds, &"ls".to_string()), Some(6));
    assert_eq!(find_command(&cmds, &"LS".to_string()), None);
    assert_eq!(find_command(&cmds, &"l".to_string()), None);
}

#[test]
fn help_is_sorted_and_padded() {
    let lines = help_command();
    assert_eq!(lines.len(), 12);
    assert_eq!(lines[0], "cd           Change the current directory");
    assert_eq!(lines[1], "cp           Copy a file/directory (recursive)");
    assert_eq!(lines[8], "reload-path  Reloads PATH");
    assert_eq!(lines[11], "which        Finds an executable in PATH");
    let mut sorted = lines.clone();
    sorted.sort();
    assert_eq!(sorted, lines);
}
