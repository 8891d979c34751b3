use shell_core::editor::{Editor, Key, Paint, Pressed};

fn strings(items: &[&str]) -> Vec<String> {
    items.iter().map(|s| s.to_string()).collect()
}

fn drawn(pressed: &Pressed) -> Vec<String> {
    pressed
        .paints
        .iter()
        .map(|p| match p {
            Paint::Hide => "hide".to_string(),
            Paint::Show => "show".to_string(),
            Paint::Write { text } => format!("write[{}]", text),
            Paint::Left { by } => format!("left{}", by),
            Paint::Right { by } => format!("right{}", by),
            Paint::NewLine => "newline".to_string(),
        })
        .collect()
}

fn type_text(editor: &mut Editor, text: &str) {
    for c in text.chars() {
        editor.press(Key::Char(c), &Vec::new());
    }
}

#[test]
fn typed_text_is_the_line() {
    let mut e = Editor::new();
    type_text(&mut e, "echo héllo");
    assert_eq!(e.text(), "echo héllo");
    assert_eq!(e.cursor(), 10);
    let out = e.press(Key::Enter, &Vec::new());
    assert_eq!(out.line, Some("echo héllo".to_string()));
    assert_eq!(drawn(&out), ["newline"]);
}

#[test]
fn a_character_goes_in_at_the_cursor() {
    let mut e = Editor::new();
    type_text(&mut e, "ac");
    e.press(Key::ArrowLeft, &Vec::new());
    let out = e.press(Key::Char('b'), &Vec::new());
    assert_eq!(e.text(), "abc");
    assert_eq!(e.cursor(), 2);
    assert_eq!(drawn(&out), ["hide", "write[bc]", "left2", "show", "right1"]);
    assert_eq!(out.line, None);
}

#[test]
fn tabs_are_not_typed() {
    let mut e = Editor::new();
    type_text(&mut e, "a");
    let out = e.press(Key::Char('\t'), &Vec::new());
    assert!(out.paints.is_empty());
    assert_eq!(e.text(), "a");
}

#[test]
fn backspace_takes_the_character_before_the_cursor() {
    let mut e = Editor::new();
    type_text(&mut e, "abc");
    e.press(Key::ArrowLeft, &Vec::new());
    let out = e.press(Key::Backspace, &Vec::new());
    assert_eq!(e.text(), "ac");
    assert_eq!(e.cursor(), 1);
    assert_eq!(drawn(&out), ["hide", "left1", "write[c]", "write[ ]", "left2", "show"]);
    e.press(Key::Backspace, &Vec::new());
    assert_eq!(e.text(), "c");
    let out = e.press(Key::Backspace, &Vec::new());
    assert!(out.paints.is_empty());
    assert_eq!(e.text(), "c");
    assert_eq!(e.cursor(), 0);
}

#[test]
fn delete_takes_the_character_under_the_cursor() {
    let mut e = Editor::new();
    type_text(&mut e, "abc");
    e.press(Key::Home, &Vec::new());
    let out = e.press(Key::Del, &Vec::new());
    assert_eq!(e.text(), "bc");
    assert_eq!(e.cursor(), 0);
    assert_eq!(drawn(&out), ["hide", "write[bc]", "write[ ]", "left3", "show"]);
    e.press(Key::End, &Vec::new());
    let out = e.press(Key::Del, &Vec::new());
    assert!(out.paints.is_empty());
    assert_eq!(e.text(), "bc");
}

#[test]
fn arrows_home_and_end_move_within_the_line() {
    let mut e = Editor::new();
    type_text(&mut e, "abc");
    assert!(e.press(Key::ArrowRight, &Vec::new()).paints.is_empty());
    assert_eq!(drawn(&e.press(Key::ArrowLeft, &Vec::new())), ["left1"]);
    assert_eq!(e.cursor(), 2);
    assert_eq!(drawn(&e.press(Key::Home, &Vec::new())), ["left2"]);
    assert_eq!(e.cursor(), 0);
    assert!(e.press(Key::ArrowLeft, &Vec::new()).paints.is_empty());
    assert_eq!(drawn(&e.press(Key::ArrowRight, &Vec::new())), ["right1"]);
    assert_eq!(drawn(&e.press(Key::End, &Vec::new())), ["right2"]);
    assert_eq!(e.cursor(), 3);
    assert!(e.press(Key::Other, &Vec::new()).paints.is_empty());
}

#[test]
fn up_and_down_browse_the_history() {
    let history = strings(&["first", "second one", "3"]);
    let mut e = Editor::new();
    type_text(&mut e, "typed");
    let out = e.press(Key::ArrowUp, &history);
    assert_eq!(e.text(), "3");
    assert_eq!(e.cursor(), 1);
    assert_eq!(drawn(&out), ["left5", "write[3]", "write[    ]", "left4"]);
    let out = e.press(Key::ArrowUp, &history);
    assert_eq!(e.text(), "second one");
    assert_eq!(drawn(&out), ["left1", "write[second one]"]);
    e.press(Key::ArrowUp, &history);
    assert_eq!(e.text(), "first");
    e.press(Key::ArrowUp, &history);
    assert_eq!(e.text(), "first");
    e.press(Key::ArrowDown, &history);
    assert_eq!(e.text(), "second one");
    e.press(Key::ArrowDown, &history);
    e.press(Key::ArrowDown, &history);
    assert_eq!(e.text(), "3");
    assert_eq!(e.press(Key::Enter, &history).line, Some("3".to_string()));
}

#[test]
fn browsing_needs_a_history() {
    let mut e = Editor::new();
    type_text(&mut e, "x");
    assert!(e.press(Key::ArrowUp, &Vec::new()).paints.is_empty());
    assert!(e.press(Key::ArrowDown, &strings(&["a"])).paints.is_empty());
    assert_eq!(e.text(), "x");
}
