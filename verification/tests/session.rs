use shell_core::search_path::{PathCache, Platform};
use shell_core::paint::Tint;
use shell_core::session::{
    accept_line, is_blank, is_debug, prompt, prompt_text, History, HISTORY_CAPACITY,
};
use shell_core::variables::VariableStore;

fn strings(items: &[&str]) -> Vec<String> {
    items.iter().map(|s| s.to_string()).collect()
}

#[test]
fn blank_lines() {
    assert!(is_blank(""));
    assert!(is_blank("   "));
    assert!(!is_blank(" a "));
    assert!(!is_blank("\t"));
}

#[test]
fn history_keeps_lines_in_order() {
    let mut h = History::new();
    h.record("ls");
    h.record("cd src");
    assert_eq!(h.lines(), strings(&["ls", "cd src"]));
    assert_eq!(h.len(), 2);
}

#[test]
fn history_skips_blank_and_repeated_lines() {
    let mut h = History::new();
    h.record("");
    h.record("  ");
    h.record("ls");
    h.record("ls");
    h.record("pwd");
    h.record("ls");
    assert_eq!(h.lines(), strings(&["ls", "pwd", "ls"]));
}

#[test]
fn history_evicts_the_oldest_at_capacity() {
    assert_eq!(HISTORY_CAPACITY, 100);
    let mut h = History::new();
    for i in 0..100 {
        h.record(&format!("cmd {}", i));
    }
    assert_eq!(h.len(), 100);
    assert_eq!(h.lines()[0], "cmd 0");
    h.record("cmd 100");
    assert_eq!(h.len(), 100);
    assert_eq!(h.lines()[0], "cmd 1");
    assert_eq!(h.lines()[99], "cmd 100");
    h.record("cmd 100");
    assert_eq!(h.lines()[0], "cmd 1");
    h.record("cmd 101");
    assert_eq!(h.lines()[0], "cmd 2");
    assert_eq!(h.len(), 100);
}

#[test]
fn accepted_line_is_trimmed_recorded_and_substituted() {
    let mut h = History::new();
    let mut vars = VariableStore::new();
    vars.set("who", "world").unwrap();
    let mut paths = PathCache::new();
    paths.reload("/bin:/usr/bin", Platform::Unix);
    let line = accept_line("  echo $who$ $PATH$ \t", &mut h, &vars, &paths, Platform::Unix);
    assert_eq!(line, "echo world /bin:/usr/bin");
    assert_eq!(h.lines(), strings(&["echo $who$ $PATH$"]));
    let line = accept_line("   ", &mut h, &vars, &paths, Platform::Unix);
    assert_eq!(line, "");
    assert_eq!(h.len(), 1);
}

#[test]
fn a_variable_named_path_wins_over_the_path_list() {
    let mut h = History::new();
    let mut vars = VariableStore::new();
    vars.set("PATH", "mine").unwrap();
    let mut paths = PathCache::new();
    paths.reload("/bin", Platform::Unix);
    assert_eq!(accept_line("$PATH$", &mut h, &vars, &paths, Platform::Unix), "mine");
}

#[test]
fn prompt_shows_slashes() {
    assert_eq!(prompt_text(Some("C:\\Users\\me".to_string())), "C:/Users/me");
    assert_eq!(prompt_text(Some("/home/me".to_string())), "/home/me");
    assert_eq!(prompt_text(None), "???");
    let painted = prompt(Some("C:\\work".to_string()));
    assert_eq!(painted.text, "C:/work");
    assert_eq!(painted.tint, Tint::Blue);
    assert!(painted.shown.contains("C:/work"));
}

#[test]
fn debug_flag() {
    assert!(is_debug(&strings(&["shell", "--debug"])));
    assert!(is_debug(&strings(&["--debug", "x"])));
    assert!(!is_debug(&strings(&["shell", "--Debug", "-debug"])));
    assert!(!is_debug(&Vec::new()));
}
