use shell_core::resolver::{
    candidates, executables, find_path, is_executable, is_valid_exe_in_current_path,
    is_valid_exe_in_path, probe_paths, resolve, search_directory, Probe,
};
use shell_core::search_path::{PathCache, Platform};
use std::path::Path;

fn strings(items: &[&str]) -> Vec<String> {
    items.iter().map(|s| s.to_string()).collect()
}

fn under(base: &str, rel: &str) -> String {
    Path::new(base).join(rel).to_string_lossy().into_owned()
}

const NONE: Probe = Probe { is_file: false, mode: 0 };
const PLAIN: Probe = Probe { is_file: true, mode: 0o644 };
const EXEC: Probe = Probe { is_file: true, mode: 0o755 };

fn cache(list: &str) -> PathCache {
    let mut c = PathCache::new();
    c.reload(list, Platform::Unix);
    c
}

#[test]
fn executable_extensions_in_order() {
    assert_eq!(executables(), vec!["exe", "bat", "com", "cmd"]);
}

#[test]
fn unix_executable_needs_an_execute_bit() {
    assert!(is_executable(Platform::Unix, "x", 0o755));
    assert!(is_executable(Platform::Unix, "x", 0o100));
    assert!(is_executable(Platform::Unix, "x", 0o010));
    assert!(is_executable(Platform::Unix, "x", 0o001));
    assert!(is_executable(Platform::Unix, "x.txt", 0o100644 | 0o001));
    assert!(!is_executable(Platform::Unix, "x.exe", 0o644));
    assert!(!is_executable(Platform::Unix, "x", 0));
    assert!(!is_executable(Platform::Unix, "x", 0o100666));
}

#[test]
fn windows_executable_needs_a_known_extension() {
    for p in ["a.exe", "dir/a.bat", "a.com", "a.b.cmd", ".exe"] {
        assert!(is_executable(Platform::Windows, p, 0));
    }
    for p in ["a", "aexe", "a.ex", "a.exe.txt", "a.EXE", "exe", "", "a.exe/"] {
        assert!(!is_executable(Platform::Windows, p, 0o777));
    }
}

#[test]
fn candidates_by_platform() {
    assert_eq!(candidates("ls", Platform::Unix), strings(&["ls"]));
    assert_eq!(
        candidates("ls", Platform::Windows),
        strings(&["ls", "ls.exe", "ls.bat", "ls.com", "ls.cmd"])
    );
}

#[test]
fn probe_paths_join_directory_and_candidate() {
    assert_eq!(probe_paths(".", "ls", Platform::Unix), vec![under(".", "ls")]);
    assert_eq!(probe_paths("/usr/bin", "ls", Platform::Unix), vec![under("/usr/bin", "ls")]);
    assert_eq!(
        probe_paths("bin", "run", Platform::Windows),
        vec![
            under("bin", "run"),
            under("bin", "run.exe"),
            under("bin", "run.bat"),
            under("bin", "run.com"),
            under("bin", "run.cmd"),
        ]
    );
}

#[test]
fn present_in_current_directory_resolves() {
    assert_eq!(
        is_valid_exe_in_current_path("tool", &vec![EXEC], Platform::Unix),
        Some(under(".", "tool"))
    );
    assert_eq!(is_valid_exe_in_current_path("tool", &vec![PLAIN], Platform::Unix), None);
    assert_eq!(is_valid_exe_in_current_path("tool", &vec![NONE], Platform::Unix), None);
    assert_eq!(is_valid_exe_in_current_path("tool", &vec![], Platform::Unix), None);
}

#[test]
fn names_with_directories_never_match() {
    assert_eq!(is_valid_exe_in_current_path("bin/tool", &vec![EXEC], Platform::Unix), None);
    assert_eq!(is_valid_exe_in_current_path("..", &vec![EXEC], Platform::Unix), None);
    assert_eq!(is_valid_exe_in_current_path("/bin/ls", &vec![EXEC], Platform::Unix), None);
    assert_eq!(is_valid_exe_in_current_path("tool/", &vec![EXEC], Platform::Unix), None);
}

#[test]
fn extension_is_tried_in_the_current_directory_too() {
    let probes = vec![NONE, NONE, EXEC, EXEC, NONE];
    assert_eq!(
        is_valid_exe_in_current_path("run", &probes, Platform::Windows),
        Some(under(".", "run.bat"))
    );
    let exact = vec![PLAIN, EXEC, NONE, NONE, NONE];
    assert_eq!(is_valid_exe_in_current_path("run", &exact, Platform::Windows), None);
    assert_eq!(
        is_valid_exe_in_current_path("run.exe", &exact, Platform::Windows),
        Some(under(".", "run.exe"))
    );
}

#[test]
fn search_path_takes_the_first_directory_with_a_match() {
    let c = cache("/a:/b:/c");
    let probes = vec![vec![NONE], vec![EXEC], vec![EXEC]];
    assert_eq!(is_valid_exe_in_path("ls", &c, &probes, Platform::Unix), Some(under("/b", "ls")));
    let plain_first = vec![vec![PLAIN], vec![NONE], vec![EXEC]];
    assert_eq!(
        is_valid_exe_in_path("ls", &c, &plain_first, Platform::Unix),
        Some(under("/c", "ls"))
    );
    let nothing = vec![vec![NONE], vec![PLAIN], vec![NONE]];
    assert_eq!(is_valid_exe_in_path("ls", &c, &nothing, Platform::Unix), None);
    assert_eq!(is_valid_exe_in_path("ls", &c, &vec![], Platform::Unix), None);
    assert_eq!(is_valid_exe_in_path("ls", &c, &vec![vec![NONE]], Platform::Unix), None);
}

#[test]
fn each_directory_tries_the_name_as_it_was_asked() {
    let mut c = PathCache::new();
    c.reload("one;two", Platform::Windows);
    let probes = vec![vec![NONE, EXEC, NONE, NONE, NONE], vec![EXEC, NONE, NONE, NONE, NONE]];
    let blocked = vec![vec![NONE, NONE, NONE, NONE, NONE], vec![NONE, NONE, EXEC, NONE, NONE]];
    assert_eq!(
        is_valid_exe_in_path("run", &c, &probes, Platform::Windows),
        Some(under("one", "run.exe"))
    );
    assert_eq!(
        is_valid_exe_in_path("run", &c, &blocked, Platform::Windows),
        Some(under("two", "run.bat"))
    );
}

#[test]
fn current_directory_wins_over_the_search_path() {
    let c = cache("/a:/b");
    let on_path = vec![vec![EXEC], vec![EXEC]];
    assert_eq!(
        resolve("tool", &vec![EXEC], &c, &on_path, Platform::Unix),
        Some(under(".", "tool"))
    );
    assert_eq!(
        resolve("tool", &vec![NONE], &c, &on_path, Platform::Unix),
        Some(under("/a", "tool"))
    );
    assert_eq!(resolve("tool", &vec![PLAIN], &c, &vec![vec![NONE], vec![NONE]], Platform::Unix), None);
}

#[test]
fn which_prints_path_or_not_found() {
    let c = cache("/a");
    assert_eq!(
        find_path(&strings(&["which", "tool"]), &vec![EXEC], &c, &vec![vec![EXEC]], Platform::Unix),
        vec![under(".", "tool")]
    );
    assert_eq!(
        find_path(&strings(&["which", "tool"]), &vec![NONE], &c, &vec![vec![EXEC]], Platform::Unix),
        vec![under("/a", "tool")]
    );
    assert_eq!(
        find_path(&strings(&["which", "nope"]), &vec![NONE], &c, &vec![vec![NONE]], Platform::Unix),
        strings(&["Could not find executable"])
    );
    assert_eq!(
        find_path(&strings(&["which"]), &vec![], &c, &vec![], Platform::Unix),
        strings(&["Syntax: which {pattern}"])
    );
}

#[test]
fn search_directory_uses_the_first_file_only() {
    let names = strings(&["a", "b"]);
    assert_eq!(
        search_directory("d", &names, &vec![PLAIN, EXEC], Platform::Unix),
        None
    );
    assert_eq!(
        search_directory("d", &names, &vec![NONE, EXEC], Platform::Unix),
        Some(under("d", "b"))
    );
    assert_eq!(search_directory("d", &names, &vec![NONE, NONE, EXEC], Platform::Unix), None);
}
