use shell_core::fileops::{
    Answer, CopyJob, CopyStage, Kind, MakeJob, Notice, RemoveJob, RemoveStage, Request, Step,
    Walked, CHUNK,
};
use std::path::Path;

fn strings(items: &[&str]) -> Vec<String> {
    items.iter().map(|s| s.to_string()).collect()
}

fn item(path: &str, is_dir: bool) -> Walked {
    Walked::Item { path: path.to_string(), is_dir }
}

fn under(base: &str, rel: &str) -> String {
    Path::new(base).join(rel).to_string_lossy().into_owned()
}

fn done() -> Answer {
    Answer::Done { cancel: false }
}

fn aborted() -> Answer {
    Answer::Done { cancel: true }
}

fn says(step: &Step) -> Vec<String> {
    let mut out = Vec::new();
    for n in &step.notices {
        match n {
            Notice::Say { line } => out.push(format!("say:{}", line)),
            Notice::Start { total } => out.push(format!("start:{}", total)),
            Notice::Advance { by } => out.push(format!("advance:{}", by)),
            Notice::Stop { message } => out.push(format!("stop:{}", message)),
        }
    }
    out
}

fn asks(step: &Step) -> String {
    match &step.request {
        Request::Inspect { path } => format!("inspect {}", path),
        Request::Count { path } => format!("count {}", path),
        Request::Walk { path, contents_first } => format!("walk {} {}", path, contents_first),
        Request::CreateDir { path } => format!("mkdir {}", path),
        Request::CreateTree { path } => format!("mkdirs {}", path),
        Request::CopyFile { from, to } => format!("copy {} {}", from, to),
        Request::RemoveDir { path } => format!("rmdir {}", path),
        Request::RemoveFile { path } => format!("rm {}", path),
        Request::OpenSource { path } => format!("open {}", path),
        Request::CreateTarget { path } => format!("create {}", path),
        Request::CopyChunk { limit } => format!("chunk {}", limit),
        Request::Finish { error: None } => "finish ok".to_string(),
        Request::Finish { error: Some(e) } => format!("finish err {}", e),
    }
}

fn tree() -> Vec<Walked> {
    vec![
        item("src", true),
        item("src/a.txt", false),
        item("src/sub", true),
        item("src/sub/b.txt", false),
        item("src/sub/deep", true),
        item("src/c.txt", false),
    ]
}

#[test]
fn copy_needs_two_paths() {
    for args in [strings(&["cp"]), strings(&["cp", "a"]), strings(&["cp", "a", "b", "c"])] {
        let (job, step) = CopyJob::start(&args);
        assert!(job.is_finished());
        assert_eq!(
            says(&step),
            ["say:Syntax: copy {source directory/file} {destination directory/file}"]
        );
        assert_eq!(asks(&step), "finish ok");
    }
}

#[test]
fn copy_of_a_missing_source_is_reported_not_failed() {
    let (mut job, step) = CopyJob::start(&strings(&["cp", "nope", "dst"]));
    assert_eq!(asks(&step), "inspect nope");
    assert_eq!(job.stage(), CopyStage::Inspecting);
    let step = job.advance(Answer::Found { kind: Kind::Missing });
    assert_eq!(says(&step), ["say:Path does not exist"]);
    assert_eq!(asks(&step), "finish ok");
    assert!(job.is_finished());
}

#[test]
fn copy_of_a_tree_places_every_entry_in_walk_order() {
    let (mut job, _) = CopyJob::start(&strings(&["cp", "src", "dst"]));
    let step = job.advance(Answer::Found { kind: Kind::Directory });
    assert_eq!(asks(&step), "count src");
    let step = job.advance(Answer::Counted { total: 6 });
    assert_eq!(says(&step), ["start:6"]);
    assert_eq!(asks(&step), "walk src false");
    assert_eq!(job.total(), 6);
    let mut step = job.advance(Answer::Listed { entries: tree() });
    let expected = [
        format!("mkdir {}", under("dst", "")),
        format!("copy src/a.txt {}", under("dst", "a.txt")),
        format!("mkdir {}", under("dst", "sub")),
        format!("copy src/sub/b.txt {}", under("dst", "sub/b.txt")),
        format!("mkdir {}", under("dst", "sub/deep")),
        format!("copy src/c.txt {}", under("dst", "c.txt")),
    ];
    for (k, want) in expected.iter().enumerate() {
        assert_eq!(&asks(&step), want);
        assert_eq!(job.done(), k);
        assert_eq!(job.stage(), CopyStage::Placing);
        step = job.advance(done());
    }
    assert_eq!(says(&step), ["advance:1", "stop:Copied src"]);
    assert_eq!(asks(&step), "finish ok");
    assert_eq!(job.done(), 6);
    assert!(job.is_finished());
    assert!(!job.was_aborted());
}

#[test]
fn copy_target_paths_are_joined_by_the_path_rules() {
    let (mut job, _) = CopyJob::start(&strings(&["cp", "src", "out/"]));
    job.advance(Answer::Found { kind: Kind::Directory });
    job.advance(Answer::Counted { total: 1 });
    let step = job.advance(Answer::Listed { entries: vec![item("src/x", false)] });
    assert_eq!(asks(&step), "copy src/x out/x");
}

#[test]
fn copy_into_an_existing_tree_fails_at_the_first_entry() {
    let (mut job, _) = CopyJob::start(&strings(&["cp", "src", "dst"]));
    job.advance(Answer::Found { kind: Kind::Directory });
    job.advance(Answer::Counted { total: 6 });
    let step = job.advance(Answer::Listed { entries: tree() });
    assert_eq!(asks(&step), format!("mkdir {}", under("dst", "")));
    let step = job.advance(Answer::Failed { reason: "File exists (os error 17)".to_string() });
    assert_eq!(asks(&step), "finish err File exists (os error 17)");
    assert!(says(&step).is_empty());
    assert!(job.is_finished());
}

#[test]
fn cancelled_tree_copy_stops_without_cleanup() {
    let (mut job, _) = CopyJob::start(&strings(&["cp", "src", "dst"]));
    job.advance(Answer::Found { kind: Kind::Directory });
    job.advance(Answer::Counted { total: 6 });
    job.advance(Answer::Listed { entries: tree() });
    job.advance(done());
    let step = job.advance(done());
    assert_eq!(asks(&step), format!("mkdir {}", under("dst", "sub")));
    let step = job.advance(aborted());
    assert_eq!(
        says(&step),
        ["advance:1", "stop:Copy stopped (cannot undo already copied files)"]
    );
    assert_eq!(asks(&step), "finish ok");
    assert_eq!(job.done(), 3);
    assert!(job.is_finished());
    assert!(job.was_aborted());
    let step = job.advance(done());
    assert_eq!(asks(&step), "finish ok");
    assert!(says(&step).is_empty());
}

#[test]
fn copy_stops_on_a_broken_walk_entry() {
    let (mut job, _) = CopyJob::start(&strings(&["cp", "src", "dst"]));
    job.advance(Answer::Found { kind: Kind::Directory });
    job.advance(Answer::Counted { total: 2 });
    let entries = vec![item("src", true), Walked::Broken { reason: "permission denied".to_string() }];
    job.advance(Answer::Listed { entries });
    let step = job.advance(done());
    assert_eq!(says(&step), ["advance:1"]);
    assert_eq!(asks(&step), "finish err permission denied");
}

#[test]
fn copy_refuses_an_entry_outside_the_source() {
    let (mut job, _) = CopyJob::start(&strings(&["cp", "src", "dst"]));
    job.advance(Answer::Found { kind: Kind::Directory });
    job.advance(Answer::Counted { total: 1 });
    let step = job.advance(Answer::Listed { entries: vec![item("elsewhere/x", false)] });
    assert_eq!(asks(&step), "finish err prefix not found");
}

#[test]
fn copy_of_an_empty_walk_is_complete() {
    let (mut job, _) = CopyJob::start(&strings(&["cp", "src", "dst"]));
    job.advance(Answer::Found { kind: Kind::Directory });
    job.advance(Answer::Counted { total: 0 });
    let step = job.advance(Answer::Listed { entries: Vec::new() });
    assert_eq!(says(&step), ["stop:Copied src"]);
    assert_eq!(asks(&step), "finish ok");
}

#[test]
fn single_file_copy_streams_in_chunks() {
    assert_eq!(CHUNK, 2048);
    let (mut job, _) = CopyJob::start(&strings(&["cp", "a.bin", "b.bin"]));
    let step = job.advance(Answer::Found { kind: Kind::File });
    assert_eq!(asks(&step), "open a.bin");
    let step = job.advance(Answer::Opened { len: 5000 });
    assert_eq!(says(&step), ["start:5000"]);
    assert_eq!(asks(&step), "create b.bin");
    assert_eq!(job.total(), 5000);
    let step = job.advance(done());
    assert_eq!(asks(&step), "chunk 2048");
    let step = job.advance(Answer::Copied { bytes: 2048, cancel: false });
    assert_eq!(says(&step), ["advance:2048"]);
    assert_eq!(asks(&step), "chunk 2048");
    job.advance(Answer::Copied { bytes: 2048, cancel: false });
    let step = job.advance(Answer::Copied { bytes: 904, cancel: false });
    assert_eq!(says(&step), ["advance:904"]);
    assert_eq!(asks(&step), "chunk 2048");
    let step = job.advance(Answer::Copied { bytes: 0, cancel: false });
    assert_eq!(says(&step), ["stop:Copied a.bin"]);
    assert_eq!(asks(&step), "finish ok");
    assert!(job.is_finished());
}

#[test]
fn cancelled_single_file_copy_removes_the_target() {
    let (mut job, _) = CopyJob::start(&strings(&["cp", "a.bin", "b.bin"]));
    job.advance(Answer::Found { kind: Kind::File });
    job.advance(Answer::Opened { len: 5000 });
    job.advance(done());
    let step = job.advance(Answer::Copied { bytes: 2048, cancel: true });
    assert_eq!(says(&step), ["advance:2048", "stop:Copy stopped"]);
    assert_eq!(asks(&step), "rm b.bin");
    assert_eq!(job.stage(), CopyStage::Undoing);
    assert!(job.was_aborted());
    let step = job.advance(done());
    assert_eq!(asks(&step), "finish ok");
    assert!(job.is_finished());
}

#[test]
fn failed_rollback_is_an_error() {
    let (mut job, _) = CopyJob::start(&strings(&["cp", "a.bin", "b.bin"]));
    job.advance(Answer::Found { kind: Kind::File });
    job.advance(Answer::Opened { len: 10 });
    job.advance(done());
    job.advance(Answer::Copied { bytes: 10, cancel: true });
    let step = job.advance(Answer::Failed { reason: "busy".to_string() });
    assert_eq!(asks(&step), "finish err Could not delete already copied file data: busy");
}

#[test]
fn single_file_copy_errors_leave_the_target_alone() {
    let (mut job, _) = CopyJob::start(&strings(&["cp", "a.bin", "b.bin"]));
    job.advance(Answer::Found { kind: Kind::File });
    job.advance(Answer::Opened { len: 10 });
    job.advance(done());
    let step = job.advance(Answer::Failed { reason: "read error".to_string() });
    assert_eq!(asks(&step), "finish err read error");
    assert!(says(&step).is_empty());

    let (mut job, _) = CopyJob::start(&strings(&["cp", "a.bin", "b.bin"]));
    job.advance(Answer::Found { kind: Kind::File });
    let step = job.advance(Answer::Failed { reason: "no access".to_string() });
    assert_eq!(asks(&step), "finish err no access");
}

#[test]
fn an_answer_that_does_not_fit_ends_the_job() {
    let (mut job, _) = CopyJob::start(&strings(&["cp", "a", "b"]));
    let step = job.advance(Answer::Counted { total: 3 });
    assert_eq!(asks(&step), "finish err unexpected answer");
    let (mut job, _) = RemoveJob::start(&strings(&["rm", "a"]));
    let step = job.advance(Answer::Opened { len: 3 });
    assert_eq!(asks(&step), "finish err unexpected answer");
}

#[test]
fn remove_needs_a_path() {
    let (job, step) = RemoveJob::start(&strings(&["rm"]));
    assert!(job.is_finished());
    assert_eq!(says(&step), ["say:Syntax: rm {directory/file}"]);
    assert_eq!(asks(&step), "finish ok");
}

#[test]
fn remove_deletes_files_in_argument_order() {
    let (mut job, step) = RemoveJob::start(&strings(&["rm", "a", "b"]));
    assert_eq!(asks(&step), "inspect a");
    let step = job.advance(Answer::Found { kind: Kind::File });
    assert_eq!(asks(&step), "rm a");
    assert_eq!(job.stage(), RemoveStage::DeletingFile);
    let step = job.advance(done());
    assert_eq!(says(&step), ["say:Deleted a"]);
    assert_eq!(asks(&step), "inspect b");
    let step = job.advance(Answer::Found { kind: Kind::File });
    assert_eq!(asks(&step), "rm b");
    let step = job.advance(aborted());
    assert_eq!(says(&step), ["say:Deleted b"]);
    assert_eq!(asks(&step), "finish ok");
    assert!(job.is_finished());
}

#[test]
fn first_missing_path_ends_the_whole_delete() {
    let (mut job, _) = RemoveJob::start(&strings(&["rm", "a", "nope", "c"]));
    job.advance(Answer::Found { kind: Kind::File });
    let step = job.advance(done());
    assert_eq!(asks(&step), "inspect nope");
    let step = job.advance(Answer::Found { kind: Kind::Missing });
    assert_eq!(says(&step), ["say:Path does not exist"]);
    assert_eq!(asks(&step), "finish ok");
    assert!(job.is_finished());
}

fn contents_first() -> Vec<Walked> {
    vec![
        item("d/a.txt", false),
        item("d/sub/b.txt", false),
        item("d/sub", true),
        item("d/c.txt", false),
        item("d", true),
    ]
}

#[test]
fn remove_of_a_tree_goes_contents_first() {
    let (mut job, _) = RemoveJob::start(&strings(&["rm", "d"]));
    let step = job.advance(Answer::Found { kind: Kind::Directory });
    assert_eq!(asks(&step), "count d");
    let step = job.advance(Answer::Counted { total: 5 });
    assert_eq!(says(&step), ["start:5"]);
    assert_eq!(asks(&step), "walk d true");
    let mut step = job.advance(Answer::Listed { entries: contents_first() });
    for want in ["rm d/a.txt", "rm d/sub/b.txt", "rmdir d/sub", "rm d/c.txt", "rmdir d"] {
        assert_eq!(asks(&step), want);
        assert_eq!(job.stage(), RemoveStage::Deleting);
        step = job.advance(done());
    }
    assert_eq!(says(&step), ["advance:1", "stop:Deleted d"]);
    assert_eq!(asks(&step), "finish ok");
    assert_eq!(job.done(), 5);
    assert_eq!(job.total(), 5);
}

#[test]
fn cancelled_delete_asks_for_nothing_more() {
    let (mut job, _) = RemoveJob::start(&strings(&["rm", "d", "e"]));
    job.advance(Answer::Found { kind: Kind::Directory });
    job.advance(Answer::Counted { total: 5 });
    job.advance(Answer::Listed { entries: contents_first() });
    let step = job.advance(done());
    assert_eq!(asks(&step), "rm d/sub/b.txt");
    let step = job.advance(aborted());
    assert_eq!(
        says(&step),
        ["advance:1", "stop:Deletion stopped (cannot recover already deleted files)"]
    );
    assert_eq!(asks(&step), "finish ok");
    assert_eq!(job.done(), 2);
    assert!(job.was_aborted());
    for _ in 0..3 {
        let step = job.advance(done());
        assert_eq!(asks(&step), "finish ok");
        assert!(says(&step).is_empty());
    }
}

#[test]
fn delete_failure_is_final() {
    let (mut job, _) = RemoveJob::start(&strings(&["rm", "d", "e"]));
    job.advance(Answer::Found { kind: Kind::Directory });
    job.advance(Answer::Counted { total: 5 });
    job.advance(Answer::Listed { entries: contents_first() });
    let step = job.advance(Answer::Failed { reason: "denied".to_string() });
    assert_eq!(asks(&step), "finish err denied");
    assert!(job.is_finished());
}

#[test]
fn delete_moves_on_after_a_tree() {
    let (mut job, _) = RemoveJob::start(&strings(&["rm", "d", "f"]));
    job.advance(Answer::Found { kind: Kind::Directory });
    job.advance(Answer::Counted { total: 1 });
    job.advance(Answer::Listed { entries: vec![item("d", true)] });
    let step = job.advance(done());
    assert_eq!(says(&step), ["advance:1", "stop:Deleted d"]);
    assert_eq!(asks(&step), "inspect f");
}

#[test]
fn mkdir_needs_a_path() {
    let (job, step) = MakeJob::start(&strings(&["mkdir"]));
    assert!(job.is_finished());
    assert_eq!(says(&step), ["say:Syntax: mkdir {directory}"]);
    assert_eq!(asks(&step), "finish ok");
}

#[test]
fn mkdir_creates_each_missing_path_and_stops_at_an_existing_one() {
    let (mut job, step) = MakeJob::start(&strings(&["mkdir", "a/b", "a", "c"]));
    assert_eq!(asks(&step), "inspect a/b");
    let step = job.advance(Answer::Found { kind: Kind::Missing });
    assert_eq!(asks(&step), "mkdirs a/b");
    let step = job.advance(done());
    assert_eq!(asks(&step), "inspect a");
    let step = job.advance(Answer::Found { kind: Kind::Directory });
    assert_eq!(says(&step), ["say:Path already exists"]);
    assert_eq!(asks(&step), "finish ok");
    assert!(job.is_finished());
}

#[test]
fn mkdir_finishes_and_fails() {
    let (mut job, _) = MakeJob::start(&strings(&["mkdir", "a"]));
    job.advance(Answer::Found { kind: Kind::Missing });
    let step = job.advance(done());
    assert_eq!(asks(&step), "finish ok");
    assert!(says(&step).is_empty());

    let (mut job, _) = MakeJob::start(&strings(&["mkdir", "a"]));
    job.advance(Answer::Found { kind: Kind::Missing });
    let step = job.advance(Answer::Failed { reason: "read-only".to_string() });
    assert_eq!(asks(&step), "finish err read-only");

    let (mut job, _) = MakeJob::start(&strings(&["mkdir", "a"]));
    let step = job.advance(Answer::Found { kind: Kind::File });
    assert_eq!(says(&step), ["say:Path already exists"]);
}
