//! The search for an executable: in the current directory first, then in the
//! directories of the path cache, in their order. The caller looks at the file
//! system and reports what it found; the rules of the search are here.

use vstd::prelude::*;
use vstd::string::*;

use crate::pathname::{file_name, join, path_file_name, path_join};
use crate::search_path::{PathCache, Platform};
use crate::text::{matches_at, occurs_at, to_chars};

verus! {

/// The extensions that make a file executable where extensions decide, in the
/// order in which they are tried.
pub open spec fn extensions() -> Seq<Seq<char>> {
    seq!["exe"@, "bat"@, "com"@, "cmd"@]
}

/// The extensions that make a file executable where extensions decide.
pub fn executables() -> (out: Vec<&'static str>)
    ensures
        out.deep_view() == extensions(),
{
    let mut out: Vec<&'static str> = Vec::new();
    out.push("exe");
    out.push("bat");
    out.push("com");
    out.push("cmd");
    assert(out.deep_view() =~= extensions());
    out
}

/// Whether `path` ends in a dot and `ext`.
pub open spec fn has_extension(path: Seq<char>, ext: Seq<char>) -> bool {
    occurs_at(path, path.len() - ext.len() - 1, seq!['.'] + ext)
}

/// Whether a file counts as executable: by an execute bit of its mode where
/// permissions decide, and by its extension where extensions decide.
pub open spec fn executable(platform: Platform, path: Seq<char>, mode: u32) -> bool {
    match platform {
        Platform::Unix => mode & 0o111 != 0,
        Platform::Windows => exists|k: int|
            0 <= k < extensions().len() && has_extension(path, #[trigger] extensions()[k]),
    }
}

/// Tests whether the file at `path`, with the permission bits `mode`, counts as
/// executable.
pub fn is_executable(platform: Platform, path: &str, mode: u32) -> (out: bool)
    ensures
        out == executable(platform, path@, mode),
{
    match platform {
        Platform::Unix => mode & 0o111 != 0,
        Platform::Windows => {
            let chars = to_chars(path);
            let exts = executables();
            let mut k: usize = 0;
            while k < exts.len()
                invariant
                    k <= exts.len(),
                    platform == Platform::Windows,
                    chars@ == path@,
                    exts.deep_view() == extensions(),
                    forall|j: int| 0 <= j < k ==> !has_extension(path@, #[trigger] extensions()[j]),
                decreases exts.len() - k,
            {
                let mut suffix = ".".to_owned();
                suffix.append(exts[k]);
                let tail = to_chars(suffix.as_str());
                proof {
                    reveal_strlit(".");
                    assert(exts.deep_view()[k as int] == exts[k as int]@);
                    assert(tail@ =~= seq!['.'] + extensions()[k as int]);
                }
                if tail.len() <= chars.len() && matches_at(&chars, chars.len() - tail.len(), &tail) {
                    return true;
                }
                k = k + 1;
            }
            false
        },
    }
}

/// The file names that are tried for `file` in a directory, in their order: the
/// name itself, and where extensions decide the name with each extension.
pub open spec fn candidate_names(file: Seq<char>, platform: Platform) -> Seq<Seq<char>> {
    match platform {
        Platform::Unix => seq![file],
        Platform::Windows => seq![file] + extensions().map_values(
            |ext: Seq<char>| file + seq!['.'] + ext,
        ),
    }
}

/// Lists the file names to try for `file`.
pub fn candidates(file: &str, platform: Platform) -> (out: Vec<String>)
    ensures
        out.deep_view() == candidate_names(file@, platform),
{
    let mut out: Vec<String> = Vec::new();
    out.push(file.to_owned());
    match platform {
        Platform::Unix => {
            assert(out.deep_view() =~= candidate_names(file@, platform));
        },
        Platform::Windows => {
            let exts = executables();
            let mut k: usize = 0;
            while k < exts.len()
                invariant
                    k <= exts.len(),
                    exts.deep_view() == extensions(),
                    out.len() == k + 1,
                    out[0]@ == file@,
                    forall|j: int|
                        0 <= j < k ==> (#[trigger] out[j + 1])@ == file@ + seq!['.']
                            + extensions()[j],
                decreases exts.len() - k,
            {
                let mut name = file.to_owned();
                name.append(".");
                name.append(exts[k]);
                proof {
                    reveal_strlit(".");
                    assert(exts.deep_view()[k as int] == exts[k as int]@);
                    assert(name@ =~= file@ + seq!['.'] + extensions()[k as int]);
                }
                out.push(name);
                k = k + 1;
            }
            proof {
                let want = candidate_names(file@, platform);
                assert(exts.deep_view().len() == exts.len());
                assert(want.len() == out.len());
                assert forall|j: int| 0 <= j < want.len() implies out.deep_view()[j] == want[j] by {
                    if j > 0 {
                        assert(out[(j - 1) + 1]@ == file@ + seq!['.'] + extensions()[j - 1]);
                    }
                }
            }
            assert(out.deep_view() =~= candidate_names(file@, platform));
        },
    }
    out
}

/// What the caller found at one path.
#[derive(Clone, Copy, Debug, PartialEq, Eq, Structural)]
pub struct Probe {
    /// Whether a regular file is there.
    pub is_file: bool,
    /// The permission bits of that file, zero where they do not apply.
    pub mode: u32,
}

impl DeepView for Probe {
    type V = Probe;

    open spec fn deep_view(&self) -> Probe {
        *self
    }
}

/// The paths that are to be looked at for `file` in `dir`, one for each
/// candidate name.
pub open spec fn probe_paths_of(dir: Seq<char>, file: Seq<char>, platform: Platform) -> Seq<
    Seq<char>,
> {
    candidate_names(file, platform).map_values(|name: Seq<char>| path_join(dir, name))
}

/// Lists the paths to look at for `file` in `dir`.
pub fn probe_paths(dir: &str, file: &str, platform: Platform) -> (out: Vec<String>)
    ensures
        out.deep_view() == probe_paths_of(dir@, file@, platform),
{
    let names = candidates(file, platform);
    let mut out: Vec<String> = Vec::new();
    let mut k: usize = 0;
    while k < names.len()
        invariant
            k <= names.len(),
            names.deep_view() == candidate_names(file@, platform),
            out.len() == k,
            forall|j: int|
                0 <= j < k ==> (#[trigger] out[j])@ == path_join(
                    dir@,
                    candidate_names(file@, platform)[j],
                ),
        decreases names.len() - k,
    {
        assert(names.deep_view()[k as int] == names[k as int]@);
        out.push(join(dir, names[k].as_str()));
        k = k + 1;
    }
    assert(out.deep_view() =~= probe_paths_of(dir@, file@, platform));
    out
}

/// Whether `k` is the first candidate at which a file was found.
pub open spec fn first_file_at(probes: Seq<Probe>, limit: int, k: int) -> bool {
    &&& 0 <= k < limit
    &&& k < probes.len()
    &&& probes[k].is_file
    &&& forall|j: int| 0 <= j < k ==> !(#[trigger] probes[j]).is_file
}

/// What the search finds for `names` in `dir`. The first candidate that is a
/// file decides: it is the match if it is executable and its last component is
/// the candidate's name, and otherwise the directory has no match. A candidate
/// that was not looked at counts as no file.
pub open spec fn found_in(
    dir: Seq<char>,
    names: Seq<Seq<char>>,
    probes: Seq<Probe>,
    platform: Platform,
) -> Option<Seq<char>> {
    if exists|k: int| first_file_at(probes, names.len() as int, k) {
        let k = choose|k: int| first_file_at(probes, names.len() as int, k);
        let path = path_join(dir, names[k]);
        if executable(platform, path, probes[k].mode) && path_file_name(path) == Some(names[k]) {
            Some(path)
        } else {
            None
        }
    } else {
        None
    }
}

/// Searches one directory, given what was found at each path to look at.
pub fn search_directory(dir: &str, names: &Vec<String>, probes: &Vec<Probe>, platform: Platform) -> (out:
    Option<String>)
    ensures
        out.deep_view() == found_in(dir@, names.deep_view(), probes@, platform),
{
    let mut k: usize = 0;
    while k < names.len() && k < probes.len()
        invariant
            k <= names.len(),
            k <= probes.len(),
            forall|j: int| 0 <= j < k ==> !(#[trigger] probes[j]).is_file,
        decreases names.len() - k,
    {
        if probes[k].is_file {
            proof {
                assert(first_file_at(probes@, names.deep_view().len() as int, k as int));
                let c = choose|c: int| first_file_at(probes@, names.deep_view().len() as int, c);
                assert(c == k) by {
                    if c < k {
                        assert(!probes[c].is_file);
                    } else if k < c {
                        assert(!probes@[k as int].is_file);
                    }
                }
                assert(names.deep_view()[k as int] == names[k as int]@);
            }
            let path = join(dir, names[k].as_str());
            if !is_executable(platform, path.as_str(), probes[k].mode) {
                return None;
            }
            return match file_name(path.as_str()) {
                Some(base) => {
                    if base == names[k] {
                        Some(path)
                    } else {
                        None
                    }
                },
                None => None,
            };
        }
        k = k + 1;
    }
    proof {
        assert forall|c: int| !first_file_at(probes@, names.deep_view().len() as int, c) by {
            if 0 <= c < k {
                assert(!probes[c].is_file);
            }
        }
    }
    None
}

/// The name of the current directory.
pub open spec fn here() -> Seq<char> {
    "."@
}

/// What the search finds for `file` in the current directory.
pub open spec fn found_here(file: Seq<char>, probes: Seq<Probe>, platform: Platform) -> Option<
    Seq<char>,
> {
    found_in(here(), candidate_names(file, platform), probes, platform)
}

/// Searches the current directory for `file`, given what was found at each of
/// `probe_paths(".", file, platform)`.
pub fn is_valid_exe_in_current_path(file: &str, probes: &Vec<Probe>, platform: Platform) -> (out:
    Option<String>)
    ensures
        out.deep_view() == found_here(file@, probes@, platform),
{
    let names = candidates(file, platform);
    search_directory(".", &names, probes, platform)
}

/// What the search finds for `names` in the directories from `from` on: the
/// match of the first directory that has one. A directory that was not looked
/// at has none.
pub open spec fn found_from(
    dirs: Seq<Seq<char>>,
    names: Seq<Seq<char>>,
    probes: Seq<Seq<Probe>>,
    platform: Platform,
    from: int,
) -> Option<Seq<char>>
    decreases dirs.len() - from,
{
    if from < 0 || from >= dirs.len() || from >= probes.len() {
        None
    } else {
        match found_in(dirs[from], names, probes[from], platform) {
            Some(path) => Some(path),
            None => found_from(dirs, names, probes, platform, from + 1),
        }
    }
}

/// What the search finds for `file` in the directories of the path cache.
pub open spec fn found_on_path(
    file: Seq<char>,
    dirs: Seq<Seq<char>>,
    probes: Seq<Seq<Probe>>,
    platform: Platform,
) -> Option<Seq<char>> {
    found_from(dirs, candidate_names(file, platform), probes, platform, 0)
}

/// Searches the directories of the path cache for `file`, given for each
/// directory `d` what was found at each of `probe_paths(d, file, platform)`.
pub fn is_valid_exe_in_path(
    file: &str,
    cache: &PathCache,
    probes: &Vec<Vec<Probe>>,
    platform: Platform,
) -> (out: Option<String>)
    ensures
        out.deep_view() == found_on_path(file@, cache@, probes.deep_view(), platform),
{
    let names = candidates(file, platform);
    let dirs = cache.dirs();
    let mut d: usize = 0;
    while d < dirs.len() && d < probes.len()
        invariant
            d <= dirs.len(),
            d <= probes.len(),
            dirs.deep_view() == cache@,
            names.deep_view() == candidate_names(file@, platform),
            found_on_path(file@, cache@, probes.deep_view(), platform) == found_from(
                cache@,
                names.deep_view(),
                probes.deep_view(),
                platform,
                d as int,
            ),
        decreases dirs.len() - d,
    {
        proof {
            assert(dirs.deep_view()[d as int] == dirs[d as int]@);
            assert(probes.deep_view()[d as int] =~= probes[d as int]@);
        }
        match search_directory(dirs[d].as_str(), &names, &probes[d], platform) {
            Some(path) => {
                return Some(path);
            },
            None => {},
        }
        d = d + 1;
    }
    None
}

/// What the whole search finds: the match of the current directory, and only
/// where it has none the match of the path cache.
pub open spec fn resolved(
    file: Seq<char>,
    here: Seq<Probe>,
    dirs: Seq<Seq<char>>,
    probes: Seq<Seq<Probe>>,
    platform: Platform,
) -> Option<Seq<char>> {
    match found_here(file, here, platform) {
        Some(path) => Some(path),
        None => found_on_path(file, dirs, probes, platform),
    }
}

/// Searches for `file`: the current directory first, then the path cache.
pub fn resolve(
    file: &str,
    here: &Vec<Probe>,
    cache: &PathCache,
    probes: &Vec<Vec<Probe>>,
    platform: Platform,
) -> (out: Option<String>)
    ensures
        out.deep_view() == resolved(file@, here@, cache@, probes.deep_view(), platform),
{
    match is_valid_exe_in_current_path(file, here, platform) {
        Some(path) => Some(path),
        None => is_valid_exe_in_path(file, cache, probes, platform),
    }
}

/// What `which` prints: its usage without a name, the path of the executable
/// that the search finds, and otherwise that there is none.
pub open spec fn which_lines(
    args: Seq<Seq<char>>,
    here: Seq<Probe>,
    dirs: Seq<Seq<char>>,
    probes: Seq<Seq<Probe>>,
    platform: Platform,
) -> Seq<Seq<char>> {
    if args.len() < 2 {
        seq!["Syntax: which {pattern}"@]
    } else {
        match resolved(args[1], here, dirs, probes, platform) {
            Some(path) => seq![path],
            None => seq!["Could not find executable"@],
        }
    }
}

/// The `which` built-in. It never fails: a name that is not found is reported.
pub fn find_path(
    args: &Vec<String>,
    here: &Vec<Probe>,
    cache: &PathCache,
    probes: &Vec<Vec<Probe>>,
    platform: Platform,
) -> (lines: Vec<String>)
    ensures
        lines.deep_view() == which_lines(
            args.deep_view(),
            here@,
            cache@,
            probes.deep_view(),
            platform,
        ),
{
    let mut lines: Vec<String> = Vec::new();
    if args.len() < 2 {
        lines.push("Syntax: which {pattern}".to_owned());
        assert(lines.deep_view() =~= seq!["Syntax: which {pattern}"@]);
        return lines;
    }
    assert(args.deep_view()[1] == args[1]@);
    match resolve(args[1].as_str(), here, cache, probes, platform) {
        Some(path) => {
            lines.push(path);
            assert(lines.deep_view() =~= seq![path@]);
        },
        None => {
            lines.push("Could not find executable".to_owned());
            assert(lines.deep_view() =~= seq!["Could not find executable"@]);
        },
    }
    lines
}

/// A match in the current directory wins over every match on the search path.
pub proof fn lemma_current_directory_first(
    file: Seq<char>,
    here: Seq<Probe>,
    dirs: Seq<Seq<char>>,
    probes: Seq<Seq<Probe>>,
    platform: Platform,
)
    requires
        found_here(file, here, platform) is Some,
    ensures
        resolved(file, here, dirs, probes, platform) == found_here(file, here, platform),
{
}

/// On the search path the first directory with a match wins: where the
/// directories before `d` have none and `d` has one, that one is found.
pub proof fn lemma_first_directory_wins(
    dirs: Seq<Seq<char>>,
    names: Seq<Seq<char>>,
    probes: Seq<Seq<Probe>>,
    platform: Platform,
    d: int,
    from: int,
)
    requires
        0 <= from <= d < dirs.len(),
        d < probes.len(),
        found_in(dirs[d], names, probes[d], platform) is Some,
        forall|e: int| from <= e < d ==> found_in(dirs[e], names, #[trigger] probes[e], platform) is None,
    ensures
        found_from(dirs, names, probes, platform, from) == found_in(
            dirs[d],
            names,
            probes[d],
            platform,
        ),
    decreases d - from,
{
    if from < d {
        assert(found_in(dirs[from], names, probes[from], platform) is None);
        lemma_first_directory_wins(dirs, names, probes, platform, d, from + 1);
    }
}

} // verus!
