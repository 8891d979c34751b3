//! The path cache: the directories in which executables are looked for, in the
//! order of the search.

use vstd::prelude::*;
use vstd::string::*;

use crate::text::{join_with, joined, pieces, replace_all, replaced, split_on};

verus! {

/// The kind of system the shell runs on, as far as the search for executables
/// goes.
#[derive(Clone, Copy, Debug, PartialEq, Eq, Structural)]
pub enum Platform {
    /// A file is executable by its permission bits; the path list is split at
    /// colons.
    Unix,
    /// A file is executable by its extension; the path list is split at
    /// semicolons.
    Windows,
}

/// The character between the directories of a path list.
pub open spec fn separator_of(platform: Platform) -> char {
    match platform {
        Platform::Unix => ':',
        Platform::Windows => ';',
    }
}

impl Platform {
    /// The character between the directories of a path list.
    pub fn list_separator(&self) -> (sep: char)
        ensures
            sep == separator_of(*self),
    {
        match self {
            Platform::Unix => ':',
            Platform::Windows => ';',
        }
    }

    fn separator_text(&self) -> (sep: &'static str)
        ensures
            sep@ == seq![separator_of(*self)],
    {
        proof {
            reveal_strlit(":");
            reveal_strlit(";");
        }
        let sep = match self {
            Platform::Unix => ":",
            Platform::Windows => ";",
        };
        assert(sep@ =~= seq![separator_of(*self)]);
        sep
    }
}

/// The ordered list of search directories.
pub struct PathCache {
    dirs: Vec<String>,
}

impl View for PathCache {
    type V = Seq<Seq<char>>;

    closed spec fn view(&self) -> Seq<Seq<char>> {
        self.dirs.deep_view()
    }
}

impl Clone for PathCache {
    fn clone(&self) -> (out: Self)
        ensures
            out@ == self@,
    {
        let out = PathCache { dirs: self.dirs.clone() };
        assert(out.dirs.deep_view() =~= self.dirs.deep_view());
        out
    }
}

/// The text that stands for the path list in a line.
pub open spec fn path_marker() -> Seq<char> {
    "$PATH$"@
}

impl PathCache {
    /// A cache without directories.
    pub fn new() -> (out: PathCache)
        ensures
            out@ == Seq::<Seq<char>>::empty(),
    {
        let out = PathCache { dirs: Vec::new() };
        assert(out.dirs.deep_view() =~= Seq::<Seq<char>>::empty());
        out
    }

    /// Rebuilds the cache from a path list: whatever it held is dropped, and the
    /// pieces of the list between the separators take its place, every one of
    /// them, in their order.
    pub fn reload(&mut self, value: &str, platform: Platform)
        ensures
            final(self)@ == pieces(value@, separator_of(platform)),
    {
        self.dirs = split_on(value, platform.list_separator());
    }

    /// How many directories the cache holds.
    pub fn len(&self) -> (n: usize)
        ensures
            n == self@.len(),
    {
        self.dirs.len()
    }

    /// The directories, in the order of the search.
    pub fn dirs(&self) -> (out: Vec<String>)
        ensures
            out.deep_view() == self@,
    {
        let out = self.dirs.clone();
        assert(out.deep_view() =~= self@);
        out
    }

    /// The directories as one path list.
    pub fn joined(&self, platform: Platform) -> (out: String)
        ensures
            out@ == joined(self@, seq![separator_of(platform)]),
    {
        join_with(&self.dirs, platform.separator_text())
    }

    /// Puts the path list into `line`, wherever its marker stands.
    pub fn substitute(&self, line: &str, platform: Platform) -> (out: String)
        ensures
            out@ == replaced(line@, path_marker(), joined(self@, seq![separator_of(platform)])),
    {
        let list = self.joined(platform);
        replace_all(line, "$PATH$", list.as_str())
    }
}

/// Takes over the path list that the environment gave. Where the environment
/// gave none, the cache stays as it was and the failure is to be logged.
pub fn update_path(cache: &mut PathCache, found: Result<String, String>, platform: Platform) -> (out:
    Option<String>)
    ensures
        match found {
            Ok(value) => out is None && final(cache)@ == pieces(value@, separator_of(platform)),
            Err(reason) => final(cache)@ == old(cache)@ && out.deep_view() == Some(
                "Unable to update path var: "@ + reason@,
            ),
        },
{
    match found {
        Ok(value) => {
            cache.reload(value.as_str(), platform);
            None
        },
        Err(reason) => {
            let mut message = "Unable to update path var: ".to_owned();
            message.append(reason.as_str());
            Some(message)
        },
    }
}

/// The `reload-path` built-in: it announces the reload, takes over the path
/// list, and reports the reload as done. What is to be logged comes second.
pub fn reload_path(cache: &mut PathCache, found: Result<String, String>, platform: Platform) -> (out:
    (Vec<String>, Option<String>))
    ensures
        out.0.deep_view() == seq!["Updating path"@, "Path updated"@],
        match found {
            Ok(value) => out.1 is None && final(cache)@ == pieces(value@, separator_of(platform)),
            Err(reason) => final(cache)@ == old(cache)@ && out.1.deep_view() == Some(
                "Unable to update path var: "@ + reason@,
            ),
        },
{
    let complaint = update_path(cache, found, platform);
    let mut lines: Vec<String> = Vec::new();
    lines.push("Updating path".to_owned());
    lines.push("Path updated".to_owned());
    assert(lines.deep_view() =~= seq!["Updating path"@, "Path updated"@]);
    (lines, complaint)
}

/// A reload drops what the cache held: the new contents are those of the path
/// list alone, they give the list back when joined, and no directory holds the
/// separator.
pub proof fn lemma_reload_wholesale(value: Seq<char>, platform: Platform)
    ensures
        joined(pieces(value, separator_of(platform)), seq![separator_of(platform)]) == value,
        pieces(value, separator_of(platform)).len() >= 1,
        forall|k: int|
            0 <= k < pieces(value, separator_of(platform)).len() ==> !(#[trigger] pieces(
                value,
                separator_of(platform),
            )[k]).contains(separator_of(platform)),
{
    crate::text::lemma_pieces_join(value, separator_of(platform));
}

} // verus!
