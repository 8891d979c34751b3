//! What happens to a line between the keyboard and the dispatcher: it is
//! trimmed, remembered, and has the variables and the path list put in.

use vstd::prelude::*;
use vstd::string::*;

use crate::paint::{paint, paints, Painted, Tint};
use crate::search_path::{path_marker, separator_of, PathCache, Platform};
use crate::text::{joined, replace_all, replaced, to_chars, trim, trimmed};
use crate::variables::{substituted, Bindings, VariableStore};

verus! {

/// How many lines the history keeps.
pub const HISTORY_CAPACITY: usize = 100;

/// Whether `line` holds nothing but blanks.
pub open spec fn blank(line: Seq<char>) -> bool {
    forall|i: int| 0 <= i < line.len() ==> #[trigger] line[i] == ' '
}

/// Tests whether `line` holds nothing but blanks.
pub fn is_blank(line: &str) -> (out: bool)
    ensures
        out == blank(line@),
{
    let chars = to_chars(line);
    let mut i: usize = 0;
    while i < chars.len()
        invariant
            i <= chars.len(),
            chars@ == line@,
            forall|j: int| 0 <= j < i ==> #[trigger] line@[j] == ' ',
        decreases chars.len() - i,
    {
        if chars[i] != ' ' {
            return false;
        }
        i = i + 1;
    }
    true
}

/// The history after `line` was entered. A blank line and a line that repeats
/// the last one are not kept. A kept line comes last, and the oldest lines
/// leave so that no more than the capacity stay.
pub open spec fn recorded(lines: Seq<Seq<char>>, line: Seq<char>) -> Seq<Seq<char>> {
    if blank(line) || (lines.len() > 0 && lines.last() == line) {
        lines
    } else if lines.len() >= HISTORY_CAPACITY {
        lines.skip(lines.len() - HISTORY_CAPACITY + 1).push(line)
    } else {
        lines.push(line)
    }
}

/// The lines that were entered, oldest first.
pub struct History {
    lines: Vec<String>,
}

impl View for History {
    type V = Seq<Seq<char>>;

    closed spec fn view(&self) -> Seq<Seq<char>> {
        self.lines.deep_view()
    }
}

impl History {
    /// An empty history.
    pub fn new() -> (out: History)
        ensures
            out@ == Seq::<Seq<char>>::empty(),
    {
        let out = History { lines: Vec::with_capacity(HISTORY_CAPACITY) };
        assert(out.lines.deep_view() =~= Seq::<Seq<char>>::empty());
        out
    }

    /// How many lines are kept.
    pub fn len(&self) -> (n: usize)
        ensures
            n == self@.len(),
    {
        self.lines.len()
    }

    /// The lines, oldest first.
    pub fn lines(&self) -> (out: Vec<String>)
        ensures
            out.deep_view() == self@,
    {
        let out = self.lines.clone();
        assert(out.deep_view() =~= self@);
        out
    }

    /// Takes note of a line that was entered.
    pub fn record(&mut self, line: &str)
        ensures
            final(self)@ == recorded(old(self)@, line@),
    {
        if is_blank(line) {
            return;
        }
        let entry = line.to_owned();
        let n = self.lines.len();
        if n > 0 {
            assert(self@.last() == self.lines[n - 1]@);
            if self.lines[n - 1] == entry {
                return;
            }
        }
        let ghost before = self@;
        while self.lines.len() >= HISTORY_CAPACITY
            invariant
                self.lines.len() <= before.len(),
                before.len() < HISTORY_CAPACITY ==> self@ == before,
                before.len() >= HISTORY_CAPACITY ==> self.lines.len() >= HISTORY_CAPACITY - 1
                    && self@ == before.skip(before.len() - self.lines.len()),
            decreases self.lines.len(),
        {
            let ghost prior = self@;
            self.lines.remove(0);
            assert(self.lines.deep_view() =~= prior.skip(1));
            assert(prior.skip(1) =~= before.skip(before.len() - self.lines.len()));
        }
        let ghost kept = self@;
        self.lines.push(entry);
        assert(self.lines.deep_view() =~= kept.push(line@));
        assert(before.skip(0) =~= before);
    }
}

/// The history never grows past its capacity.
pub proof fn lemma_history_bounded(lines: Seq<Seq<char>>, line: Seq<char>)
    requires
        lines.len() <= HISTORY_CAPACITY,
    ensures
        recorded(lines, line).len() <= HISTORY_CAPACITY,
{
}

/// The line as it goes to the dispatcher: trimmed, with the variables put in,
/// and then the path list.
pub open spec fn prepared(
    raw: Seq<char>,
    vars: Bindings,
    dirs: Seq<Seq<char>>,
    platform: Platform,
) -> Seq<char> {
    replaced(
        substituted(trimmed(raw), vars),
        path_marker(),
        joined(dirs, seq![separator_of(platform)]),
    )
}

/// Takes a line as it was typed: the trimmed line goes into the history, and
/// the line with the variables and the path list put in is handed back.
pub fn accept_line(
    raw: &str,
    history: &mut History,
    vars: &VariableStore,
    paths: &PathCache,
    platform: Platform,
) -> (line: String)
    ensures
        line@ == prepared(raw@, vars@, paths@, platform),
        final(history)@ == recorded(old(history)@, trimmed(raw@)),
{
    let typed = trim(raw);
    history.record(typed.as_str());
    let with_vars = vars.substitute(typed.as_str());
    paths.substitute(with_vars.as_str(), platform)
}

/// The directory that the prompt shows: the current directory with every
/// backslash turned into a slash, and question marks where it is unknown.
pub open spec fn prompt_of(current: Option<Seq<char>>) -> Seq<char> {
    match current {
        Some(dir) => replaced(dir, seq!['\\'], seq!['/']),
        None => "???"@,
    }
}

/// Writes the directory that the prompt shows, in blue.
pub fn prompt(current: Option<String>) -> (out: Painted)
    ensures
        paints(out.deep_view(), prompt_of(current.deep_view()), Tint::Blue),
{
    paint(prompt_text(current), Tint::Blue)
}

/// Writes the directory that the prompt shows.
pub fn prompt_text(current: Option<String>) -> (out: String)
    ensures
        out@ == prompt_of(current.deep_view()),
{
    match current {
        Some(dir) => {
            proof {
                reveal_strlit("\\");
                reveal_strlit("/");
                assert("\\"@ =~= seq!['\\']);
                assert("/"@ =~= seq!['/']);
            }
            replace_all(dir.as_str(), "\\", "/")
        },
        None => "???".to_owned(),
    }
}

/// Whether the shell was started for debugging: one of its arguments is
/// `--debug`.
pub open spec fn debugging(args: Seq<Seq<char>>) -> bool {
    args.contains("--debug"@)
}

/// Tests whether the shell was started for debugging.
pub fn is_debug(args: &Vec<String>) -> (out: bool)
    ensures
        out == debugging(args.deep_view()),
{
    let flag = "--debug".to_owned();
    let mut i: usize = 0;
    while i < args.len()
        invariant
            i <= args.len(),
            flag@ == "--debug"@,
            forall|j: int| 0 <= j < i ==> args.deep_view()[j] != "--debug"@,
        decreases args.len() - i,
    {
        assert(args.deep_view()[i as int] == args[i as int]@);
        if args[i] == flag {
            return true;
        }
        i = i + 1;
    }
    false
}

} // verus!
