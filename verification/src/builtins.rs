//! The small built-ins: what `echo` prints and where `cd` goes.

use vstd::prelude::*;
use vstd::string::*;

use crate::fileops::Kind;

verus! {

/// What `echo` prints: the raw text after its name, and its usage where the
/// line holds nothing but the name.
pub open spec fn echo_of(args: Seq<Seq<char>>, rest: Seq<char>) -> Seq<char> {
    if args.len() == 1 {
        "Syntax: echo {input}"@
    } else {
        rest
    }
}

/// The `echo` built-in.
pub fn echo(args: &Vec<String>, rest: &str) -> (line: String)
    ensures
        line@ == echo_of(args.deep_view(), rest@),
{
    if args.len() == 1 {
        "Syntax: echo {input}".to_owned()
    } else {
        rest.to_owned()
    }
}

/// What `cd` does.
pub enum Move {
    /// Print `line`; nothing changes.
    Say { line: String },
    /// Make `dir` the current directory.
    Enter { dir: String },
    /// Fail with `reason`.
    Fail { reason: String },
}

/// What `cd` does, as contracts see it.
pub enum MoveView {
    Say { line: Seq<char> },
    Enter { dir: Seq<char> },
    Fail { reason: Seq<char> },
}

impl DeepView for Move {
    type V = MoveView;

    open spec fn deep_view(&self) -> MoveView {
        match self {
            Move::Say { line } => MoveView::Say { line: line@ },
            Move::Enter { dir } => MoveView::Enter { dir: dir@ },
            Move::Fail { reason } => MoveView::Fail { reason: reason@ },
        }
    }
}

/// What `cd` does, given what its first argument turned out to be: without an
/// argument it prints its usage, a directory is entered, and anything else is
/// an error.
pub open spec fn move_of(args: Seq<Seq<char>>, found: Kind) -> MoveView {
    if args.len() < 2 {
        MoveView::Say { line: "Syntax: cd {directory}"@ }
    } else if found == Kind::Directory {
        MoveView::Enter { dir: args[1] }
    } else {
        MoveView::Fail { reason: "Directory does not exist"@ }
    }
}

/// The `cd` built-in.
pub fn change_directory(args: &Vec<String>, found: Kind) -> (out: Move)
    ensures
        out.deep_view() == move_of(args.deep_view(), found),
{
    if args.len() < 2 {
        Move::Say { line: "Syntax: cd {directory}".to_owned() }
    } else if found == Kind::Directory {
        assert(args.deep_view()[1] == args[1]@);
        Move::Enter { dir: args[1].clone() }
    } else {
        Move::Fail { reason: "Directory does not exist".to_owned() }
    }
}

} // verus!
