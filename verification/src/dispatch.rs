//! From a typed line to what is run: the line is split into words, the first
//! word is looked up among the built-ins, and what is no built-in is left to be
//! found as an executable.

use vstd::prelude::*;
use vstd::string::*;

use crate::commands::{find_command, Command, CommandView};
use crate::paint::{paint, paints, Painted, Tint};
use crate::text::{decimal, numeral};

verus! {

/// Makes `shellwords::MismatchedQuotes` known: the error of a line with a quote
/// left open. Nothing is said of what it holds.
#[verifier::external_type_specification]
#[verifier::external_body]
pub struct ExMismatchedQuotes(shellwords::MismatchedQuotes);

/// The words that `shellwords::split` finds in a line, `None` where a quote is
/// left open.
pub uninterp spec fn shell_words(line: Seq<char>) -> Option<Seq<Seq<char>>>;

/// Calls `shellwords::split`, which splits a line as a Bourne shell would, with
/// single quotes, double quotes and backslashes as the only special characters.
/// The contract only names the result: the words on success, and no words where
/// the crate reports mismatched quotes.
#[verifier::external_body]
fn split_words(line: &str) -> (out: Result<Vec<String>, shellwords::MismatchedQuotes>)
    ensures
        match out {
            Ok(words) => shell_words(line@) == Some(words.deep_view()),
            Err(_) => shell_words(line@) is None,
        },
{
    shellwords::split(line)
}

/// Why a line could not be split.
#[derive(Clone, Copy, Debug, PartialEq, Eq, Structural)]
pub enum SyntaxError {
    MismatchedQuotes,
}

impl SyntaxError {
    /// The text of the error.
    pub fn message(&self) -> (out: String)
        ensures
            out@ == "Mismatched quotes"@,
    {
        "Mismatched quotes".to_owned()
    }
}

/// Splits a line into words.
pub fn tokenize(line: &str) -> (out: Result<Vec<String>, SyntaxError>)
    ensures
        match out {
            Ok(words) => shell_words(line@) == Some(words.deep_view()),
            Err(e) => shell_words(line@) is None && e == SyntaxError::MismatchedQuotes,
        },
{
    match split_words(line) {
        Ok(words) => Ok(words),
        Err(_) => Err(SyntaxError::MismatchedQuotes),
    }
}

/// What a line leads to.
pub enum Route {
    /// The line holds no word: nothing is run.
    Nothing,
    /// The built-in at `index` of the registry, with all the words of the line
    /// and the raw text that follows its name.
    BuiltIn { index: usize, tokens: Vec<String>, remainder: String },
    /// No built-in: the first word is to be found as an executable.
    External { tokens: Vec<String> },
}

/// A route as contracts see it.
pub enum RouteView {
    Nothing,
    BuiltIn { index: usize, tokens: Seq<Seq<char>>, remainder: Seq<char> },
    External { tokens: Seq<Seq<char>> },
}

impl DeepView for Route {
    type V = RouteView;

    open spec fn deep_view(&self) -> RouteView {
        match self {
            Route::Nothing => RouteView::Nothing,
            Route::BuiltIn { index, tokens, remainder } => RouteView::BuiltIn {
                index: *index,
                tokens: tokens.deep_view(),
                remainder: remainder@,
            },
            Route::External { tokens } => RouteView::External { tokens: tokens.deep_view() },
        }
    }
}

/// The line without the command's name and the one character after it: as many
/// characters are dropped from the front as the name has, and one more.
pub open spec fn remainder_of(line: Seq<char>, name: Seq<char>) -> Seq<char> {
    if line.len() <= name.len() + 1 {
        Seq::empty()
    } else {
        line.skip(name.len() as int + 1)
    }
}

/// Cuts the command's name and one following character off the line.
pub fn raw_remainder(line: &str, name: &str) -> (out: String)
    ensures
        out@ == remainder_of(line@, name@),
{
    let total = line.unicode_len();
    let used = name.unicode_len();
    if total <= used || total - used <= 1 {
        String::new()
    } else {
        let out = line.substring_char(used + 1, total).to_owned();
        assert(out@ =~= line@.skip(used + 1));
        out
    }
}

/// Whether `cmds` holds a command called `name`.
pub open spec fn registered(cmds: Seq<CommandView>, name: Seq<char>) -> bool {
    exists|i: int| 0 <= i < cmds.len() && (#[trigger] cmds[i]).name == name
}

/// The first position in `cmds` of a command called `name`.
pub open spec fn first_named(cmds: Seq<CommandView>, name: Seq<char>) -> int {
    choose|i: int|
        0 <= i < cmds.len() && (#[trigger] cmds[i]).name == name && forall|j: int|
            0 <= j < i ==> (#[trigger] cmds[j]).name != name
}

/// What the words of a line lead to: nothing where there is no word, the first
/// built-in whose name is the first word, and otherwise an executable to find.
pub open spec fn route_of(tokens: Seq<Seq<char>>, line: Seq<char>, cmds: Seq<CommandView>) -> RouteView {
    if tokens.len() == 0 {
        RouteView::Nothing
    } else if registered(cmds, tokens[0]) {
        RouteView::BuiltIn {
            index: first_named(cmds, tokens[0]) as usize,
            tokens,
            remainder: remainder_of(line, tokens[0]),
        }
    } else {
        RouteView::External { tokens }
    }
}

/// Routes the words of `line`.
pub fn route(tokens: Vec<String>, line: &str, cmds: &Vec<Command>) -> (out: Route)
    ensures
        out.deep_view() == route_of(tokens.deep_view(), line@, cmds.deep_view()),
{
    if tokens.len() == 0 {
        return Route::Nothing;
    }
    let ghost views = cmds.deep_view();
    let ghost name = tokens[0]@;
    assert(tokens.deep_view()[0] == name);
    match find_command(cmds, &tokens[0]) {
        Some(index) => {
            proof {
                assert(views[index as int].name == name);
                assert forall|j: int| 0 <= j < index implies (#[trigger] views[j]).name != name by {
                    assert(views[j].name == cmds[j].name@);
                }
                let chosen = first_named(views, name);
                assert(chosen == index) by {
                    if chosen < index {
                        assert(views[chosen].name != name);
                    } else if index < chosen {
                        assert(views[index as int].name != name);
                    }
                }
            }
            let remainder = raw_remainder(line, tokens[0].as_str());
            Route::BuiltIn { index, tokens, remainder }
        },
        None => {
            proof {
                assert forall|j: int| 0 <= j < views.len() implies (#[trigger] views[j]).name
                    != name by {
                    assert(views[j].name == cmds[j].name@);
                }
            }
            Route::External { tokens }
        },
    }
}

/// Splits a line and routes it. Mismatched quotes are a syntax error and nothing
/// is run.
pub fn dispatch(line: &str, cmds: &Vec<Command>) -> (out: Result<Route, SyntaxError>)
    ensures
        match shell_words(line@) {
            None => out == Err::<Route, SyntaxError>(SyntaxError::MismatchedQuotes),
            Some(words) => out matches Ok(r) && r.deep_view() == route_of(
                words,
                line@,
                cmds.deep_view(),
            ),
        },
{
    match tokenize(line) {
        Ok(tokens) => Ok(route(tokens, line, cmds)),
        Err(e) => Err(e),
    }
}

/// How an executable is started, or why not.
pub enum Launch {
    /// Run `program` with `args`.
    Spawn { program: String, args: Vec<String> },
    /// Nothing by that name: `message` says so.
    Missing { message: String },
}

/// A launch as contracts see it.
pub enum LaunchView {
    Spawn { program: Seq<char>, args: Seq<Seq<char>> },
    Missing { message: Seq<char> },
}

impl DeepView for Launch {
    type V = LaunchView;

    open spec fn deep_view(&self) -> LaunchView {
        match self {
            Launch::Spawn { program, args } => LaunchView::Spawn {
                program: program@,
                args: args.deep_view(),
            },
            Launch::Missing { message } => LaunchView::Missing { message: message@ },
        }
    }
}

/// The first of `tokens`, empty where there is none.
pub open spec fn first_word(tokens: Seq<Seq<char>>) -> Seq<char> {
    if tokens.len() == 0 {
        Seq::empty()
    } else {
        tokens[0]
    }
}

/// What becomes of words that name no built-in: the executable that was found
/// is run with the words after the first, and where none was found the first
/// word is reported as unknown.
pub open spec fn launch_of(tokens: Seq<Seq<char>>, resolved: Option<Seq<char>>) -> LaunchView {
    match resolved {
        Some(program) => LaunchView::Spawn {
            program,
            args: if tokens.len() == 0 {
                tokens
            } else {
                tokens.skip(1)
            },
        },
        None => LaunchView::Missing {
            message: first_word(tokens) + " does not exist as a command or executable"@,
        },
    }
}

/// Decides how the words of a line are run once the search for an executable
/// is over.
pub fn launch(tokens: &Vec<String>, resolved: Option<String>) -> (out: Launch)
    ensures
        out.deep_view() == launch_of(tokens.deep_view(), resolved.deep_view()),
{
    match resolved {
        Some(program) => {
            let mut args: Vec<String> = Vec::new();
            let mut i: usize = 1;
            while i < tokens.len()
                invariant
                    1 <= i,
                    i <= tokens.len() || (tokens.len() == 0 && i == 1),
                    args.len() == i - 1,
                    forall|j: int| 0 <= j < args.len() ==> (#[trigger] args[j])@ == tokens[j + 1]@,
                decreases tokens.len() - i,
            {
                args.push(tokens[i].clone());
                i = i + 1;
            }
            assert(tokens.len() > 0 ==> args.deep_view() =~= tokens.deep_view().skip(1));
            assert(tokens.len() == 0 ==> args.deep_view() =~= tokens.deep_view());
            Launch::Spawn { program, args }
        },
        None => {
            let mut message = if tokens.len() == 0 {
                String::new()
            } else {
                tokens[0].clone()
            };
            message.append(" does not exist as a command or executable");
            Launch::Missing { message }
        },
    }
}

/// The line that reports an error of a command, with the place it came from.
pub open spec fn error_report_of(origin: u32, reason: Seq<char>) -> Seq<char> {
    "Error (line: "@ + numeral(origin as nat) + "): "@ + reason
}

/// Writes the line that reports an error of a command.
pub fn error_report(origin: u32, reason: &str) -> (out: String)
    ensures
        out@ == error_report_of(origin, reason@),
{
    let mut out = "Error (line: ".to_owned();
    out.append(decimal(origin as u64).as_str());
    out.append("): ");
    out.append(reason);
    out
}

/// The line that reports a syntax error.
pub open spec fn syntax_report_of(reason: Seq<char>) -> Seq<char> {
    "Syntax Error: "@ + reason
}

/// Writes the line that reports a syntax error: a line that cannot be split, or
/// a first word that names nothing.
pub fn syntax_report(reason: &str) -> (out: String)
    ensures
        out@ == syntax_report_of(reason@),
{
    let mut out = "Syntax Error: ".to_owned();
    out.append(reason);
    out
}

/// Writes the line that reports a syntax error, in red.
pub fn syntax_error(reason: &str) -> (out: Painted)
    ensures
        paints(out.deep_view(), syntax_report_of(reason@), Tint::Red),
{
    paint(syntax_report(reason), Tint::Red)
}

} // verus!
