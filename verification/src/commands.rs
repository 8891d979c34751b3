//! The catalog of built-in commands: their names, their help texts and the
//! handler each one stands for.

use vstd::prelude::*;
use vstd::string::*;

use crate::text::{
    blanks, lemma_lex_irreflexive, lemma_lex_total, lemma_lex_transitive, lex_less, lex_lt, spaces,
};

verus! {

/// The built-in that a command runs. The caller maps each to the code that does
/// the work; the registry only names it.
#[derive(Clone, Copy, Debug, PartialEq, Eq, Structural)]
pub enum Handler {
    Help,
    Echo,
    Exit,
    ChangeDirectory,
    SetVariable,
    ListVariables,
    ListDirectory,
    ReloadPath,
    Which,
    MakeDirectory,
    Remove,
    Copy,
}

/// One entry of the registry.
pub struct Command {
    pub func: Handler,
    pub name: String,
    pub help: String,
}

/// A command as contracts see it.
pub struct CommandView {
    pub func: Handler,
    pub name: Seq<char>,
    pub help: Seq<char>,
}

impl View for Command {
    type V = CommandView;

    open spec fn view(&self) -> CommandView {
        CommandView { func: self.func, name: self.name@, help: self.help@ }
    }
}

impl DeepView for Command {
    type V = CommandView;

    open spec fn deep_view(&self) -> CommandView {
        self@
    }
}

impl Clone for Command {
    fn clone(&self) -> (out: Self)
        ensures
            out@ == self@,
    {
        Command { func: self.func, name: self.name.clone(), help: self.help.clone() }
    }
}

/// The fixed catalog, in the order of registration.
pub open spec fn builtin_table() -> Seq<CommandView> {
    seq![
        CommandView { func: Handler::Help, name: "help"@, help: "Shows this help menu"@ },
        CommandView { func: Handler::Echo, name: "echo"@, help: "Echos args to stdout"@ },
        CommandView { func: Handler::Exit, name: "exit"@, help: "Exits the terminal"@ },
        CommandView {
            func: Handler::ChangeDirectory,
            name: "cd"@,
            help: "Change the current directory"@,
        },
        CommandView {
            func: Handler::SetVariable,
            name: "set"@,
            help: "Set a variable to a value"@,
        },
        CommandView {
            func: Handler::ListVariables,
            name: "list"@,
            help: "Lists the currently defined variables"@,
        },
        CommandView {
            func: Handler::ListDirectory,
            name: "ls"@,
            help: "Lists the current directory"@,
        },
        CommandView { func: Handler::ReloadPath, name: "reload-path"@, help: "Reloads PATH"@ },
        CommandView {
            func: Handler::Which,
            name: "which"@,
            help: "Finds an executable in PATH"@,
        },
        CommandView { func: Handler::MakeDirectory, name: "mkdir"@, help: "Make a directory"@ },
        CommandView {
            func: Handler::Remove,
            name: "rm"@,
            help: "Delete a file/directory (recursive)"@,
        },
        CommandView {
            func: Handler::Copy,
            name: "cp"@,
            help: "Copy a file/directory (recursive)"@,
        },
    ]
}

/// Makes one command of the registry.
fn entry(func: Handler, name: &str, help: &str) -> (out: Command)
    ensures
        out@ == (CommandView { func, name: name@, help: help@ }),
{
    Command { func, name: name.to_owned(), help: help.to_owned() }
}

/// Builds the registry of built-ins.
pub fn create_commands() -> (cmds: Vec<Command>)
    ensures
        cmds.deep_view() == builtin_table(),
{
    let mut cmds: Vec<Command> = Vec::new();
    cmds.push(entry(Handler::Help, "help", "Shows this help menu"));
    cmds.push(entry(Handler::Echo, "echo", "Echos args to stdout"));
    cmds.push(entry(Handler::Exit, "exit", "Exits the terminal"));
    cmds.push(entry(Handler::ChangeDirectory, "cd", "Change the current directory"));
    cmds.push(entry(Handler::SetVariable, "set", "Set a variable to a value"));
    cmds.push(entry(Handler::ListVariables, "list", "Lists the currently defined variables"));
    cmds.push(entry(Handler::ListDirectory, "ls", "Lists the current directory"));
    cmds.push(entry(Handler::ReloadPath, "reload-path", "Reloads PATH"));
    cmds.push(entry(Handler::Which, "which", "Finds an executable in PATH"));
    cmds.push(entry(Handler::MakeDirectory, "mkdir", "Make a directory"));
    cmds.push(entry(Handler::Remove, "rm", "Delete a file/directory (recursive)"));
    cmds.push(entry(Handler::Copy, "cp", "Copy a file/directory (recursive)"));
    assert(cmds.deep_view() =~= builtin_table());
    cmds
}

/// The names of `cmds`, in their order.
pub open spec fn names_of(cmds: Seq<CommandView>) -> Seq<Seq<char>> {
    cmds.map_values(|c: CommandView| c.name)
}

/// The position of the first command called `name`, if there is one.
pub fn find_command(cmds: &Vec<Command>, name: &String) -> (found: Option<usize>)
    ensures
        match found {
            Some(i) => i < cmds.len() && cmds[i as int].name@ == name@ && forall|j: int|
                0 <= j < i ==> cmds[j].name@ != name@,
            None => forall|j: int| 0 <= j < cmds.len() ==> cmds[j].name@ != name@,
        },
{
    let mut i: usize = 0;
    while i < cmds.len()
        invariant
            i <= cmds.len(),
            forall|j: int| 0 <= j < i ==> cmds[j].name@ != name@,
        decreases cmds.len() - i,
    {
        if cmds[i].name == *name {
            return Some(i);
        }
        i = i + 1;
    }
    None
}

/// `x` is listed before `y`: by name, and by position where the names agree.
pub open spec fn listed_before(names: Seq<Seq<char>>, x: int, y: int) -> bool {
    lex_lt(names[x], names[y]) || (names[x] == names[y] && x < y)
}

/// `order` lists every position of `names` exactly once, by ascending name, and
/// equal names stay in their first order.
pub open spec fn arranges(order: Seq<usize>, names: Seq<Seq<char>>) -> bool {
    &&& order.len() == names.len()
    &&& forall|i: int| 0 <= i < order.len() ==> (#[trigger] order[i]) < names.len()
    &&& forall|x: usize| x < names.len() ==> #[trigger] order.contains(x)
    &&& forall|i: int, j: int|
        0 <= i < j < order.len() ==> listed_before(
            names,
            #[trigger] order[i] as int,
            #[trigger] order[j] as int,
        )
}

/// There is one arrangement only.
pub proof fn lemma_arrangement_unique(a: Seq<usize>, b: Seq<usize>, names: Seq<Seq<char>>)
    requires
        arranges(a, names),
        arranges(b, names),
    ensures
        a == b,
{
    assert forall|k: int| 0 <= k < a.len() implies a[k] == b[k] by {
        lemma_same_up_to(a, b, names, k);
    }
    assert(a =~= b);
}

/// Of two positions one is listed before the other, and never both.
proof fn lemma_before_asymmetric(names: Seq<Seq<char>>, x: int, y: int)
    ensures
        !(listed_before(names, x, y) && listed_before(names, y, x)),
        x != y ==> listed_before(names, x, y) || listed_before(names, y, x),
        !listed_before(names, x, x),
{
    lemma_lex_total(names[x], names[y]);
    lemma_lex_irreflexive(names[x]);
    lemma_lex_irreflexive(names[y]);
}

/// Two arrangements agree at every place.
proof fn lemma_same_up_to(a: Seq<usize>, b: Seq<usize>, names: Seq<Seq<char>>, k: int)
    requires
        arranges(a, names),
        arranges(b, names),
        0 <= k < a.len(),
    ensures
        a[k] == b[k],
    decreases k,
{
    assert forall|i: int| 0 <= i < k implies a[i] == b[i] by {
        lemma_same_up_to(a, b, names, i);
    }
    if a[k] != b[k] {
        lemma_before_asymmetric(names, a[k] as int, b[k] as int);
        if listed_before(names, a[k] as int, b[k] as int) {
            lemma_place(b, a, names, k);
        } else {
            lemma_place(a, b, names, k);
        }
    }
}

/// With `a` and `b` equal below `k`, what `b` holds at `k` is not listed before
/// what `a` holds there.
proof fn lemma_place(a: Seq<usize>, b: Seq<usize>, names: Seq<Seq<char>>, k: int)
    requires
        arranges(a, names),
        arranges(b, names),
        0 <= k < a.len(),
        forall|i: int| 0 <= i < k ==> a[i] == b[i],
    ensures
        !listed_before(names, b[k] as int, a[k] as int),
{
    let x = b[k] as int;
    assert(a.contains(b[k]));
    let m = choose|m: int| 0 <= m < a.len() && a[m] == b[k];
    lemma_before_asymmetric(names, x, a[k] as int);
    lemma_before_asymmetric(names, x, x);
    if m < k {
        assert(b[m] == x);
        assert(listed_before(names, b[m] as int, b[k] as int));
    } else if m > k {
        assert(listed_before(names, a[k] as int, a[m] as int));
    }
}

/// Where the name at `k` goes into `order`: behind the last entry whose name
/// does not come after it.
spec fn place_for(order: Seq<usize>, names: Seq<Seq<char>>, k: int) -> int
    decreases order.len(),
{
    if order.len() == 0 {
        0
    } else if lex_lt(names[k], names[order.last() as int]) {
        place_for(order.drop_last(), names, k)
    } else {
        order.len() as int
    }
}

/// Every entry from the place on has a name that comes after the name at `k`,
/// and the entry before the place has none.
proof fn lemma_place_for(order: Seq<usize>, names: Seq<Seq<char>>, k: int)
    ensures
        0 <= place_for(order, names, k) <= order.len(),
        forall|j: int|
            place_for(order, names, k) <= j < order.len() ==> lex_lt(
                names[k],
                names[#[trigger] order[j] as int],
            ),
        place_for(order, names, k) > 0 ==> !lex_lt(
            names[k],
            names[order[place_for(order, names, k) - 1] as int],
        ),
    decreases order.len(),
{
    if order.len() > 0 && lex_lt(names[k], names[order.last() as int]) {
        lemma_place_for(order.drop_last(), names, k);
        let p = place_for(order, names, k);
        assert forall|j: int| p <= j < order.len() implies lex_lt(
            names[k],
            names[#[trigger] order[j] as int],
        ) by {
            if j < order.len() - 1 {
                assert(order.drop_last()[j] == order[j]);
            }
        }
        if p > 0 {
            assert(order.drop_last()[p - 1] == order[p - 1]);
        }
    }
}

/// Whether `order` lists the first `n` positions of `names` by ascending name.
spec fn arranges_first(order: Seq<usize>, names: Seq<Seq<char>>, n: int) -> bool {
    &&& order.len() == n
    &&& forall|i: int| 0 <= i < order.len() ==> (#[trigger] order[i]) < n
    &&& forall|x: usize| x < n ==> #[trigger] order.contains(x)
    &&& forall|i: int, j: int|
        0 <= i < j < order.len() ==> listed_before(
            names,
            #[trigger] order[i] as int,
            #[trigger] order[j] as int,
        )
}

/// The first `n` positions of `names`, each put in its place in turn.
spec fn built(names: Seq<Seq<char>>, n: int) -> Seq<usize>
    decreases n,
{
    if n <= 0 {
        Seq::empty()
    } else {
        let before = built(names, n - 1);
        before.insert(place_for(before, names, n - 1), (n - 1) as usize)
    }
}

/// Putting each position in its place arranges them.
proof fn lemma_built(names: Seq<Seq<char>>, n: int)
    requires
        0 <= n <= names.len(),
        n <= usize::MAX,
    ensures
        arranges_first(built(names, n), names, n),
    decreases n,
{
    if n > 0 {
        let k = n - 1;
        lemma_built(names, k);
        let old_order = built(names, k);
        lemma_place_for(old_order, names, k);
        let p = place_for(old_order, names, k);
        let new_order = built(names, n);
        assert(new_order.len() == n);
        assert(new_order[p] == k);
        assert forall|i: int, j: int| 0 <= i < j < new_order.len() implies listed_before(
            names,
            #[trigger] new_order[i] as int,
            #[trigger] new_order[j] as int,
        ) by {
            if j == p {
                assert(new_order[i] == old_order[i]);
                lemma_lex_total(names[k], names[old_order[i] as int]);
                if i < p - 1 {
                    assert(listed_before(names, old_order[i] as int, old_order[p - 1] as int));
                    if lex_lt(names[k], names[old_order[i] as int]) {
                        lemma_lex_total(names[old_order[p - 1] as int], names[old_order[i] as int]);
                        lemma_lex_transitive(
                            names[k],
                            names[old_order[i] as int],
                            names[old_order[p - 1] as int],
                        );
                    }
                }
            } else if i == p {
                assert(new_order[j] == old_order[j - 1]);
            } else {
                let oi = if i < p { i } else { i - 1 };
                let oj = if j < p { j } else { j - 1 };
                assert(new_order[i] == old_order[oi]);
                assert(new_order[j] == old_order[oj]);
            }
        }
        assert forall|x: usize| x < n implies #[trigger] new_order.contains(x) by {
            if x == k {
                assert(new_order[p] == x);
            } else {
                assert(old_order.contains(x));
                let i = choose|i: int| 0 <= i < old_order.len() && old_order[i] == x;
                let ni = if i < p { i } else { i + 1 };
                assert(new_order[ni] == x);
            }
        }
        assert forall|i: int| 0 <= i < new_order.len() implies (#[trigger] new_order[i]) < n by {
            if i < p {
                assert(new_order[i] == old_order[i]);
            } else if i > p {
                assert(new_order[i] == old_order[i - 1]);
            }
        }
    }
}

/// Sorts the positions of `cmds` by name; equal names keep their order.
pub fn sort_by_name(cmds: &Vec<Command>) -> (order: Vec<usize>)
    ensures
        arranges(order@, names_of(cmds.deep_view())),
{
    let ghost names = names_of(cmds.deep_view());
    let mut order: Vec<usize> = Vec::new();
    let mut k: usize = 0;
    while k < cmds.len()
        invariant
            k <= cmds.len(),
            names == names_of(cmds.deep_view()),
            order@ == built(names, k as int),
        decreases cmds.len() - k,
    {
        proof {
            lemma_built(names, k as int);
        }
        let mut p: usize = order.len();
        assert(order@.take(p as int) =~= order@);
        while p > 0 && lex_less(cmds[k].name.as_str(), cmds[order[p - 1]].name.as_str())
            invariant
                p <= order.len(),
                k < cmds.len(),
                names == names_of(cmds.deep_view()),
                arranges_first(order@, names, k as int),
                place_for(order@, names, k as int) == place_for(
                    order@.take(p as int),
                    names,
                    k as int,
                ),
            decreases p,
        {
            proof {
                assert(order@.take(p as int).last() == order@[p - 1]);
                assert(order@.take(p as int).drop_last() =~= order@.take(p - 1));
            }
            p = p - 1;
        }
        proof {
            if p > 0 {
                assert(order@.take(p as int).last() == order@[p - 1]);
            }
        }
        order.insert(p, k);
        k = k + 1;
    }
    proof {
        lemma_built(names, cmds.len() as int);
    }
    order
}

/// The arrangement of `names`: their positions by ascending name.
pub open spec fn arrangement(names: Seq<Seq<char>>) -> Seq<usize> {
    choose|order: Seq<usize>| arranges(order, names)
}

/// The length of the longest of `names`, zero where there is none.
pub open spec fn widest(names: Seq<Seq<char>>) -> nat
    decreases names.len(),
{
    if names.len() == 0 {
        0
    } else if names.last().len() > widest(names.drop_last()) {
        names.last().len()
    } else {
        widest(names.drop_last())
    }
}

/// No name is longer than the widest.
pub proof fn lemma_widest_bounds(names: Seq<Seq<char>>, i: int)
    requires
        0 <= i < names.len(),
    ensures
        names[i].len() <= widest(names),
    decreases names.len(),
{
    if i < names.len() - 1 {
        lemma_widest_bounds(names.drop_last(), i);
    }
}

/// One line of the help listing: the name, blanks up to two columns past the
/// widest name, and the help text.
pub open spec fn help_line(c: CommandView, width: nat) -> Seq<char> {
    c.name + blanks((width - c.name.len() + 2) as nat) + c.help
}

/// The help listing of `cmds`: one line for each command, by ascending name.
pub open spec fn help_text(cmds: Seq<CommandView>) -> Seq<Seq<char>> {
    let order = arrangement(names_of(cmds));
    Seq::new(cmds.len(), |i: int| help_line(cmds[order[i] as int], widest(names_of(cmds))))
}

/// Measures the longest name.
fn longest_name(cmds: &Vec<Command>) -> (width: usize)
    ensures
        width == widest(names_of(cmds.deep_view())),
{
    let ghost names = names_of(cmds.deep_view());
    let mut width: usize = 0;
    let mut i: usize = 0;
    while i < cmds.len()
        invariant
            i <= cmds.len(),
            names == names_of(cmds.deep_view()),
            width == widest(names.take(i as int)),
        decreases cmds.len() - i,
    {
        proof {
            assert(names.take(i + 1).drop_last() =~= names.take(i as int));
            assert(names.take(i + 1).last() == cmds[i as int].name@);
        }
        let len = cmds[i].name.as_str().unicode_len();
        if len > width {
            width = len;
        }
        i = i + 1;
    }
    assert(names.take(cmds.len() as int) =~= names);
    width
}

/// Writes the help listing of `cmds`.
pub fn help_lines(cmds: &Vec<Command>) -> (lines: Vec<String>)
    ensures
        lines.deep_view() == help_text(cmds.deep_view()),
{
    let ghost names = names_of(cmds.deep_view());
    let order = sort_by_name(cmds);
    let width = longest_name(cmds);
    proof {
        lemma_arrangement_unique(order@, arrangement(names), names);
    }
    let mut lines: Vec<String> = Vec::new();
    let mut i: usize = 0;
    while i < order.len()
        invariant
            i <= order.len(),
            order.len() == cmds.len(),
            names == names_of(cmds.deep_view()),
            width == widest(names),
            arranges(order@, names),
            lines.len() == i,
            forall|j: int|
                0 <= j < i ==> (#[trigger] lines[j])@ == help_line(
                    cmds[order[j] as int]@,
                    width as nat,
                ),
        decreases order.len() - i,
    {
        let cmd = &cmds[order[i]];
        proof {
            lemma_widest_bounds(names, order[i as int] as int);
        }
        let len = cmd.name.as_str().unicode_len();
        let mut line = cmd.name.clone();
        let pad = spaces(width - len);
        line.append(pad.as_str());
        proof {
            reveal_strlit("  ");
            assert(blanks((width - len) as nat) + "  "@ =~= blanks((width - len + 2) as nat));
        }
        line.append("  ");
        line.append(cmd.help.as_str());
        assert(line@ =~= help_line(cmd@, width as nat));
        lines.push(line);
        i = i + 1;
    }
    assert(lines.deep_view() =~= help_text(cmds.deep_view()));
    lines
}

/// Writes the help listing of the built-ins.
pub fn help_command() -> (lines: Vec<String>)
    ensures
        lines.deep_view() == help_text(builtin_table()),
{
    let cmds = create_commands();
    help_lines(&cmds)
}

/// Every list of names has its arrangement.
pub proof fn lemma_arrangement_exists(names: Seq<Seq<char>>)
    requires
        names.len() <= usize::MAX,
    ensures
        arranges(arrangement(names), names),
{
    lemma_built(names, names.len() as int);
    assert(arranges(built(names, names.len() as int), names));
}

/// In a help listing the names ascend and every command has its line: line `i`
/// is that of the command at `i` of the arrangement, and no later line has a
/// name that comes before the name of an earlier one.
pub proof fn lemma_help_sorted(cmds: Seq<CommandView>, i: int, j: int)
    requires
        cmds.len() <= usize::MAX,
        0 <= i < j < cmds.len(),
    ensures
        arranges(arrangement(names_of(cmds)), names_of(cmds)),
        help_text(cmds)[i] == help_line(
            cmds[arrangement(names_of(cmds))[i] as int],
            widest(names_of(cmds)),
        ),
        help_text(cmds)[j] == help_line(
            cmds[arrangement(names_of(cmds))[j] as int],
            widest(names_of(cmds)),
        ),
        !lex_lt(
            cmds[arrangement(names_of(cmds))[j] as int].name,
            cmds[arrangement(names_of(cmds))[i] as int].name,
        ),
{
    let names = names_of(cmds);
    let order = arrangement(names);
    lemma_arrangement_exists(names);
    assert(listed_before(names, order[i] as int, order[j] as int));
    lemma_lex_total(names[order[i] as int], names[order[j] as int]);
}

/// Every built-in has a help text, and no two built-ins share a name.
pub proof fn lemma_builtin_table()
    ensures
        builtin_table().len() == 12,
        forall|i: int| 0 <= i < 12 ==> (#[trigger] builtin_table()[i]).help.len() > 0,
        forall|i: int, j: int|
            0 <= i < j < 12 ==> (#[trigger] builtin_table()[i]).name != (
            #[trigger] builtin_table()[j]).name,
{
    reveal_strlit("help");
    reveal_strlit("echo");
    reveal_strlit("exit");
    reveal_strlit("cd");
    reveal_strlit("set");
    reveal_strlit("list");
    reveal_strlit("ls");
    reveal_strlit("reload-path");
    reveal_strlit("which");
    reveal_strlit("mkdir");
    reveal_strlit("rm");
    reveal_strlit("cp");
    reveal_strlit("Shows this help menu");
    reveal_strlit("Echos args to stdout");
    reveal_strlit("Exits the terminal");
    reveal_strlit("Change the current directory");
    reveal_strlit("Set a variable to a value");
    reveal_strlit("Lists the currently defined variables");
    reveal_strlit("Lists the current directory");
    reveal_strlit("Reloads PATH");
    reveal_strlit("Finds an executable in PATH");
    reveal_strlit("Make a directory");
    reveal_strlit("Delete a file/directory (recursive)");
    reveal_strlit("Copy a file/directory (recursive)");
    let t = builtin_table();
    assert(t[0].name[0] == 'h' && t[1].name[1] == 'c' && t[2].name[1] == 'x');
    assert(t[3].name[1] == 'd' && t[4].name[0] == 's' && t[5].name[1] == 'i');
    assert(t[6].name[1] == 's' && t[7].name[0] == 'r' && t[8].name[0] == 'w');
    assert(t[9].name[0] == 'm' && t[10].name[1] == 'm' && t[11].name[1] == 'p');
    assert(t[1].name[0] == 'e' && t[2].name[0] == 'e' && t[3].name[0] == 'c');
    assert(t[5].name[0] == 'l' && t[6].name[0] == 'l' && t[10].name[0] == 'r');
    assert(t[11].name[0] == 'c' && t[7].name[1] == 'e' && t[4].name.len() == 3);
}

/// The help listing of the built-ins is sorted, and every one of its commands
/// has a help text: of two lines the earlier one belongs to the command whose
/// name comes first, and no help text is empty.
pub proof fn lemma_builtin_help(i: int, j: int)
    requires
        0 <= i < j < 12,
    ensures
        help_text(builtin_table()).len() == 12,
        ({
            let order = arrangement(names_of(builtin_table()));
            let first = builtin_table()[order[i] as int];
            let second = builtin_table()[order[j] as int];
            &&& help_text(builtin_table())[i] == help_line(first, widest(names_of(builtin_table())))
            &&& help_text(builtin_table())[j] == help_line(
                second,
                widest(names_of(builtin_table())),
            )
            &&& lex_lt(first.name, second.name)
            &&& first.help.len() > 0
            &&& second.help.len() > 0
        }),
{
    let table = builtin_table();
    let names = names_of(table);
    let order = arrangement(names);
    lemma_builtin_table();
    lemma_help_sorted(table, i, j);
    lemma_before_asymmetric(names, order[i] as int, order[j] as int);
    assert(listed_before(names, order[i] as int, order[j] as int));
    assert(order[i] != order[j]);
    let a = order[i] as int;
    let b = order[j] as int;
    if a < b {
        assert(table[a].name != table[b].name);
    } else {
        assert(table[b].name != table[a].name);
    }
}

} // verus!
