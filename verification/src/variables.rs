//! The variable store: names with their values, set by one built-in, listed by
//! another, and substituted into every line.

use vstd::prelude::*;
use vstd::string::*;

use crate::text::{
    absent, contains_space, has_space, lemma_replaced_absent, occurs_at, replace_all, replaced,
};

verus! {

/// A store as contracts see it: the names with their values, in the order in
/// which the names were first set.
pub type Bindings = Seq<(Seq<char>, Seq<char>)>;

/// Whether `name` can be the name of a variable: it is not empty and holds no
/// white space.
pub open spec fn valid_name(name: Seq<char>) -> bool {
    name.len() > 0 && !has_space(name)
}

/// Whether `name` is bound in `list`.
pub open spec fn bound(list: Bindings, name: Seq<char>) -> bool {
    exists|i: int| 0 <= i < list.len() && (#[trigger] list[i]).0 == name
}

/// A position at which `name` is bound in `list`.
pub open spec fn place_of(list: Bindings, name: Seq<char>) -> int {
    choose|i: int| 0 <= i < list.len() && (#[trigger] list[i]).0 == name
}

/// The value of `name` in `list`.
pub open spec fn value_of(list: Bindings, name: Seq<char>) -> Option<Seq<char>> {
    if bound(list, name) {
        Some(list[place_of(list, name)].1)
    } else {
        None
    }
}

/// No name is bound twice, and every name is valid.
pub open spec fn well_formed(list: Bindings) -> bool {
    &&& forall|i: int, j: int|
        0 <= i < j < list.len() ==> (#[trigger] list[i]).0 != (#[trigger] list[j]).0
    &&& forall|i: int| 0 <= i < list.len() ==> valid_name((#[trigger] list[i]).0)
}

/// `list` after `name` was set to `value`: a bound name keeps its place and
/// takes the new value, a new name comes last.
pub open spec fn with_binding(list: Bindings, name: Seq<char>, value: Seq<char>) -> Bindings {
    if bound(list, name) {
        list.update(place_of(list, name), (name, value))
    } else {
        list.push((name, value))
    }
}

/// The text that stands for the variable `name` in a line.
pub open spec fn marker(name: Seq<char>) -> Seq<char> {
    seq!['$'] + name + seq!['$']
}

/// `line` after the variables of `list` were put in, one after another in the
/// order of the list: each marker of a name gives way to the name's value.
pub open spec fn substituted(line: Seq<char>, list: Bindings) -> Seq<char>
    decreases list.len(),
{
    if list.len() == 0 {
        line
    } else {
        replaced(substituted(line, list.drop_last()), marker(list.last().0), list.last().1)
    }
}

/// The line that shows a variable.
pub open spec fn shown(binding: (Seq<char>, Seq<char>)) -> Seq<char> {
    binding.0 + " = \""@ + binding.1 + "\""@
}

/// Why a variable was not set.
#[derive(Clone, Copy, Debug, PartialEq, Eq, Structural)]
pub enum NameError {
    /// The name is empty or holds white space.
    Invalid,
}

impl NameError {
    /// The text of the error.
    pub fn message(&self) -> (out: String)
        ensures
            out@ == "Name cannot have whitespace"@,
    {
        "Name cannot have whitespace".to_owned()
    }
}

/// The variable store.
pub struct VariableStore {
    entries: Vec<(String, String)>,
}

impl View for VariableStore {
    type V = Bindings;

    closed spec fn view(&self) -> Bindings {
        self.entries.deep_view()
    }
}

impl Clone for VariableStore {
    fn clone(&self) -> (out: Self)
        ensures
            out@ == self@,
    {
        let mut entries: Vec<(String, String)> = Vec::new();
        let mut i: usize = 0;
        while i < self.entries.len()
            invariant
                i <= self.entries.len(),
                entries.len() == i,
                forall|j: int|
                    0 <= j < i ==> (#[trigger] entries[j]).0@ == self.entries[j].0@ && entries[j].1@
                        == self.entries[j].1@,
            decreases self.entries.len() - i,
        {
            entries.push((self.entries[i].0.clone(), self.entries[i].1.clone()));
            i = i + 1;
        }
        assert(entries.deep_view() =~= self.entries.deep_view());
        VariableStore { entries }
    }
}

impl VariableStore {
    /// An empty store.
    pub fn new() -> (out: VariableStore)
        ensures
            out@ == Seq::<(Seq<char>, Seq<char>)>::empty(),
            well_formed(out@),
    {
        let out = VariableStore { entries: Vec::new() };
        assert(out.entries.deep_view() =~= Seq::<(Seq<char>, Seq<char>)>::empty());
        out
    }

    /// How many variables are set.
    pub fn len(&self) -> (n: usize)
        ensures
            n == self@.len(),
    {
        self.entries.len()
    }

    fn find(&self, name: &str) -> (at: Option<usize>)
        requires
            well_formed(self@),
        ensures
            match at {
                Some(i) => i < self@.len() && self@[i as int].0 == name@ && bound(self@, name@)
                    && place_of(self@, name@) == i,
                None => !bound(self@, name@),
            },
    {
        let wanted = name.to_owned();
        let mut i: usize = 0;
        while i < self.entries.len()
            invariant
                i <= self.entries.len(),
                wanted@ == name@,
                well_formed(self@),
                forall|j: int| 0 <= j < i ==> (#[trigger] self@[j]).0 != name@,
            decreases self.entries.len() - i,
        {
            assert(self@[i as int].0 == self.entries[i as int].0@);
            if self.entries[i].0 == wanted {
                proof {
                    let c = place_of(self@, name@);
                    if c < i {
                        assert(self@[c].0 != self@[i as int].0);
                    } else if c > i {
                        assert(self@[i as int].0 != self@[c].0);
                    }
                }
                return Some(i);
            }
            i = i + 1;
        }
        None
    }

    /// The value of `name`, where it is set.
    pub fn get(&self, name: &str) -> (out: Option<String>)
        requires
            well_formed(self@),
        ensures
            out.deep_view() == value_of(self@, name@),
    {
        match self.find(name) {
            Some(i) => {
                assert(self@[i as int].1 == self.entries[i as int].1@);
                Some(self.entries[i].1.clone())
            },
            None => None,
        }
    }

    /// Sets `name` to `value`. A name that is empty or holds white space is
    /// refused, and the store stays as it was.
    pub fn set(&mut self, name: &str, value: &str) -> (out: Result<(), NameError>)
        requires
            well_formed(old(self)@),
        ensures
            well_formed(final(self)@),
            valid_name(name@) ==> out is Ok && final(self)@ == with_binding(
                old(self)@,
                name@,
                value@,
            ),
            !valid_name(name@) ==> out == Err::<(), NameError>(NameError::Invalid) && final(self)@
                == old(self)@,
    {
        if name.unicode_len() == 0 || contains_space(name) {
            return Err(NameError::Invalid);
        }
        let ghost before = self@;
        match self.find(name) {
            Some(i) => {
                self.entries.set(i, (name.to_owned(), value.to_owned()));
                assert(self.entries.deep_view() =~= before.update(i as int, (name@, value@)));
            },
            None => {
                self.entries.push((name.to_owned(), value.to_owned()));
                assert(self.entries.deep_view() =~= before.push((name@, value@)));
            },
        }
        Ok(())
    }

    /// One line for each variable: its name, ` = ` and its value in quotes.
    pub fn list(&self) -> (lines: Vec<String>)
        ensures
            lines.deep_view() == listing(self@),
    {
        let mut lines: Vec<String> = Vec::new();
        let mut i: usize = 0;
        while i < self.entries.len()
            invariant
                i <= self.entries.len(),
                lines.len() == i,
                forall|j: int| 0 <= j < i ==> (#[trigger] lines[j])@ == shown(self@[j]),
            decreases self.entries.len() - i,
        {
            let mut line = self.entries[i].0.clone();
            line.append(" = \"");
            line.append(self.entries[i].1.as_str());
            line.append("\"");
            assert(self@[i as int] == (self.entries[i as int].0@, self.entries[i as int].1@));
            lines.push(line);
            i = i + 1;
        }
        assert(lines.deep_view() =~= listing(self@));
        lines
    }

    /// Puts the variables into `line`.
    pub fn substitute(&self, line: &str) -> (out: String)
        ensures
            out@ == substituted(line@, self@),
    {
        let mut out = line.to_owned();
        let mut i: usize = 0;
        assert(self@.take(0) =~= Seq::<(Seq<char>, Seq<char>)>::empty());
        while i < self.entries.len()
            invariant
                i <= self.entries.len(),
                out@ == substituted(line@, self@.take(i as int)),
            decreases self.entries.len() - i,
        {
            let mut pattern = "$".to_owned();
            pattern.append(self.entries[i].0.as_str());
            pattern.append("$");
            proof {
                reveal_strlit("$");
                assert(pattern@ =~= marker(self.entries[i as int].0@));
                assert(self@.take(i + 1).drop_last() =~= self@.take(i as int));
                assert(self@.take(i + 1).last() == (
                    self.entries[i as int].0@,
                    self.entries[i as int].1@,
                ));
            }
            out = replace_all(out.as_str(), pattern.as_str(), self.entries[i].1.as_str());
            i = i + 1;
        }
        assert(self@.take(self.entries.len() as int) =~= self@);
        out
    }
}

/// The `set` built-in: with a name and a value it sets the variable and prints
/// nothing; with any other number of arguments it prints its usage; a name that
/// is empty or holds white space is an error, and the store stays as it was.
pub fn set_variable(args: &Vec<String>, store: &mut VariableStore) -> (out: Result<
    Vec<String>,
    String,
>)
    requires
        well_formed(old(store)@),
    ensures
        well_formed(final(store)@),
        args.len() != 3 ==> final(store)@ == old(store)@ && (out matches Ok(lines)
            && lines.deep_view() == seq!["Syntax: set {var_name} {var_data}"@]),
        args.len() == 3 && valid_name(args[1]@) ==> final(store)@ == with_binding(
            old(store)@,
            args[1]@,
            args[2]@,
        ) && (out matches Ok(lines) && lines.len() == 0),
        args.len() == 3 && !valid_name(args[1]@) ==> final(store)@ == old(store)@ && (
        out matches Err(e) && e@ == "Name cannot have whitespace"@),
{
    let mut lines: Vec<String> = Vec::new();
    if args.len() != 3 {
        lines.push("Syntax: set {var_name} {var_data}".to_owned());
        assert(lines.deep_view() =~= seq!["Syntax: set {var_name} {var_data}"@]);
        return Ok(lines);
    }
    match store.set(args[1].as_str(), args[2].as_str()) {
        Ok(_) => Ok(lines),
        Err(e) => Err(e.message()),
    }
}

/// The `list` built-in: one line for each variable.
pub fn list_variables(store: &VariableStore) -> (lines: Vec<String>)
    ensures
        lines.deep_view() == listing(store@),
{
    store.list()
}

/// What a built-in does while it waits for the store: it goes on waiting, unless
/// an abort was asked for, which is an error.
pub fn lock_wait(cancelled: bool) -> (out: Result<(), String>)
    ensures
        cancelled ==> (out matches Err(e) && e@ == "Could not aquire variable mutex"@),
        !cancelled ==> out is Ok,
{
    if cancelled {
        Err("Could not aquire variable mutex".to_owned())
    } else {
        Ok(())
    }
}

/// After a variable was set, the store holds it once, with the new value, and
/// every other variable as before: a name that was bound is overwritten, not
/// bound a second time.
pub proof fn lemma_set_binds(list: Bindings, name: Seq<char>, value: Seq<char>)
    requires
        well_formed(list),
        valid_name(name),
    ensures
        well_formed(with_binding(list, name, value)),
        value_of(with_binding(list, name, value), name) == Some(value),
        with_binding(list, name, value).contains((name, value)),
        with_binding(list, name, value).len() == if bound(list, name) {
            list.len()
        } else {
            list.len() + 1
        },
        forall|other: Seq<char>|
            other != name ==> #[trigger] value_of(with_binding(list, name, value), other)
                == value_of(list, other),
{
    let after = with_binding(list, name, value);
    let at = if bound(list, name) {
        place_of(list, name)
    } else {
        list.len() as int
    };
    assert(after[at] == (name, value));
    assert(after.len() >= list.len());
    assert forall|i: int| 0 <= i < after.len() && i != at implies after[i] == list[i] by {}
    assert forall|i: int| 0 <= i < after.len() && i != at implies (#[trigger] after[i]).0
        != name by {
        if bound(list, name) {
            if i < at {
                assert(list[i].0 != list[at].0);
            } else {
                assert(list[at].0 != list[i].0);
            }
        } else {
            assert(list[i].0 != name);
        }
    }
    assert(bound(after, name));
    assert(place_of(after, name) == at);
    assert forall|other: Seq<char>| other != name implies #[trigger] value_of(after, other)
        == value_of(list, other) by {
        if bound(list, other) {
            let i = place_of(list, other);
            assert(after[i].0 == other);
            let j = place_of(after, other);
            assert(after[j] == list[j]);
            if i < j {
                assert(list[i].0 != list[j].0);
            } else if j < i {
                assert(list[j].0 != list[i].0);
            }
        } else if bound(after, other) {
            let j = place_of(after, other);
            assert(list[j].0 == other);
        }
    }
}

/// The listing of the store: one line for each variable.
pub open spec fn listing(list: Bindings) -> Seq<Seq<char>> {
    list.map_values(|b: (Seq<char>, Seq<char>)| shown(b))
}

/// A variable that was set is listed: the listing has the line of its name and
/// its new value, and as many lines as there are names.
pub proof fn lemma_set_then_list(list: Bindings, name: Seq<char>, value: Seq<char>)
    requires
        well_formed(list),
        valid_name(name),
    ensures
        listing(with_binding(list, name, value)).contains(name + " = \""@ + value + "\""@),
        listing(with_binding(list, name, value)).len() == if bound(list, name) {
            list.len()
        } else {
            list.len() + 1
        },
{
    lemma_set_binds(list, name, value);
    let after = with_binding(list, name, value);
    let at = choose|i: int| 0 <= i < after.len() && after[i] == (name, value);
    assert(listing(after)[at] == shown((name, value)));
}

/// Setting a variable twice leaves what setting it to the second value alone
/// leaves.
pub proof fn lemma_set_overwrites(
    list: Bindings,
    name: Seq<char>,
    first: Seq<char>,
    second: Seq<char>,
)
    requires
        well_formed(list),
        valid_name(name),
    ensures
        with_binding(with_binding(list, name, first), name, second) == with_binding(
            list,
            name,
            second,
        ),
{
    lemma_set_binds(list, name, first);
    let mid = with_binding(list, name, first);
    let at = if bound(list, name) {
        place_of(list, name)
    } else {
        list.len() as int
    };
    assert(mid[at] == (name, first));
    let c = place_of(mid, name);
    if c < at {
        assert(mid[c].0 != mid[at].0);
    } else if at < c {
        assert(mid[at].0 != mid[c].0);
    }
    assert(with_binding(mid, name, second) =~= with_binding(list, name, second));
}

/// A line in which no marker of a bound name stands is left as it is: what
/// looks like a variable and is none stays in the line.
pub proof fn lemma_unknown_names_kept(line: Seq<char>, list: Bindings)
    requires
        forall|k: int| 0 <= k < list.len() ==> absent(line, marker((#[trigger] list[k]).0)),
    ensures
        substituted(line, list) == line,
    decreases list.len(),
{
    if list.len() > 0 {
        let front = list.drop_last();
        assert forall|k: int| 0 <= k < front.len() implies absent(
            line,
            marker((#[trigger] front[k]).0),
        ) by {
            assert(front[k] == list[k]);
        }
        lemma_unknown_names_kept(line, front);
        assert(absent(line, marker(list[list.len() - 1].0)));
        lemma_replaced_absent(line, marker(list.last().0), list.last().1);
    }
}

/// A line without a dollar sign holds no marker, so it is left as it is.
pub proof fn lemma_plain_line_kept(line: Seq<char>, list: Bindings)
    requires
        !line.contains('$'),
    ensures
        substituted(line, list) == line,
{
    assert forall|k: int| 0 <= k < list.len() implies absent(
        line,
        marker((#[trigger] list[k]).0),
    ) by {
        let m = marker(list[k].0);
        assert forall|i: int| !occurs_at(line, i, m) by {
            if occurs_at(line, i, m) {
                assert(line.subrange(i, i + m.len())[0] == m[0]);
                assert(line.contains(line[i]));
            }
        }
    }
    lemma_unknown_names_kept(line, list);
}

} // verus!
