//! The directory listing: one row for each entry, with the time it was last
//! changed, its size in a column as wide as the longest size, and its name.

use vstd::prelude::*;
use vstd::string::*;

use crate::paint::{paint, paints, Painted, PaintedView, Tint};
use crate::resolver::{executable, is_executable};
use crate::search_path::Platform;
use crate::text::{blanks, decimal, numeral, spaces};

verus! {

/// The first second of the year 1, in seconds after the epoch.
pub const FIRST_STAMP: i64 = -62_135_596_800;

/// The last second of the year 9999, in seconds after the epoch.
pub const LAST_STAMP: i64 = 253_402_300_799;

/// Calls `chrono`: makes the moment `secs` seconds and `nanos` nanoseconds
/// after the epoch a `DateTime` in the machine's time zone, formats it with
/// `DateTime::format` by `pattern`, and hands the text back. `None` where the
/// moment or the pattern is refused. The text depends on the time zone of the
/// machine, so nothing is claimed of it. The moment is kept within the years 1
/// to 9999, well inside the range in which chrono finds a local time.
#[verifier::external_body]
fn local_stamp(secs: i64, nanos: u32, pattern: &str) -> (out: Option<String>)
    requires
        FIRST_STAMP <= secs <= LAST_STAMP,
{
    match chrono::DateTime::from_timestamp(secs, nanos) {
        Some(utc) => {
            let mut out = String::new();
            match utc.with_timezone(&chrono::Local).format(pattern).write_to(&mut out) {
                Ok(_) => Some(out),
                Err(_) => None,
            }
        },
        None => None,
    }
}

/// An entry of a directory, as the caller found it.
pub struct Listed {
    pub name: String,
    /// The length of the entry in bytes.
    pub size: u64,
    pub is_file: bool,
    /// The full path of the entry.
    pub path: String,
    /// The permission bits of the entry, zero where they do not apply.
    pub mode: u32,
    /// When the entry was last changed: seconds after the epoch.
    pub changed_secs: i64,
    /// The nanoseconds that go with `changed_secs`.
    pub changed_nanos: u32,
}

/// An entry of a directory as contracts see it.
pub struct ListedView {
    pub name: Seq<char>,
    pub size: u64,
    pub is_file: bool,
    pub path: Seq<char>,
    pub mode: u32,
    pub changed_secs: i64,
    pub changed_nanos: u32,
}

impl DeepView for Listed {
    type V = ListedView;

    open spec fn deep_view(&self) -> ListedView {
        ListedView {
            name: self.name@,
            size: self.size,
            is_file: self.is_file,
            path: self.path@,
            mode: self.mode,
            changed_secs: self.changed_secs,
            changed_nanos: self.changed_nanos,
        }
    }
}

/// One row of output: `lead` is written as it is, and the name after it in its
/// colour. `stamp` is the time of the entry as it stands at the front of `lead`.
pub struct Row {
    pub stamp: String,
    pub lead: String,
    pub name: Painted,
}

/// A row as contracts see it.
pub struct RowView {
    pub stamp: Seq<char>,
    pub lead: Seq<char>,
    pub name: PaintedView,
}

impl DeepView for Row {
    type V = RowView;

    open spec fn deep_view(&self) -> RowView {
        RowView { stamp: self.stamp@, lead: self.lead@, name: self.name.deep_view() }
    }
}

/// What stands in the size column for an entry: the size of a file in decimal,
/// and a fixed mark for anything else.
pub open spec fn size_field(entry: ListedView) -> Seq<char> {
    if entry.is_file {
        numeral(entry.size as nat)
    } else {
        "<DIR>"@
    }
}

/// The width of the size column: that of the longest size among all entries,
/// and five at least.
pub open spec fn column_width(entries: Seq<ListedView>) -> nat
    decreases entries.len(),
{
    if entries.len() == 0 {
        5
    } else {
        let before = column_width(entries.drop_last());
        let own = numeral(entries.last().size as nat).len();
        if own > before {
            own
        } else {
            before
        }
    }
}

/// The column is wide enough for every size, and for the mark of a directory.
pub proof fn lemma_column_fits(entries: Seq<ListedView>, i: int)
    requires
        0 <= i < entries.len(),
    ensures
        size_field(entries[i]).len() <= column_width(entries),
        5 <= column_width(entries),
    decreases entries.len(),
{
    reveal_strlit("<DIR>");
    lemma_column_least(entries);
    if i < entries.len() - 1 {
        lemma_column_fits(entries.drop_last(), i);
    }
}

/// The size column is five wide at least.
proof fn lemma_column_least(entries: Seq<ListedView>)
    ensures
        5 <= column_width(entries),
    decreases entries.len(),
{
    if entries.len() > 0 {
        lemma_column_least(entries.drop_last());
    }
}

/// How the name of an entry is shown: an executable file in green, another file
/// plain, anything else in blue.
pub open spec fn tint_of(entry: ListedView, platform: Platform) -> Tint {
    if !entry.is_file {
        Tint::Blue
    } else if executable(platform, entry.path, entry.mode) {
        Tint::Green
    } else {
        Tint::Plain
    }
}

/// The blanks that put `field` flush right in a column of `width`: none where
/// the field is wider than the column.
pub open spec fn padding(width: nat, field: Seq<char>) -> Seq<char> {
    if field.len() <= width {
        blanks((width - field.len()) as nat)
    } else {
        Seq::empty()
    }
}

/// What stands before the name in the row of an entry whose time reads
/// `stamp`, in a size column of `width`: the time, a blank, the size flush right
/// in its column, and a blank.
pub open spec fn lead_of(stamp: Seq<char>, width: nat, entry: ListedView) -> Seq<char> {
    stamp + seq![' '] + padding(width, size_field(entry)) + size_field(entry) + seq![' ']
}

/// Writes what stands before the name in the row of an entry.
pub fn row_lead(stamp: &str, width: usize, entry: &Listed) -> (lead: String)
    ensures
        lead@ == lead_of(stamp@, width as nat, entry.deep_view()),
{
    let field = if entry.is_file {
        decimal(entry.size)
    } else {
        "<DIR>".to_owned()
    };
    let used = field.as_str().unicode_len();
    let mut lead = stamp.to_owned();
    proof {
        reveal_strlit(" ");
    }
    lead.append(" ");
    if used <= width {
        lead.append(spaces(width - used).as_str());
    }
    lead.append(field.as_str());
    lead.append(" ");
    assert(lead@ =~= lead_of(stamp@, width as nat, entry.deep_view()));
    lead
}

/// Whether `row` is the row of `entry` in a size column of `width`: the lead
/// for the time that the row shows, and the name of the entry in its colour.
pub open spec fn row_for(row: RowView, width: nat, entry: ListedView, platform: Platform) -> bool {
    &&& row.lead == lead_of(row.stamp, width, entry)
    &&& paints(row.name, entry.name, tint_of(entry, platform))
}

/// Decides the colour of an entry's name.
pub fn tint(entry: &Listed, platform: Platform) -> (out: Tint)
    ensures
        out == tint_of(entry.deep_view(), platform),
{
    if !entry.is_file {
        Tint::Blue
    } else if is_executable(platform, entry.path.as_str(), entry.mode) {
        Tint::Green
    } else {
        Tint::Plain
    }
}

/// Measures the size column.
fn widest_size(entries: &Vec<Listed>) -> (width: usize)
    ensures
        width == column_width(entries.deep_view()),
{
    let ghost views = entries.deep_view();
    let mut width: usize = 5;
    let mut i: usize = 0;
    assert(views.take(0) =~= Seq::<ListedView>::empty());
    while i < entries.len()
        invariant
            i <= entries.len(),
            views == entries.deep_view(),
            width == column_width(views.take(i as int)),
        decreases entries.len() - i,
    {
        proof {
            assert(views.take(i + 1).drop_last() =~= views.take(i as int));
            assert(views.take(i + 1).last() == entries[i as int].deep_view());
        }
        let own = decimal(entries[i].size).as_str().unicode_len();
        if own > width {
            width = own;
        }
        i = i + 1;
    }
    assert(views.take(entries.len() as int) =~= views);
    width
}

/// Writes the rows of a listing. The time of each entry is written in the
/// machine's time zone, as the month's short name, the day, and the hour and
/// minute; it is empty where it cannot be written, as for a moment outside the
/// years 1 to 9999. Each row is the row of its entry for the time it shows.
pub fn list_rows(entries: &Vec<Listed>, platform: Platform) -> (rows: Vec<Row>)
    ensures
        rows.len() == entries.len(),
        forall|i: int|
            0 <= i < rows.len() ==> row_for(
                (#[trigger] rows[i]).deep_view(),
                column_width(entries.deep_view()),
                entries[i].deep_view(),
                platform,
            ),
{
    let width = widest_size(entries);
    let ghost views = entries.deep_view();
    let mut rows: Vec<Row> = Vec::new();
    let mut i: usize = 0;
    while i < entries.len()
        invariant
            i <= entries.len(),
            views == entries.deep_view(),
            width == column_width(views),
            rows.len() == i,
            forall|j: int|
                0 <= j < i ==> row_for(
                    (#[trigger] rows[j]).deep_view(),
                    width as nat,
                    entries[j].deep_view(),
                    platform,
                ),
        decreases entries.len() - i,
    {
        let secs = entries[i].changed_secs;
        let stamp = if FIRST_STAMP <= secs && secs <= LAST_STAMP {
            match local_stamp(secs, entries[i].changed_nanos, "%b %d %H:%M") {
                Some(text) => text,
                None => String::new(),
            }
        } else {
            String::new()
        };
        proof {
            assert(views[i as int] == entries[i as int].deep_view());
        }
        let lead = row_lead(stamp.as_str(), width, &entries[i]);
        let name = paint(entries[i].name.clone(), tint(&entries[i], platform));
        rows.push(Row { stamp, lead, name });
        i = i + 1;
    }
    rows
}

/// What `ls` is to look at.
pub enum ListPlan {
    /// Too many arguments: the usage is printed.
    Usage { line: String },
    /// The directory to read. `named` says whether the user gave it: only then
    /// is it first tested to be a directory.
    Read { dir: String, named: bool },
}

/// What `ls` is to look at, as contracts see it.
pub enum ListPlanView {
    Usage { line: Seq<char> },
    Read { dir: Seq<char>, named: bool },
}

impl DeepView for ListPlan {
    type V = ListPlanView;

    open spec fn deep_view(&self) -> ListPlanView {
        match self {
            ListPlan::Usage { line } => ListPlanView::Usage { line: line@ },
            ListPlan::Read { dir, named } => ListPlanView::Read { dir: dir@, named: *named },
        }
    }
}

/// The usage of `ls`.
pub open spec fn list_usage() -> Seq<char> {
    "Syntax: ls {directory}"@
}

/// What `ls` looks at: the directory that was named, the current directory
/// where none was, and nothing where more than one was named.
pub open spec fn list_plan_of(args: Seq<Seq<char>>) -> ListPlanView {
    if args.len() > 2 {
        ListPlanView::Usage { line: list_usage() }
    } else if args.len() == 2 {
        ListPlanView::Read { dir: args[1], named: true }
    } else {
        ListPlanView::Read { dir: "."@, named: false }
    }
}

/// Decides what `ls` looks at.
pub fn list_plan(args: &Vec<String>) -> (plan: ListPlan)
    ensures
        plan.deep_view() == list_plan_of(args.deep_view()),
{
    if args.len() > 2 {
        ListPlan::Usage { line: "Syntax: ls {directory}".to_owned() }
    } else if args.len() == 2 {
        assert(args.deep_view()[1] == args[1]@);
        ListPlan::Read { dir: args[1].clone(), named: true }
    } else {
        ListPlan::Read { dir: ".".to_owned(), named: false }
    }
}

/// What `ls` prints where the named directory is none: its usage where the
/// name asks for help, and otherwise that there is no such directory.
pub open spec fn list_missing_of(dir: Seq<char>) -> Seq<char> {
    if dir == "help"@ {
        list_usage()
    } else {
        "Directory does not exist"@
    }
}

/// Writes what `ls` prints where the named directory is none.
pub fn list_missing(dir: &String) -> (line: String)
    ensures
        line@ == list_missing_of(dir@),
{
    let help = "help".to_owned();
    if *dir == help {
        "Syntax: ls {directory}".to_owned()
    } else {
        "Directory does not exist".to_owned()
    }
}

/// What the caller found where `ls` was to look.
pub enum Looked {
    /// The directory that was named is none.
    NotDirectory,
    /// The directory could not be read.
    Unreadable { reason: String },
    /// The entries of the directory.
    Read { entries: Vec<Listed> },
}

/// What `ls` comes to.
pub enum Shown {
    /// One line is printed.
    Say { line: String },
    /// The rows of the listing are printed.
    Rows { rows: Vec<Row> },
    /// The command fails.
    Fail { reason: String },
}

/// Whether `shown` is what `ls` comes to for `args` and what was found: its
/// usage for more than one argument; for a named directory that is none, that
/// there is no such directory, or the usage where the name asks for help; the
/// reason where the directory cannot be read; and otherwise one row for each
/// entry, in the order of the entries.
pub open spec fn lists(shown: Shown, args: Seq<Seq<char>>, looked: Looked, platform: Platform) -> bool {
    match list_plan_of(args) {
        ListPlanView::Usage { line } => shown matches Shown::Say { line: said } && said@ == line,
        ListPlanView::Read { dir, named } => match looked {
            Looked::NotDirectory => shown matches Shown::Say { line: said } && said@
                == list_missing_of(dir),
            Looked::Unreadable { reason } => shown matches Shown::Fail { reason: given }
                && given@ == reason@,
            Looked::Read { entries } => shown matches Shown::Rows { rows } && rows.len()
                == entries.len() && forall|i: int|
                0 <= i < rows.len() ==> row_for(
                    (#[trigger] rows[i]).deep_view(),
                    column_width(entries.deep_view()),
                    entries[i].deep_view(),
                    platform,
                ),
        },
    }
}

/// The `ls` built-in, given what the caller found at the directory that
/// `list_plan` names.
pub fn list_directory(args: &Vec<String>, looked: Looked, platform: Platform) -> (shown: Shown)
    ensures
        lists(shown, args.deep_view(), looked, platform),
{
    match list_plan(args) {
        ListPlan::Usage { line } => Shown::Say { line },
        ListPlan::Read { dir, named } => match looked {
            Looked::NotDirectory => Shown::Say { line: list_missing(&dir) },
            Looked::Unreadable { reason } => Shown::Fail { reason },
            Looked::Read { entries } => Shown::Rows { rows: list_rows(&entries, platform) },
        },
    }
}

} // verus!
