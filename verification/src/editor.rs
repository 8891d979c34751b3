//! The line editor, as decisions: the line under the cursor, what each key does
//! to it, and what is to be drawn. The caller reads the keys and draws.

use vstd::prelude::*;
use vstd::string::*;

use crate::text::{blanks, spaces, text_of, to_chars};

verus! {

/// A key, as far as the editor tells keys apart.
#[derive(Clone, Copy, Debug, PartialEq, Eq, Structural)]
pub enum Key {
    Char(char),
    Backspace,
    Enter,
    ArrowLeft,
    ArrowRight,
    Del,
    ArrowUp,
    ArrowDown,
    Home,
    End,
    Other,
}

/// One thing to draw.
pub enum Paint {
    /// Hide the cursor.
    Hide,
    /// Show the cursor.
    Show,
    /// Write `text` at the cursor.
    Write { text: String },
    /// Move the cursor left.
    Left { by: usize },
    /// Move the cursor right.
    Right { by: usize },
    /// End the line.
    NewLine,
}

/// A thing to draw as contracts see it.
pub enum PaintView {
    Hide,
    Show,
    Write { text: Seq<char> },
    Left { by: usize },
    Right { by: usize },
    NewLine,
}

impl DeepView for Paint {
    type V = PaintView;

    open spec fn deep_view(&self) -> PaintView {
        match self {
            Paint::Hide => PaintView::Hide,
            Paint::Show => PaintView::Show,
            Paint::Write { text } => PaintView::Write { text: text@ },
            Paint::Left { by } => PaintView::Left { by: *by },
            Paint::Right { by } => PaintView::Right { by: *by },
            Paint::NewLine => PaintView::NewLine,
        }
    }
}

/// What a key led to: what to draw, and the finished line where the key ended
/// it.
pub struct Pressed {
    pub paints: Vec<Paint>,
    pub line: Option<String>,
}

/// What a key led to, as contracts see it.
pub struct PressedView {
    pub paints: Seq<PaintView>,
    pub line: Option<Seq<char>>,
}

impl DeepView for Pressed {
    type V = PressedView;

    open spec fn deep_view(&self) -> PressedView {
        PressedView { paints: self.paints.deep_view(), line: self.line.deep_view() }
    }
}

/// The line that is being typed.
pub struct Editor {
    buffer: Vec<char>,
    cursor: usize,
    browsing: Option<usize>,
}

/// The editor as contracts see it.
pub struct EditorView {
    /// The characters of the line.
    pub buffer: Seq<char>,
    /// How many characters stand before the cursor.
    pub cursor: int,
    /// The position in the history of the line that was called up last.
    pub browsing: Option<usize>,
}

impl EditorView {
    /// The cursor stands in the line or at its end.
    pub open spec fn wf(self) -> bool {
        0 <= self.cursor <= self.buffer.len()
    }
}

impl View for Editor {
    type V = EditorView;

    closed spec fn view(&self) -> EditorView {
        EditorView { buffer: self.buffer@, cursor: self.cursor as int, browsing: self.browsing }
    }
}

/// An empty line, with no line of the history called up.
pub open spec fn fresh() -> EditorView {
    EditorView { buffer: Seq::empty(), cursor: 0, browsing: None }
}

/// Nothing happens.
pub open spec fn unmoved(state: EditorView) -> (EditorView, PressedView) {
    (state, PressedView { paints: Seq::empty(), line: None })
}

/// The line `at` of the history takes the place of the line: it is written
/// over the old one from the start, what the old one had more is blanked, and
/// the cursor stands at its end.
pub open spec fn recalled(state: EditorView, history: Seq<Seq<char>>, at: usize) -> (
    EditorView,
    PressedView,
) {
    let entry = history[at as int];
    let over = state.buffer.len() - entry.len();
    let redraw = seq![
        PaintView::Left { by: state.cursor as usize },
        PaintView::Write { text: entry },
    ];
    (
        EditorView { buffer: entry, cursor: entry.len() as int, browsing: Some(at) },
        PressedView {
            paints: if over > 0 {
                redraw + seq![
                    PaintView::Write { text: blanks(over as nat) },
                    PaintView::Left { by: over as usize },
                ]
            } else {
                redraw
            },
            line: None,
        },
    )
}

/// What a key does to the line.
///
/// A character other than a tab goes in at the cursor. Backspace takes out the
/// character before the cursor, and delete the one under it. The arrows, home
/// and end move the cursor within the line. Up and down call up the lines of
/// the history, from the newest back and forth. Enter ends the line.
pub open spec fn edited(state: EditorView, key: Key, history: Seq<Seq<char>>) -> (
    EditorView,
    PressedView,
) {
    let len = state.buffer.len() as int;
    let at = state.cursor;
    match key {
        Key::Char(c) => if c == '\t' {
            unmoved(state)
        } else {
            let buffer = state.buffer.insert(at, c);
            (
                EditorView { buffer, cursor: at + 1, ..state },
                PressedView {
                    paints: seq![
                        PaintView::Hide,
                        PaintView::Write { text: buffer.skip(at) },
                        PaintView::Left { by: (len + 1 - at) as usize },
                        PaintView::Show,
                        PaintView::Right { by: 1 },
                    ],
                    line: None,
                },
            )
        },
        Key::Backspace => if at >= 1 {
            (
                EditorView { buffer: state.buffer.remove(at - 1), cursor: at - 1, ..state },
                PressedView {
                    paints: seq![
                        PaintView::Hide,
                        PaintView::Left { by: 1 },
                        PaintView::Write { text: state.buffer.skip(at) },
                        PaintView::Write { text: seq![' '] },
                        PaintView::Left { by: (len - at + 1) as usize },
                        PaintView::Show,
                    ],
                    line: None,
                },
            )
        } else {
            unmoved(state)
        },
        Key::Del => if at < len {
            let buffer = state.buffer.remove(at);
            (
                EditorView { buffer, ..state },
                PressedView {
                    paints: seq![
                        PaintView::Hide,
                        PaintView::Write { text: buffer.skip(at) },
                        PaintView::Write { text: seq![' '] },
                        PaintView::Left { by: (len - at) as usize },
                        PaintView::Show,
                    ],
                    line: None,
                },
            )
        } else {
            unmoved(state)
        },
        Key::Enter => (
            state,
            PressedView { paints: seq![PaintView::NewLine], line: Some(state.buffer) },
        ),
        Key::ArrowLeft => if at >= 1 {
            (
                EditorView { cursor: at - 1, ..state },
                PressedView { paints: seq![PaintView::Left { by: 1 }], line: None },
            )
        } else {
            unmoved(state)
        },
        Key::ArrowRight => if at < len {
            (
                EditorView { cursor: at + 1, ..state },
                PressedView { paints: seq![PaintView::Right { by: 1 }], line: None },
            )
        } else {
            unmoved(state)
        },
        Key::Home => (
            EditorView { cursor: 0, ..state },
            PressedView { paints: seq![PaintView::Left { by: at as usize }], line: None },
        ),
        Key::End => (
            EditorView { cursor: len, ..state },
            PressedView { paints: seq![PaintView::Right { by: (len - at) as usize }], line: None },
        ),
        Key::ArrowUp => if history.len() == 0 {
            unmoved(state)
        } else {
            match state.browsing {
                Some(p) => if p >= history.len() {
                    recalled(state, history, (history.len() - 1) as usize)
                } else if p != 0 {
                    recalled(state, history, (p - 1) as usize)
                } else {
                    recalled(state, history, p)
                },
                None => recalled(state, history, (history.len() - 1) as usize),
            }
        },
        Key::ArrowDown => match state.browsing {
            Some(p) => if p >= history.len() {
                unmoved(state)
            } else if p != history.len() - 1 {
                recalled(state, history, (p + 1) as usize)
            } else {
                recalled(state, history, p)
            },
            None => unmoved(state),
        },
        Key::Other => unmoved(state),
    }
}

/// A key leaves the cursor in the line.
pub proof fn lemma_edited_wf(state: EditorView, key: Key, history: Seq<Seq<char>>)
    requires
        state.wf(),
    ensures
        edited(state, key, history).0.wf(),
{
}

/// What a key leads to that does nothing.
fn still() -> (out: Pressed)
    ensures
        out.deep_view() == (PressedView { paints: Seq::empty(), line: None }),
{
    let paints: Vec<Paint> = Vec::new();
    assert(paints.deep_view() =~= Seq::<PaintView>::empty());
    Pressed { paints, line: None }
}

/// Adds one thing to draw.
fn draw(paints: &mut Vec<Paint>, paint: Paint)
    ensures
        final(paints).deep_view() == old(paints).deep_view().push(paint.deep_view()),
{
    paints.push(paint);
    assert(paints.deep_view() =~= old(paints).deep_view().push(paint.deep_view()));
}

impl Editor {
    /// An editor with an empty line.
    pub fn new() -> (out: Editor)
        ensures
            out@ == fresh(),
            out@.wf(),
    {
        Editor { buffer: Vec::new(), cursor: 0, browsing: None }
    }

    /// The line as it stands.
    pub fn text(&self) -> (out: String)
        ensures
            out@ == self@.buffer,
    {
        let out = text_of(&self.buffer, 0, self.buffer.len());
        assert(self.buffer@.subrange(0, self.buffer.len() as int) =~= self.buffer@);
        out
    }

    /// How many characters stand before the cursor.
    pub fn cursor(&self) -> (at: usize)
        ensures
            at == self@.cursor,
    {
        self.cursor
    }

    fn recall(&mut self, history: &Vec<String>, at: usize) -> (out: Pressed)
        requires
            at < history.len(),
            old(self)@.wf(),
        ensures
            (final(self)@, out.deep_view()) == recalled(old(self)@, history.deep_view(), at),
    {
        let entry = to_chars(history[at].as_str());
        assert(history.deep_view()[at as int] == history[at as int]@);
        let mut paints: Vec<Paint> = Vec::new();
        assert(paints.deep_view() =~= Seq::<PaintView>::empty());
        draw(&mut paints, Paint::Left { by: self.cursor });
        draw(&mut paints, Paint::Write { text: history[at].clone() });
        if self.buffer.len() > entry.len() {
            let over = self.buffer.len() - entry.len();
            draw(&mut paints, Paint::Write { text: spaces(over) });
            draw(&mut paints, Paint::Left { by: over });
        }
        proof {
            let want = recalled(self@, history.deep_view(), at).1.paints;
            assert(paints.deep_view() =~= want);
        }
        self.cursor = entry.len();
        self.buffer = entry;
        self.browsing = Some(at);
        Pressed { paints, line: None }
    }

    /// Takes a key, with the history as it stands, and says what to draw and
    /// whether the line is finished.
    pub fn press(&mut self, key: Key, history: &Vec<String>) -> (out: Pressed)
        requires
            old(self)@.wf(),
        ensures
            (final(self)@, out.deep_view()) == edited(old(self)@, key, history.deep_view()),
            final(self)@.wf(),
    {
        proof {
            lemma_edited_wf(self@, key, history.deep_view());
        }
        let len = self.buffer.len();
        let at = self.cursor;
        let ghost before = self@;
        let ghost want = edited(before, key, history.deep_view()).1.paints;
        let mut paints: Vec<Paint> = Vec::new();
        assert(paints.deep_view() =~= Seq::<PaintView>::empty());
        match key {
            Key::Char(c) => {
                if c == '\t' {
                    return still();
                }
                self.buffer.insert(at, c);
                let grown = self.buffer.len();
                assert(grown == len + 1);
                self.cursor = at + 1;
                draw(&mut paints, Paint::Hide);
                let text = text_of(&self.buffer, at, grown);
                assert(text@ =~= self.buffer@.skip(at as int));
                draw(&mut paints, Paint::Write { text });
                draw(&mut paints, Paint::Left { by: grown - at });
                draw(&mut paints, Paint::Show);
                draw(&mut paints, Paint::Right { by: 1 });
                assert(paints.deep_view() =~= want);
                Pressed { paints, line: None }
            },
            Key::Backspace => {
                if at < 1 {
                    return still();
                }
                draw(&mut paints, Paint::Hide);
                draw(&mut paints, Paint::Left { by: 1 });
                let text = text_of(&self.buffer, at, len);
                assert(text@ =~= self.buffer@.skip(at as int));
                draw(&mut paints, Paint::Write { text });
                proof {
                    reveal_strlit(" ");
                    assert(" "@ =~= seq![' ']);
                }
                draw(&mut paints, Paint::Write { text: " ".to_owned() });
                draw(&mut paints, Paint::Left { by: len - at + 1 });
                draw(&mut paints, Paint::Show);
                assert(paints.deep_view() =~= want);
                self.buffer.remove(at - 1);
                self.cursor = at - 1;
                Pressed { paints, line: None }
            },
            Key::Del => {
                if at >= len {
                    return still();
                }
                self.buffer.remove(at);
                draw(&mut paints, Paint::Hide);
                let text = text_of(&self.buffer, at, len - 1);
                assert(text@ =~= self.buffer@.skip(at as int));
                draw(&mut paints, Paint::Write { text });
                proof {
                    reveal_strlit(" ");
                    assert(" "@ =~= seq![' ']);
                }
                draw(&mut paints, Paint::Write { text: " ".to_owned() });
                draw(&mut paints, Paint::Left { by: len - at });
                draw(&mut paints, Paint::Show);
                assert(paints.deep_view() =~= want);
                Pressed { paints, line: None }
            },
            Key::Enter => {
                draw(&mut paints, Paint::NewLine);
                assert(paints.deep_view() =~= want);
                Pressed { paints, line: Some(self.text()) }
            },
            Key::ArrowLeft => {
                if at < 1 {
                    return still();
                }
                self.cursor = at - 1;
                draw(&mut paints, Paint::Left { by: 1 });
                assert(paints.deep_view() =~= want);
                Pressed { paints, line: None }
            },
            Key::ArrowRight => {
                if at >= len {
                    return still();
                }
                self.cursor = at + 1;
                draw(&mut paints, Paint::Right { by: 1 });
                assert(paints.deep_view() =~= want);
                Pressed { paints, line: None }
            },
            Key::Home => {
                self.cursor = 0;
                draw(&mut paints, Paint::Left { by: at });
                assert(paints.deep_view() =~= want);
                Pressed { paints, line: None }
            },
            Key::End => {
                self.cursor = len;
                draw(&mut paints, Paint::Right { by: len - at });
                assert(paints.deep_view() =~= want);
                Pressed { paints, line: None }
            },
            Key::ArrowUp => {
                assert(history.deep_view().len() == history.len());
                if history.len() == 0 {
                    return still();
                }
                let to = match self.browsing {
                    Some(p) => {
                        if p >= history.len() {
                            history.len() - 1
                        } else if p != 0 {
                            p - 1
                        } else {
                            p
                        }
                    },
                    None => history.len() - 1,
                };
                self.recall(history, to)
            },
            Key::ArrowDown => {
                assert(history.deep_view().len() == history.len());
                match self.browsing {
                    Some(p) => {
                        if p >= history.len() {
                            return still();
                        }
                        let to = if p != history.len() - 1 {
                            p + 1
                        } else {
                            p
                        };
                        self.recall(history, to)
                    },
                    None => still(),
                }
            },
            Key::Other => still(),
        }
    }
}

/// The editor after the characters of `text` were typed one by one.
pub open spec fn typed(state: EditorView, text: Seq<char>, history: Seq<Seq<char>>) -> EditorView
    decreases text.len(),
{
    if text.len() == 0 {
        state
    } else {
        edited(typed(state, text.drop_last(), history), Key::Char(text.last()), history).0
    }
}

/// What is typed into an empty line is the line that enter hands back: typing
/// the characters of a text without tabs, in their order, and then enter gives
/// that text.
pub proof fn lemma_typed_line(text: Seq<char>, history: Seq<Seq<char>>)
    requires
        !text.contains('\t'),
    ensures
        typed(fresh(), text, history).buffer == text,
        typed(fresh(), text, history).cursor == text.len(),
        edited(typed(fresh(), text, history), Key::Enter, history).1.line == Some(text),
    decreases text.len(),
{
    if text.len() > 0 {
        let front = text.drop_last();
        assert forall|i: int| 0 <= i < front.len() implies front[i] != '\t' by {
            assert(text.contains(text[i]));
        }
        lemma_typed_line(front, history);
        assert(text.contains(text.last()));
        assert(front.insert(front.len() as int, text.last()) =~= text);
    }
}

/// Backspace undoes the character that was just typed.
pub proof fn lemma_backspace_undoes(state: EditorView, c: char, history: Seq<Seq<char>>)
    requires
        state.wf(),
        c != '\t',
    ensures
        edited(edited(state, Key::Char(c), history).0, Key::Backspace, history).0 == state,
{
    let mid = edited(state, Key::Char(c), history).0;
    assert(mid.buffer.remove(state.cursor) =~= state.buffer);
}

} // verus!
