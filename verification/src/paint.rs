//! Colour for the terminal. What is written for a coloured text depends on the
//! terminal, so a painted text carries both the text and what is to be written.

use vstd::prelude::*;
use vstd::string::*;

verus! {

/// The colour of a text.
#[derive(Clone, Copy, Debug, PartialEq, Eq, Structural)]
pub enum Tint {
    Plain,
    Green,
    Blue,
    Red,
}

/// Calls `console::style` for bright green and writes the styled text out. The
/// result holds colour codes or not as the terminal takes them, so nothing is
/// claimed of it.
#[verifier::external_body]
fn green_bright(text: &str) -> (out: String) {
    console::style(text).green().bright().to_string()
}

/// Calls `console::style` for bright blue and writes the styled text out. The
/// result holds colour codes or not as the terminal takes them, so nothing is
/// claimed of it.
#[verifier::external_body]
fn blue_bright(text: &str) -> (out: String) {
    console::style(text).blue().bright().to_string()
}

/// Calls `console::style` for bright red and writes the styled text out. The
/// result holds colour codes or not as the terminal takes them, so nothing is
/// claimed of it.
#[verifier::external_body]
fn red_bright(text: &str) -> (out: String) {
    console::style(text).red().bright().to_string()
}

/// A text with its colour, and what is to be written for it.
pub struct Painted {
    pub text: String,
    pub tint: Tint,
    /// What the terminal is sent: the text itself where it is plain.
    pub shown: String,
}

/// A painted text as contracts see it.
pub struct PaintedView {
    pub text: Seq<char>,
    pub tint: Tint,
    pub shown: Seq<char>,
}

impl DeepView for Painted {
    type V = PaintedView;

    open spec fn deep_view(&self) -> PaintedView {
        PaintedView { text: self.text@, tint: self.tint, shown: self.shown@ }
    }
}

/// Whether `painted` is `text` in `tint`: a plain text is written as it is.
pub open spec fn paints(painted: PaintedView, text: Seq<char>, tint: Tint) -> bool {
    &&& painted.text == text
    &&& painted.tint == tint
    &&& tint == Tint::Plain ==> painted.shown == text
}

/// Paints `text` in `tint`.
pub fn paint(text: String, tint: Tint) -> (out: Painted)
    ensures
        paints(out.deep_view(), text@, tint),
{
    let shown = match tint {
        Tint::Plain => text.clone(),
        Tint::Green => green_bright(text.as_str()),
        Tint::Blue => blue_bright(text.as_str()),
        Tint::Red => red_bright(text.as_str()),
    };
    Painted { text, tint, shown }
}

} // verus!
