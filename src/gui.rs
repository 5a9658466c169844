//! Text content for on-screen widgets.
use vstd::prelude::*;

verus! {

/// A piece of a text box: a run of text in one font, or a line break.
#[derive(Debug)]
pub enum Span {
    Text { text: String, font: String },
    Newline,
}

/// Text laid out as a sequence of spans.
#[derive(Debug)]
pub struct TextBox {
    pub text: Vec<Span>,
}

impl TextBox {
    pub fn new(text: Vec<Span>) -> (r: TextBox)
        ensures
            r.text@ == text@,
    {
        TextBox { text }
    }
}

} // verus!
