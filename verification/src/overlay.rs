//! The text prompt shown over the canvas (token or comment input): who is
//! waiting for its answer, and how its fields are set up and read.

use vstd::prelude::*;
use crate::text::{contains, contains_text, same_text};

verus! {

broadcast use vstd::string::group_string_axioms;

/// The callback waiting for the prompt's answer; the prompt is open
/// exactly while one is held.
pub struct OverlaySlot<H> {
    pub handler: Option<H>,
}

impl<H> OverlaySlot<H> {
    /// No prompt open.
    pub fn new() -> (r: Self)
        ensures
            r.handler is None,
    {
        OverlaySlot { handler: None }
    }

    /// Whether a prompt is open.
    pub fn is_open(&self) -> (r: bool)
        ensures
            r == self.handler is Some,
    {
        self.handler.is_some()
    }

    /// Opens a prompt for `on_done`, dropping any earlier one.
    pub fn open(&mut self, on_done: H)
        ensures
            final(self).handler == Some(on_done),
    {
        self.close();
        self.handler = Some(on_done);
    }

    /// Closes the prompt without answering.
    pub fn close(&mut self)
        ensures
            final(self).handler is None,
    {
        self.handler = None;
    }

    /// Closes the prompt and hands back the callback to answer, if any.
    pub fn finish(&mut self) -> (r: Option<H>)
        ensures
            r == old(self).handler,
            final(self).handler is None,
    {
        let mut taken: Option<H> = None;
        std::mem::swap(&mut taken, &mut self.handler);
        taken
    }
}

/// The input type of the single-line field: hidden for a token.
pub open spec fn input_type_for(title: Seq<char>) -> Seq<char> {
    if contains_text(title, "token"@) {
        "password"@
    } else {
        "text"@
    }
}

pub fn input_type(title: &str) -> (r: &'static str)
    ensures
        r@ == input_type_for(title@),
{
    if contains(title, "token") {
        "password"
    } else {
        "text"
    }
}

/// The CSS `display` of a field: shown or hidden.
pub fn display_value(shown: bool) -> (r: &'static str)
    ensures
        r@ == (if shown { "block"@ } else { "none"@ }),
{
    if shown {
        "block"
    } else {
        "none"
    }
}

/// The id of the field that takes the focus.
pub fn field_id(multiline: bool) -> (r: &'static str)
    ensures
        r@ == (if multiline { "inbox-overlay-area"@ } else { "inbox-overlay-input"@ }),
{
    if multiline {
        "inbox-overlay-area"
    } else {
        "inbox-overlay-input"
    }
}

/// The prompt's answer: the text area's value unless the area is hidden
/// (or missing), else the single-line field's value, else nothing.
pub open spec fn answer_of(
    area: Option<(Seq<char>, Seq<char>)>,
    input: Option<Seq<char>>,
) -> Seq<char> {
    match area {
        Some(a) if a.0 != "none"@ => a.1,
        _ => match input {
            Some(v) => v,
            None => Seq::<char>::empty(),
        },
    }
}

/// Picks the prompt's answer from the area's `(display, value)` and the
/// single-line field's value, for whichever exists.
pub fn current_answer(area: Option<(String, String)>, input: Option<String>) -> (r: String)
    ensures
        r@ == answer_of(
            match area {
                Some(a) => Some((a.0@, a.1@)),
                None => None,
            },
            match input {
                Some(v) => Some(v@),
                None => None,
            },
        ),
{
    if let Some((display, value)) = area {
        if !same_text(display.as_str(), "none") {
            return value;
        }
    }
    match input {
        Some(v) => v,
        None => String::new(),
    }
}

} // verus!
