//! Text values: free text with its escapes decoded, together with the
//! parameters of the line it came from.
use vstd::prelude::*;
use crate::content_line::{unescape, unescaped, ContentLine, Param};

verus! {

/// A text value.
#[derive(Clone, Debug, PartialEq, Eq)]
pub struct Text {
    /// The parameters of the content line, as they were parsed.
    pub params: Vec<Param>,
    /// The text, decoded.
    pub text: String,
}

impl Text {
    /// The text of a content line: its value with the escapes decoded, and
    /// its parameters as they are.
    pub fn from_content_line(line: ContentLine) -> (t: Text)
        ensures
            t.params == line.params,
            t.text@ == unescaped(line.value@, false),
    {
        let text = unescape(line.value.as_str());
        Text { params: line.params, text }
    }

    /// The text that a raw value writes, without parameters.
    pub fn parse(raw: &str) -> (t: Text)
        ensures
            t.params@.len() == 0,
            t.text@ == unescaped(raw@, false),
    {
        Text { params: Vec::new(), text: unescape(raw) }
    }

    /// The decoded text.
    pub fn as_str(&self) -> (s: &str)
        ensures
            s@ == self.text@,
    {
        self.text.as_str()
    }

    /// The decoded text, as a string of its own.
    pub fn to_text(&self) -> (s: String)
        ensures
            s@ == self.text@,
    {
        self.text.clone()
    }
}

} // verus!
