//! Messages from the server. A text is first read as JSON, then classified by
//! its tag; whatever is not a known message is ignored, never an error.

use vstd::prelude::*;
use crate::text::same_text;

verus! {

#[verifier::external_type_specification]
#[verifier::external_body]
pub struct ExJsonError(serde_json::Error);

/// What this client looks at in a JSON document: the kind of its outermost
/// value, the text of a string, and the member names of an object.
#[derive(Clone, Debug, PartialEq, Eq)]
pub enum Outline {
    Null,
    Bool(bool),
    Number,
    Text(String),
    Array,
    Object(Vec<String>),
}

/// An [`Outline`] as a mathematical value.
pub enum OutlineView {
    Null,
    Bool(bool),
    Number,
    Text(Seq<char>),
    Array,
    Object(Seq<Seq<char>>),
}

impl View for Outline {
    type V = OutlineView;

    open spec fn view(&self) -> OutlineView {
        match self {
            Outline::Null => OutlineView::Null,
            Outline::Bool(b) => OutlineView::Bool(*b),
            Outline::Number => OutlineView::Number,
            Outline::Text(s) => OutlineView::Text(s@),
            Outline::Array => OutlineView::Array,
            Outline::Object(names) => OutlineView::Object(
                Seq::new(names@.len(), |i: int| names@[i]@),
            ),
        }
    }
}

/// The outline of the JSON document that `serde_json` reads from a text, or
/// `None` where the text is not one JSON document.
pub uninterp spec fn json_outline(text: Seq<char>) -> Option<OutlineView>;

/// A message from the server, as far as this client tells them apart.
#[derive(Clone, Copy, Debug, PartialEq, Eq, Structural)]
pub enum ServerMessage {
    /// The room was joined. What else the message says is not looked at.
    Join,
    /// The room asked for does not exist.
    RoomNotFound,
    /// Anything else: to be ignored.
    Other,
}

/// The message that an outline stands for. A tag is either the only member
/// name of an object (a message with a payload) or a bare string (a message
/// without one).
pub open spec fn classified(outline: OutlineView) -> ServerMessage {
    match outline {
        OutlineView::Object(names) => if names.len() == 1 && names[0] == "Join"@ {
            ServerMessage::Join
        } else if names.len() == 1 && names[0] == "RoomNotFound"@ {
            ServerMessage::RoomNotFound
        } else {
            ServerMessage::Other
        },
        OutlineView::Text(tag) => if tag == "RoomNotFound"@ {
            ServerMessage::RoomNotFound
        } else {
            ServerMessage::Other
        },
        _ => ServerMessage::Other,
    }
}

/// The message that a text from the server stands for: what its outline
/// stands for, and [`ServerMessage::Other`] where it is not JSON at all.
pub open spec fn decoded(text: Seq<char>) -> ServerMessage {
    match json_outline(text) {
        Some(outline) => classified(outline),
        None => ServerMessage::Other,
    }
}

/// Classifies the outline of a JSON document.
pub fn classify(outline: &Outline) -> (m: ServerMessage)
    ensures
        m == classified(outline@),
{
    match outline {
        Outline::Object(names) => {
            if names.len() != 1 {
                ServerMessage::Other
            } else if same_text(names[0].as_str(), "Join") {
                ServerMessage::Join
            } else if same_text(names[0].as_str(), "RoomNotFound") {
                ServerMessage::RoomNotFound
            } else {
                ServerMessage::Other
            }
        },
        Outline::Text(tag) => {
            if same_text(tag.as_str(), "RoomNotFound") {
                ServerMessage::RoomNotFound
            } else {
                ServerMessage::Other
            }
        },
        _ => ServerMessage::Other,
    }
}

/// Reads one text frame from the server. Never fails: a frame that is not
/// JSON, or whose tag this client does not know, is [`ServerMessage::Other`].
pub fn decode(text: &str) -> (m: ServerMessage)
    ensures
        m == decoded(text@),
{
    match outline_of(text) {
        Ok(outline) => classify(&outline),
        Err(_) => ServerMessage::Other,
    }
}

/// `serde_json::from_str` at the type `serde_json::Value`: succeeds exactly on
/// the texts that the crate reads as one JSON document, and then returns the
/// kind of the outermost value, with the text of a string and the member
/// names of an object as the crate's map hands them out.
#[verifier::external_body]
fn outline_of(text: &str) -> (r: Result<Outline, serde_json::Error>)
    ensures
        r is Ok <==> json_outline(text@) is Some,
        r is Ok ==> json_outline(text@) == Some(r->Ok_0@),
{
    match serde_json::from_str::<serde_json::Value>(text) {
        Ok(serde_json::Value::Null) => Ok(Outline::Null),
        Ok(serde_json::Value::Bool(b)) => Ok(Outline::Bool(b)),
        Ok(serde_json::Value::Number(_)) => Ok(Outline::Number),
        Ok(serde_json::Value::String(s)) => Ok(Outline::Text(s)),
        Ok(serde_json::Value::Array(_)) => Ok(Outline::Array),
        Ok(serde_json::Value::Object(m)) => Ok(Outline::Object(m.keys().cloned().collect())),
        Err(e) => Err(e),
    }
}

} // verus!
