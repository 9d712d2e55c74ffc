//! Symbols used in replies, and the replies given to an interaction.
use vstd::prelude::*;

verus! {

/// Emojis used in replies.
pub struct Emoji;

impl Emoji {
    /// The warning sign emoji.
    pub const WARNING: &'static str = "\u{26A0}\u{FE0F}";
}

/// Markdown and typographic symbols used in replies.
pub struct Markdown;

impl Markdown {
    /// A bullet point.
    pub const BULLET_POINT: &'static str = "\u{2022}";
}

/// What kind of reply an interaction gets.
#[derive(Clone, Copy, Debug, PartialEq, Eq, Structural)]
pub enum ResponseKind {
    /// The interaction is acknowledged; a message follows later.
    Deferred,
    /// A message is sent at once.
    Message,
}

/// A reply to an interaction.
#[derive(Clone, Debug)]
pub struct Response {
    pub kind: ResponseKind,
    pub content: Option<String>,
}

impl Response {
    /// Acknowledges the interaction; the message follows by an edit.
    pub fn ack() -> (r: Response)
        ensures
            r.kind == ResponseKind::Deferred,
            r.content is None,
    {
        Response { kind: ResponseKind::Deferred, content: None }
    }

    /// Replies with a message, which must not be empty.
    pub fn message(message: String) -> (r: Response)
        requires
            message@.len() > 0,
        ensures
            r.kind == ResponseKind::Message,
            r.content == Some(message),
    {
        Response { kind: ResponseKind::Message, content: Some(message) }
    }
}

} // verus!
