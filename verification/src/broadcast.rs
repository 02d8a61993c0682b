//! What the server tells its clients: the three lines, and to whom a line
//! goes.
use vstd::prelude::*;
use crate::connection::Message;
use crate::wire::MessageView;

verus! {

/// One line for every connection that is live when it is sent. The caller
/// writes `text` once to each of `recipients`, which lists every live
/// connection once, the one that caused the line included.
#[derive(Debug, Clone, PartialEq, Eq)]
pub struct Broadcast {
    pub text: String,
    pub recipients: Vec<usize>,
}

/// The line that announces a newly registered user.
pub open spec fn entered_text(username: Seq<char>) -> Seq<char> {
    username + " entered the chat."@
}

/// The line that relays a chat text under its sender's name.
pub open spec fn chat_text(username: Seq<char>, text: Seq<char>) -> Seq<char> {
    username + ": "@ + text
}

/// The line that announces that a user is gone.
pub open spec fn left_text(username: Seq<char>) -> Seq<char> {
    username + " left the chat."@
}

/// The line that an event on a connection gives, where `username` is the
/// name the connection had registered when the event arrived. A connection
/// that goes without having registered is not announced.
pub open spec fn line_for(username: Option<Seq<char>>, event: MessageView) -> Option<Seq<char>> {
    match event {
        MessageView::Request(name) => Some(entered_text(name)),
        MessageView::Message(text) => match username {
            Some(sender) => Some(chat_text(sender, text)),
            None => None,
        },
        MessageView::Close => match username {
            Some(leaver) => Some(left_text(leaver)),
            None => None,
        },
    }
}

/// Formats the line for a user who has registered.
pub fn entered_line(username: &str) -> (line: String)
    ensures
        line@ == entered_text(username@),
{
    String::from_str(username).concat(" entered the chat.")
}

/// Formats the line for a chat text.
pub fn chat_line(username: &str, text: &str) -> (line: String)
    ensures
        line@ == chat_text(username@, text@),
{
    String::from_str(username).concat(": ").concat(text)
}

/// Formats the line for a user who has left.
pub fn left_line(username: &str) -> (line: String)
    ensures
        line@ == left_text(username@),
{
    String::from_str(username).concat(" left the chat.")
}

/// Formats the line that an event gives, if it gives one.
pub fn format_event(username: &Option<String>, event: &Message) -> (line: Option<String>)
    ensures
        match line {
            Some(text) => Some(text@),
            None => None,
        } == line_for(
            match *username {
                Some(name) => Some(name@),
                None => None,
            },
            event@,
        ),
{
    match event {
        Message::Request(name) => Some(entered_line(name.as_str())),
        Message::Message(text) => match username {
            Some(sender) => Some(chat_line(sender.as_str(), text.as_str())),
            None => None,
        },
        Message::Close => match username {
            Some(leaver) => Some(left_line(leaver.as_str())),
            None => None,
        },
    }
}

} // verus!
