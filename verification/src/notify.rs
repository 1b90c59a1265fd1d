//! The words of a desktop notification.

use vstd::prelude::*;

use crate::text::push_str;

verus! {

/// The notification's title and body: the chat's name, and the summary,
/// after the sender's name in a group.
pub open spec fn notification_lines(
    chat_name: Seq<char>,
    is_group: bool,
    sender: Seq<char>,
    summary: Seq<char>,
) -> (Seq<char>, Seq<char>) {
    (chat_name, if is_group {
        sender + ": "@ + summary
    } else {
        summary
    })
}

/// Builds the notification title and body, including the group sender.
pub fn lines(chat_name: &str, is_group: bool, sender: &str, summary: &str) -> (r: (
    String,
    String,
))
    ensures
        (r.0@, r.1@) == notification_lines(chat_name@, is_group, sender@, summary@),
{
    let body = if is_group {
        let mut body = String::from_str(sender);
        push_str(&mut body, ": ");
        push_str(&mut body, summary);
        body
    } else {
        String::from_str(summary)
    };
    (String::from_str(chat_name), body)
}

} // verus!
