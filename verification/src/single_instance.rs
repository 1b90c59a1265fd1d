//! One running instance at a time.
//!
//! A second launch does not start a second app; it asks the one already
//! running to show its window and exits. The conversation is one line each
//! way over a loopback socket; this module decides what a line means.

use vstd::prelude::*;
use vstd::utf8::{decode_utf8, valid_utf8};

use crate::text::{
    chars_of, first_index_of, first_line, first_line_of, has_prefix, is_white_space,
    lemma_first_index_of, push_char, push_str, same_chars, slice_skip, starts_with, trim_end_chars,
    trim_end_text,
};

verus! {

/// Every request and reply starts with this, so a foreign program that
/// happens to hold the port is never mistaken for Fastsapp.
pub const PREFIX: &'static str = "fastsapp:";

/// What the running instance answers to a request it understood.
pub const OK_REPLY: &'static str = "fastsapp:ok";

/// The longest request line read before the client is dropped, in bytes.
pub const MAX_LINE: usize = 256;

/// What another launch asked the running instance to do.
#[derive(Clone, Copy, Debug, PartialEq, Eq)]
pub enum ControlCommand {
    /// Bring the window forward, creating it if the app lives in the tray.
    Show,
}

/// The command a request line asks for: our prefix, then `show`, with
/// trailing white space ignored.
pub open spec fn command_of(line: Seq<char>) -> Option<ControlCommand> {
    let line = trim_end_text(line);
    if has_prefix(line, "fastsapp:"@) && line.skip("fastsapp:"@.len() as int) == "show"@ {
        Some(ControlCommand::Show)
    } else {
        None
    }
}

/// The command a request line asks for, if it is ours.
pub fn parse(line: &str) -> (r: Option<ControlCommand>)
    ensures
        r == command_of(line@),
{
    let chars = chars_of(line);
    let trimmed = trim_end_chars(chars.as_slice());
    let prefix = chars_of("fastsapp:");
    if !starts_with(trimmed.as_slice(), prefix.as_slice()) {
        return None;
    }
    let rest = slice_skip(trimmed.as_slice(), prefix.len());
    let show = chars_of("show");
    if same_chars(rest, show.as_slice()) {
        Some(ControlCommand::Show)
    } else {
        None
    }
}

/// `String::from_utf8`: the text that some bytes encode, if they are
/// well-formed UTF-8.
#[verifier::external_body]
fn utf8_text(bytes: &[u8]) -> (r: Option<String>)
    ensures
        r is Some <==> valid_utf8(bytes@),
        r matches Some(text) ==> text@ == decode_utf8(bytes@),
{
    String::from_utf8(bytes.to_vec()).ok()
}

/// The index of the first line feed byte, or the length.
pub open spec fn first_newline(bytes: Seq<u8>) -> int
    decreases bytes.len(),
{
    if bytes.len() == 0 || bytes[0] == 10 {
        0
    } else {
        1 + first_newline(bytes.drop_first())
    }
}

proof fn lemma_first_newline(bytes: Seq<u8>)
    ensures
        0 <= first_newline(bytes) <= bytes.len(),
        first_newline(bytes) < bytes.len() ==> bytes[first_newline(bytes)] == 10,
        forall|i: int| 0 <= i < first_newline(bytes) ==> bytes[i] != 10,
    decreases bytes.len(),
{
    if bytes.len() > 0 && bytes[0] != 10 {
        lemma_first_newline(bytes.drop_first());
        assert forall|i: int| 0 <= i < first_newline(bytes) implies bytes[i] != 10 by {
            if i > 0 {
                assert(bytes[i] == bytes.drop_first()[i - 1]);
            }
        }
    }
}

/// What a client sent, read up to its first line feed, the end of its
/// stream, or `MAX_LINE` bytes: the line, when there was one within the
/// limit and it is UTF-8.
pub open spec fn request_line(received: Seq<u8>) -> Option<Seq<char>> {
    let end = first_newline(received);
    if end >= received.len() && received.len() >= MAX_LINE {
        None
    } else if valid_utf8(received.take(end)) {
        Some(decode_utf8(received.take(end)))
    } else {
        None
    }
}

/// The request in the bytes a client sent: up to the first newline. A
/// line too long to be one of ours disqualifies the client.
pub fn line_of(received: &[u8]) -> (r: Option<String>)
    ensures
        r matches Some(line) ==> request_line(received@) == Some(line@),
        r is None ==> request_line(received@) is None,
{
    proof {
        lemma_first_newline(received@);
    }
    let mut end: usize = 0;
    while end < received.len() && received[end] != 10
        invariant
            end <= received@.len(),
            forall|i: int| 0 <= i < end ==> received@[i] != 10,
            0 <= first_newline(received@) <= received@.len(),
            first_newline(received@) < received@.len() ==> received@[first_newline(received@)]
                == 10,
            forall|i: int| 0 <= i < first_newline(received@) ==> received@[i] != 10,
        decreases received@.len() - end,
    {
        end = end + 1;
    }
    assert(end == first_newline(received@));
    if end >= received.len() && received.len() >= MAX_LINE {
        return None;
    }
    utf8_text(crate::text::slice_take(received, end))
}

/// The line a launch sends to ask the running instance for `verb`.
pub fn request(verb: &str) -> (r: String)
    ensures
        r@ == "fastsapp:"@ + verb@ + seq!['\n'],
{
    let mut line = String::from_str(PREFIX);
    push_str(&mut line, verb);
    push_char(&mut line, '\n');
    line
}

/// The line the running instance answers a request it understood with.
pub fn reply() -> (r: String)
    ensures
        r@ == "fastsapp:ok"@ + seq!['\n'],
{
    let mut line = String::from_str(OK_REPLY);
    push_char(&mut line, '\n');
    line
}

/// Whether what came back is the running instance answering as itself:
/// its first line is our reply.
pub fn answered_as_us(received: &str) -> (r: bool)
    ensures
        r == (first_line(received@) == Some("fastsapp:ok"@)),
{
    match first_line_of(received) {
        Some(line) => {
            let got = chars_of(line.as_str());
            let ok = chars_of(OK_REPLY);
            same_chars(got.as_slice(), ok.as_slice())
        },
        None => false,
    }
}


/// A launch and the running instance understand each other: the line a
/// launch sends for a verb (up to its line feed) asks for the command of
/// that verb, and the reply the running instance writes is read as its
/// own.
pub proof fn requests_and_replies_agree(verb: Seq<char>)
    requires
        verb.len() == 0 || !is_white_space(verb.last()),
    ensures
        command_of("fastsapp:"@ + verb) == if verb == "show"@ {
            Some(ControlCommand::Show)
        } else {
            None
        },
        first_line("fastsapp:ok"@ + seq!['\n']) == Some("fastsapp:ok"@),
{
    reveal_strlit("fastsapp:");
    reveal_strlit("fastsapp:ok");
    reveal_strlit("show");
    let line = "fastsapp:"@ + verb;
    assert(line.last() == if verb.len() == 0 { ':' } else { verb.last() });
    assert(trim_end_text(line) == line);
    assert(line.take("fastsapp:"@.len() as int) =~= "fastsapp:"@);
    assert(line.skip("fastsapp:"@.len() as int) =~= verb);
    let reply = "fastsapp:ok"@ + seq!['\n'];
    lemma_first_index_of(reply, '\n');
    let end = first_index_of(reply, '\n');
    assert(reply[11] == '\n');
    if end < 11 {
        assert(reply[end] == "fastsapp:ok"@[end]);
    }
    assert(end == 11);
    assert(reply.take(11) =~= "fastsapp:ok"@);
}

} // verus!
