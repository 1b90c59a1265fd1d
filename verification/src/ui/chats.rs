//! A chat row's preview line: who is typing, and whose message it shows.

use vstd::prelude::*;

use crate::text::{
    chars_of, from_chars, is_white_space, is_whitespace, push_str, slice_skip, slice_take,
    trim_start_text,
};

verus! {

/// A text without the `c` characters it starts with (`trim_start_matches`).
pub open spec fn without_leading(s: Seq<char>, c: char) -> Seq<char>
    decreases s.len(),
{
    if s.len() > 0 && s[0] == c {
        without_leading(s.drop_first(), c)
    } else {
        s
    }
}

/// How many characters a text starts with before its first white space.
pub open spec fn word_length(s: Seq<char>) -> nat
    decreases s.len(),
{
    if s.len() == 0 || is_white_space(s[0]) {
        0
    } else {
        1 + word_length(s.drop_first())
    }
}

/// The first word of a text (`split_whitespace().next()`), or the whole
/// text when it has no word.
pub open spec fn first_word(s: Seq<char>) -> Seq<char> {
    let t = trim_start_text(s);
    if t.len() == 0 {
        s
    } else {
        t.take(word_length(t) as int)
    }
}

/// What a row reads while someone is typing: in a group, who (the first to
/// start, without the `~` a push name is marked with); in a chat with one
/// person, only that someone is.
pub open spec fn typing_line(group: bool, first: Seq<char>) -> Seq<char> {
    if group {
        without_leading(first, '~') + " is typing…"@
    } else {
        "typing…"@
    }
}

/// The preview line while someone types in a chat, given the names of who
/// is typing in the order they started; `None` while nobody is.
pub fn typing_preview(group: bool, typers: &[String]) -> (r: Option<String>)
    ensures
        r is None <==> typers@.len() == 0,
        r matches Some(line) ==> line@ == typing_line(group, typers@[0]@),
{
    if typers.len() == 0 {
        return None;
    }
    if !group {
        return Some(String::from_str("typing…"));
    }
    let chars = chars_of(typers[0].as_str());
    let mut i: usize = 0;
    assert(chars@.skip(0) =~= chars@);
    while i < chars.len() && chars[i] == '~'
        invariant
            i <= chars@.len(),
            without_leading(chars@, '~') == without_leading(chars@.skip(i as int), '~'),
        decreases chars@.len() - i,
    {
        assert(chars@.skip(i as int).drop_first() =~= chars@.skip(i + 1));
        i = i + 1;
    }
    let mut line = from_chars(slice_skip(chars.as_slice(), i));
    push_str(&mut line, " is typing…");
    Some(line)
}

/// What a group's row puts before the preview of a message from someone
/// else: the sender's first word and a colon.
pub fn sender_lead(name: &str) -> (r: String)
    ensures
        r@ == first_word(name@) + ": "@,
{
    let chars = chars_of(name);
    let mut i: usize = 0;
    assert(chars@.skip(0) =~= chars@);
    while i < chars.len() && is_whitespace(chars[i])
        invariant
            i <= chars@.len(),
            trim_start_text(chars@) == trim_start_text(chars@.skip(i as int)),
        decreases chars@.len() - i,
    {
        assert(chars@.skip(i as int).drop_first() =~= chars@.skip(i + 1));
        i = i + 1;
    }
    let ghost t = chars@.skip(i as int);
    assert(trim_start_text(chars@) == t);
    let mut lead = if i == chars.len() {
        assert(t.len() == 0);
        String::from_str(name)
    } else {
        let mut j: usize = i;
        while j < chars.len() && !is_whitespace(chars[j])
            invariant
                i <= j <= chars@.len(),
                t == chars@.skip(i as int),
                word_length(t) == (j - i) + word_length(chars@.skip(j as int)),
                forall|k: int| i <= k < j ==> !is_white_space(#[trigger] chars@[k]),
            decreases chars@.len() - j,
        {
            assert(chars@.skip(j as int).drop_first() =~= chars@.skip(j + 1));
            j = j + 1;
        }
        assert(word_length(chars@.skip(j as int)) == 0);
        let word = slice_take(slice_skip(chars.as_slice(), i), j - i);
        assert(word@ =~= t.take(word_length(t) as int));
        from_chars(word)
    };
    push_str(&mut lead, ": ");
    lead
}

} // verus!
