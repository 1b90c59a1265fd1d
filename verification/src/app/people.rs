//! What the views ask about people: who is typing, their pictures, and
//! the members of a group.

use vstd::prelude::*;

use crate::app::{index_of_id, lemma_index_of_id, name_for, text_of, App};
use crate::backend::{commands_view, texts, Command, CommandView};
use crate::model::{media_in, Chat, Media};
use crate::text::{is_white_space, lowercase, trim_start_text};

verus! {

/// The names shown for typers.
pub open spec fn names_of(app: App, typers: Seq<(String, i64)>) -> Seq<Seq<char>> {
    typers.map_values(|t: (String, i64)| name_for(text_of(app.me), app.contacts@, app.chats@, t.0@))
}

/// The names of who is typing in a chat, in the order they started.
pub open spec fn typing_names(app: App, chat: Seq<char>) -> Seq<Seq<char>> {
    if app.people.typing@.contains_key(chat) {
        names_of(app, app.people.typing@[chat]@)
    } else {
        Seq::empty()
    }
}

/// Asking for a profile picture: what is known of it is given back; the
/// first time it is not known, the backend is asked for it.
#[verifier::opaque]
pub open spec fn avatar_looked_up(
    before: App,
    id: Seq<char>,
    full: bool,
    r: Option<String>,
    after: App,
) -> bool {
    let known = if full {
        before.people.avatars_full@
    } else {
        before.people.avatars@
    };
    let asked = if full {
        before.people.avatar_full_requests@
    } else {
        before.people.avatar_requests@
    };
    if known.contains_key(id) {
        &&& text_of(r) == text_of(known[id])
        &&& after == before
    } else if asked.contains_key(id) {
        &&& r is None
        &&& after == before
    } else {
        &&& r is None
        &&& commands_view(after.outbox@) == commands_view(before.outbox@).push(
            CommandView::FetchAvatar { id, full },
        )
        &&& if full {
            &&& after.people.avatar_full_requests@ == asked.insert(id, ())
            &&& after == (App {
                people: crate::app::People {
                    avatar_full_requests: after.people.avatar_full_requests,
                    ..before.people
                },
                outbox: after.outbox,
                ..before
            })
        } else {
            &&& after.people.avatar_requests@ == asked.insert(id, ())
            &&& after == (App {
                people: crate::app::People {
                    avatar_requests: after.people.avatar_requests,
                    ..before.people
                },
                outbox: after.outbox,
                ..before
            })
        }
    }
}

impl App {
    /// Who is typing in a chat right now, by name.
    pub fn typing_in(&self, chat: &str) -> (r: Vec<String>)
        ensures
            texts(r@) == typing_names(*self, chat@),
    {
        let mut out: Vec<String> = Vec::new();
        match self.people.typing.get(chat) {
            Some(typers) => {
                let mut i: usize = 0;
                while i < typers.len()
                    invariant
                        self.people.typing@.contains_key(chat@),
                        self.people.typing@[chat@] == *typers,
                        i <= typers@.len(),
                        texts(out@) == names_of(*self, typers@.take(i as int)),
                    decreases typers@.len() - i,
                {
                    let name = self.display_name(typers[i].0.as_str());
                    let ghost before = out@;
                    assert(before.len() == i) by {
                        assert(texts(before).len() == before.len());
                    }
                    out.push(name);
                    assert forall|k: int| 0 <= k < out@.len() implies texts(out@)[k] == names_of(
                        *self,
                        typers@.take(i + 1),
                    )[k] by {
                        assert(texts(out@)[k] == out@[k]@);
                        assert(names_of(*self, typers@.take(i + 1))[k] == name_for(
                            text_of(self.me),
                            self.contacts@,
                            self.chats@,
                            typers@[k].0@,
                        ));
                        if k < i {
                            assert(out@[k] == before[k]);
                            assert(texts(before)[k] == before[k]@);
                            assert(names_of(*self, typers@.take(i as int))[k] == name_for(
                                text_of(self.me),
                                self.contacts@,
                                self.chats@,
                                typers@[k].0@,
                            ));
                        }
                    }
                    assert(texts(out@) =~= names_of(*self, typers@.take(i + 1)));
                    i = i + 1;
                }
                assert(typers@.take(i as int) =~= typers@);
            },
            None => {
                assert(texts(out@) =~= Seq::<Seq<char>>::empty());
            },
        }
        out
    }

    fn look_up_avatar(&mut self, id: &str, full: bool) -> (r: Option<String>)
        ensures
            avatar_looked_up(*old(self), id@, full, r, *final(self)),
    {
        proof {
            reveal(avatar_looked_up);
        }
        let known = if full {
            self.people.avatars_full.get(id)
        } else {
            self.people.avatars.get(id)
        };
        match known {
            Some(path) => {
                return match path {
                    Some(p) => Some(p.clone()),
                    None => None,
                };
            },
            None => {},
        }
        let asked = if full {
            self.people.avatar_full_requests.contains_key(id)
        } else {
            self.people.avatar_requests.contains_key(id)
        };
        if asked {
            return None;
        }
        if full {
            self.people.avatar_full_requests.insert(String::from_str(id), ());
        } else {
            self.people.avatar_requests.insert(String::from_str(id), ());
        }
        self.send(Command::FetchAvatar { id: String::from_str(id), full });
        None
    }

    /// The profile picture of a chat or contact, asking the backend for it
    /// the first time.
    pub fn avatar(&mut self, id: &str) -> (r: Option<String>)
        ensures
            avatar_looked_up(*old(self), id@, false, r, *final(self)),
    {
        self.look_up_avatar(id, false)
    }

    /// The large profile picture of a chat or contact, asking the backend
    /// for it the first time.
    pub fn avatar_full(&mut self, id: &str) -> (r: Option<String>)
        ensures
            avatar_looked_up(*old(self), id@, true, r, *final(self)),
    {
        self.look_up_avatar(id, true)
    }

    /// The attachment of a message of a loaded chat, for views.
    pub fn media_of(&self, chat: &str, id: &str) -> (r: Option<&Media>)
        ensures
            r matches Some(media) ==> self.conversations@.contains_key(chat@) && (index_of_id(
                self.conversations@[chat@].messages@,
                id@,
            ) matches Some(i) && media_in(self.conversations@[chat@].messages@[i].content)
                == Some(*media)),
            r is None ==> !self.conversations@.contains_key(chat@) || (match index_of_id(
                self.conversations@[chat@].messages@,
                id@,
            ) {
                Some(i) => media_in(self.conversations@[chat@].messages@[i].content) is None,
                None => true,
            }),
    {
        match self.conversations.get(chat) {
            Some(c) => {
                match c.message(id) {
                    Some(m) => m.content.media(),
                    None => None,
                }
            },
            None => None,
        }
    }
}

// ---------------------------------------------------------------------
// The members of a group, as WhatsApp lists them under its name.

/// `a` comes no later than `b` in the order of their characters' code
/// points (the order of `String` comparison).
pub open spec fn text_le(a: Seq<char>, b: Seq<char>) -> bool
    decreases a.len(),
{
    if a.len() == 0 {
        true
    } else if b.len() == 0 {
        false
    } else if a[0] != b[0] {
        (a[0] as u32) < (b[0] as u32)
    } else {
        text_le(a.drop_first(), b.drop_first())
    }
}

/// The key names are sorted by: their lower case.
pub open spec fn name_key(name: Seq<char>) -> Seq<char> {
    lowercase(name)
}

/// Where a text goes among texts sorted by a key: after every text whose
/// key is no later than its own.
pub open spec fn key_slot(sorted: Seq<Seq<char>>, x: Seq<char>, by_name: bool) -> int
    decreases sorted.len(),
{
    if sorted.len() == 0 || !text_le(
        if by_name {
            name_key(sorted[0])
        } else {
            sorted[0]
        },
        if by_name {
            name_key(x)
        } else {
            x
        },
    ) {
        0
    } else {
        1 + key_slot(sorted.drop_first(), x, by_name)
    }
}

/// Texts sorted stably: by their lower case when `by_name`, else as they
/// are.
pub open spec fn sorted_texts(s: Seq<Seq<char>>, by_name: bool) -> Seq<Seq<char>>
    decreases s.len(),
{
    if s.len() == 0 {
        s
    } else {
        let sorted = sorted_texts(s.drop_last(), by_name);
        sorted.insert(key_slot(sorted, s.last(), by_name), s.last())
    }
}

/// Texts with each run of equal ones kept once.
pub open spec fn deduped(s: Seq<Seq<char>>) -> Seq<Seq<char>>
    decreases s.len(),
{
    if s.len() == 0 {
        s
    } else if s.len() >= 2 && s[s.len() - 1] == s[s.len() - 2] {
        deduped(s.drop_last())
    } else {
        deduped(s.drop_last()).push(s.last())
    }
}

/// Texts joined with commas.
pub open spec fn comma_joined(s: Seq<Seq<char>>) -> Seq<char>
    decreases s.len(),
{
    if s.len() == 0 {
        Seq::empty()
    } else if s.len() == 1 {
        s[0]
    } else {
        comma_joined(s.drop_last()) + ", "@ + s.last()
    }
}

/// A name without the tildes before it.
pub open spec fn tilde_trimmed(s: Seq<char>) -> Seq<char>
    decreases s.len(),
{
    if s.len() > 0 && s[0] == '~' {
        tilde_trimmed(s.drop_first())
    } else {
        s
    }
}

/// The length of the run of non-space characters a text starts with.
pub open spec fn word_length(s: Seq<char>) -> int
    decreases s.len(),
{
    if s.len() == 0 || is_white_space(s[0]) {
        0
    } else {
        1 + word_length(s.drop_first())
    }
}

/// The first word of a name, or the whole name when it has none.
pub open spec fn first_word(s: Seq<char>) -> Seq<char> {
    let t = trim_start_text(s);
    if t.len() == 0 {
        s
    } else {
        t.take(word_length(t))
    }
}

/// A name that is a phone number or unknown, which goes after the names.
pub open spec fn is_number_name(name: Seq<char>) -> bool {
    (name.len() > 0 && name[0] == '+') || name == "Unknown"@
}

/// The members other than us, split into first names and numbers, in
/// the order they are listed.
pub open spec fn member_names(app: App, ids: Seq<String>) -> (Seq<Seq<char>>, Seq<Seq<char>>)
    decreases ids.len(),
{
    if ids.len() == 0 {
        (Seq::empty(), Seq::empty())
    } else {
        let (names, numbers) = member_names(app, ids.drop_last());
        let id = ids.last()@;
        if text_of(app.me) == Some(id) {
            (names, numbers)
        } else {
            let name = name_for(text_of(app.me), app.contacts@, app.chats@, id);
            if is_number_name(name) {
                (names, numbers.push(name))
            } else {
                (names.push(first_word(tilde_trimmed(name))), numbers)
            }
        }
    }
}

/// Whether we are among the members.
pub open spec fn among(app: App, ids: Seq<String>) -> bool {
    exists|i: int| 0 <= i < ids.len() && text_of(app.me) == Some((#[trigger] ids[i])@)
}

/// The members of a group as WhatsApp lists them under its name: first
/// names in alphabetical order, then the numbers of people without one,
/// each once, ourselves last.
pub open spec fn participants_text(app: App, chat: Chat) -> Seq<char> {
    let (names, numbers) = member_names(app, chat.participants@);
    let listed = deduped(sorted_texts(names, true)) + deduped(sorted_texts(numbers, false));
    comma_joined(
        if among(app, chat.participants@) {
            listed.push("You"@)
        } else {
            listed
        },
    )
}

/// Whether `a` comes no later than `b`.
fn chars_le(a: &[char], b: &[char]) -> (r: bool)
    ensures
        r == text_le(a@, b@),
{
    let mut i: usize = 0;
    assert(a@.skip(0) =~= a@);
    assert(b@.skip(0) =~= b@);
    while i < a.len() && i < b.len() && a[i] == b[i]
        invariant
            i <= a@.len(),
            i <= b@.len(),
            a@.take(i as int) == b@.take(i as int),
            text_le(a@, b@) == text_le(a@.skip(i as int), b@.skip(i as int)),
        decreases a@.len() - i,
    {
        assert(a@.skip(i as int).drop_first() =~= a@.skip(i + 1));
        assert(b@.skip(i as int).drop_first() =~= b@.skip(i + 1));
        assert(a@.take(i + 1) =~= a@.take(i as int).push(a@[i as int]));
        assert(b@.take(i + 1) =~= b@.take(i as int).push(b@[i as int]));
        i = i + 1;
    }
    if i == a.len() {
        true
    } else if i == b.len() {
        false
    } else {
        (a[i] as u32) < (b[i] as u32)
    }
}

/// The key a text is sorted by.
fn sort_key(text: &String, by_name: bool) -> (r: Vec<char>)
    ensures
        r@ == if by_name {
            name_key(text@)
        } else {
            text@
        },
{
    if by_name {
        let lower = crate::text::to_lowercase(text.as_str());
        crate::text::chars_of(lower.as_str())
    } else {
        crate::text::chars_of(text.as_str())
    }
}

/// Texts sorted stably by a key.
fn sort_texts(v: Vec<String>, by_name: bool) -> (r: Vec<String>)
    ensures
        texts(r@) == sorted_texts(texts(v@), by_name),
{
    let ghost given = texts(v@);
    let mut rest = v;
    let mut out: Vec<String> = Vec::new();
    let mut k: usize = 0;
    assert(given.take(0) =~= Seq::<Seq<char>>::empty());
    assert(texts(rest@) =~= given.skip(0));
    assert(texts(out@) =~= Seq::<Seq<char>>::empty());
    let n: usize = rest.len();
    assert(given.len() == n);
    while rest.len() > 0
        invariant
            k <= given.len() <= usize::MAX,
            given.len() == k + rest@.len(),
            texts(rest@) == given.skip(k as int),
            texts(out@) == sorted_texts(given.take(k as int), by_name),
        decreases rest@.len(),
    {
        let ghost rest_before = rest@;
        let x = rest.remove(0);
        assert(x@ == given[k as int]) by {
            assert(texts(rest_before)[0] == x@);
        }
        assert(texts(rest@) =~= given.skip(k + 1)) by {
            assert forall|j: int| 0 <= j < rest@.len() implies texts(rest@)[j] == given.skip(
                k + 1,
            )[j] by {
                assert(rest@[j] == rest_before[j + 1]);
                assert(texts(rest_before)[j + 1] == given.skip(k as int)[j + 1]);
            }
        }
        let key = sort_key(&x, by_name);
        let mut j: usize = 0;
        while j < out.len() && chars_le(sort_key(&out[j], by_name).as_slice(), key.as_slice())
            invariant
                j <= out@.len(),
                key@ == (if by_name {
                    name_key(x@)
                } else {
                    x@
                }),
                forall|i: int|
                    0 <= i < j ==> text_le(
                        if by_name {
                            name_key(out@[i]@)
                        } else {
                            out@[i]@
                        },
                        key@,
                    ),
            decreases out@.len() - j,
        {
            j = j + 1;
        }
        proof {
            let sorted = texts(out@);
            lemma_key_slot_is(sorted, x@, by_name, j as int);
            assert(given.take(k + 1).drop_last() =~= given.take(k as int));
            assert(given.take(k + 1).last() == x@);
        }
        let ghost before = out@;
        out.insert(j, x);
        assert(texts(out@) =~= texts(before).insert(j as int, x@));
        k = k + 1;
    }
    assert(given.take(k as int) =~= given);
    out
}

proof fn lemma_key_slot_is(sorted: Seq<Seq<char>>, x: Seq<char>, by_name: bool, j: int)
    requires
        0 <= j <= sorted.len(),
        forall|i: int|
            0 <= i < j ==> text_le(
                if by_name {
                    name_key(#[trigger] sorted[i])
                } else {
                    sorted[i]
                },
                if by_name {
                    name_key(x)
                } else {
                    x
                },
            ),
        j < sorted.len() ==> !text_le(
            if by_name {
                name_key(sorted[j])
            } else {
                sorted[j]
            },
            if by_name {
                name_key(x)
            } else {
                x
            },
        ),
    ensures
        key_slot(sorted, x, by_name) == j,
    decreases j,
{
    if j > 0 {
        assert forall|i: int| 0 <= i < j - 1 implies text_le(
            if by_name {
                name_key(#[trigger] sorted.drop_first()[i])
            } else {
                sorted.drop_first()[i]
            },
            if by_name {
                name_key(x)
            } else {
                x
            },
        ) by {
            assert(sorted.drop_first()[i] == sorted[i + 1]);
        }
        lemma_key_slot_is(sorted.drop_first(), x, by_name, j - 1);
    }
}

/// Texts with each run of equal ones kept once.
fn dedup_texts(v: Vec<String>) -> (r: Vec<String>)
    ensures
        texts(r@) == deduped(texts(v@)),
{
    let mut out: Vec<String> = Vec::new();
    let mut i: usize = 0;
    assert(texts(out@) =~= deduped(texts(v@).take(0)));
    while i < v.len()
        invariant
            i <= v@.len(),
            texts(out@) == deduped(texts(v@).take(i as int)),
            out@.len() > 0 ==> i > 0 && out@.last()@ == v@[i - 1]@,
            i > 0 ==> out@.len() > 0,
        decreases v@.len() - i,
    {
        let ghost s = texts(v@).take(i + 1);
        assert(s.drop_last() =~= texts(v@).take(i as int));
        let repeat = i > 0 && v[i] == v[i - 1];
        if !repeat {
            let ghost before = out@;
            out.push(v[i].clone());
            assert(texts(out@) =~= texts(before).push(v@[i as int]@));
        }
        i = i + 1;
    }
    assert(texts(v@).take(i as int) =~= texts(v@));
    out
}

/// Texts joined with commas.
pub(crate) fn join_commas(v: &Vec<String>) -> (r: String)
    ensures
        r@ == comma_joined(texts(v@)),
{
    let mut out = String::new();
    let mut i: usize = 0;
    assert(out@ =~= comma_joined(texts(v@).take(0)));
    while i < v.len()
        invariant
            i <= v@.len(),
            out@ == comma_joined(texts(v@).take(i as int)),
        decreases v@.len() - i,
    {
        let ghost s = texts(v@).take(i + 1);
        assert(s.drop_last() =~= texts(v@).take(i as int));
        if i > 0 {
            crate::text::push_str(&mut out, ", ");
            proof {
                reveal_strlit(", ");
            }
        }
        crate::text::push_str(&mut out, v[i].as_str());
        if i == 0 {
            assert(out@ =~= comma_joined(s));
        }
        i = i + 1;
    }
    assert(texts(v@).take(i as int) =~= texts(v@));
    out
}

/// The first word of a name without its tildes, or the name when it has
/// no word.
fn short_name(name: &String) -> (r: String)
    ensures
        r@ == first_word(tilde_trimmed(name@)),
{
    let chars = crate::text::chars_of(name.as_str());
    let mut start: usize = 0;
    assert(chars@.skip(0) =~= chars@);
    while start < chars.len() && chars[start] == '~'
        invariant
            start <= chars@.len(),
            tilde_trimmed(name@) == tilde_trimmed(chars@.skip(start as int)),
            chars@ == name@,
        decreases chars@.len() - start,
    {
        assert(chars@.skip(start as int).drop_first() =~= chars@.skip(start + 1));
        start = start + 1;
    }
    let trimmed = crate::text::slice_skip(chars.as_slice(), start);
    assert(trimmed@ == tilde_trimmed(name@));
    let mut word_start: usize = 0;
    assert(trimmed@.skip(0) =~= trimmed@);
    while word_start < trimmed.len() && crate::text::is_whitespace(trimmed[word_start])
        invariant
            word_start <= trimmed@.len(),
            trim_start_text(trimmed@) == trim_start_text(trimmed@.skip(word_start as int)),
        decreases trimmed@.len() - word_start,
    {
        assert(trimmed@.skip(word_start as int).drop_first() =~= trimmed@.skip(word_start + 1));
        word_start = word_start + 1;
    }
    let rest = crate::text::slice_skip(trimmed, word_start);
    assert(rest@ == trim_start_text(trimmed@));
    if rest.len() == 0 {
        return crate::text::from_chars(trimmed);
    }
    let mut end: usize = 0;
    assert(rest@.skip(0) =~= rest@);
    while end < rest.len() && !crate::text::is_whitespace(rest[end])
        invariant
            end <= rest@.len(),
            word_length(rest@) == end + word_length(rest@.skip(end as int)),
        decreases rest@.len() - end,
    {
        assert(rest@.skip(end as int).drop_first() =~= rest@.skip(end + 1));
        end = end + 1;
    }
    assert(word_length(rest@.skip(end as int)) == 0);
    crate::text::from_chars(crate::text::slice_take(rest, end))
}

impl App {
    /// The members of a group as WhatsApp lists them under its name: first
    /// names, then the numbers of people without one, ourselves last.
    pub fn participant_names(&self, chat: &Chat) -> (r: String)
        ensures
            r@ == participants_text(*self, *chat),
    {
        let mut names: Vec<String> = Vec::new();
        let mut numbers: Vec<String> = Vec::new();
        let mut us = false;
        let ids = &chat.participants;
        let mut i: usize = 0;
        assert(ids@.take(0) =~= Seq::<String>::empty());
        while i < ids.len()
            invariant
                i <= ids@.len(),
                ids@ == chat.participants@,
                (texts(names@), texts(numbers@)) == member_names(*self, ids@.take(i as int)),
                us == among(*self, ids@.take(i as int)),
            decreases ids@.len() - i,
        {
            let id = &ids[i];
            assert(ids@.take(i + 1).drop_last() =~= ids@.take(i as int));
            assert(ids@.take(i + 1).last() == *id);
            let mine = match &self.me {
                Some(me) => *me == *id,
                None => false,
            };
            if mine {
                us = true;
                assert(ids@.take(i + 1)[i as int] == *id);
            } else {
                let name = self.display_name(id.as_str());
                let chars = crate::text::chars_of(name.as_str());
                let number = (chars.len() > 0 && chars[0] == '+') || crate::text::same_chars(
                    chars.as_slice(),
                    crate::text::chars_of("Unknown").as_slice(),
                );
                proof {
                    reveal_strlit("Unknown");
                }
                if number {
                    let ghost before = numbers@;
                    numbers.push(name);
                    assert(texts(numbers@) =~= texts(before).push(name@));
                } else {
                    let short = short_name(&name);
                    let ghost before = names@;
                    names.push(short);
                    assert(texts(names@) =~= texts(before).push(short@));
                }
            }
            proof {
                if us && !mine {
                    let w = choose|w: int|
                        0 <= w < i && text_of(self.me) == Some((#[trigger] ids@.take(i as int)[w])@);
                    assert(ids@.take(i + 1)[w] == ids@.take(i as int)[w]);
                }
                if among(*self, ids@.take(i + 1)) && !mine {
                    let w = choose|w: int|
                        0 <= w < i + 1 && text_of(self.me) == Some(
                            (#[trigger] ids@.take(i + 1)[w])@,
                        );
                    assert(ids@.take(i as int)[w] == ids@.take(i + 1)[w]);
                }
            }
            i = i + 1;
        }
        assert(ids@.take(i as int) =~= ids@);
        let names = dedup_texts(sort_texts(names, true));
        let numbers = dedup_texts(sort_texts(numbers, false));
        let mut listed = names;
        let ghost first = listed@;
        let mut numbers = numbers;
        let ghost second = numbers@;
        listed.append(&mut numbers);
        assert(texts(listed@) =~= texts(first) + texts(second));
        if us {
            let ghost before = listed@;
            listed.push(String::from_str("You"));
            proof {
                reveal_strlit("You");
            }
            assert(texts(listed@) =~= texts(before).push("You"@));
        }
        join_commas(&listed)
    }
}

} // verus!
