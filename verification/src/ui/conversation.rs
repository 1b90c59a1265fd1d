//! The open chat's small decisions: the line under its name, the reactions
//! a message offers, and the words for how far a message of ours has
//! travelled.

use vstd::prelude::*;

use crate::app::people::{comma_joined, join_commas, participants_text, typing_names};
use crate::app::{App, Conversation};
use crate::backend::texts;
use crate::model::{phone_digits, present, Chat, ChatKind, Delivery, Media, MediaState, Message, Reaction};
use crate::model::Action;
use crate::text::{
    chars_of, decimal, find_char, first_index_of, first_line, from_chars, has_prefix,
    lemma_first_index_of, lowercase, push_decimal, push_str, same_chars, same_text, slice_skip,
    slice_take, starts_with, to_lowercase, trim_chars, trimmed,
};
use crate::util::{
    bytes, bytes_text, duration, duration_text, chat_stamp, chat_stamp_of, day_key, local_day_of, phone, phone_text, CivilDate, UNIX_MAX, UNIX_MIN,
};

verus! {

/// The line under a chat's name, and whether it is highlighted: who is
/// typing; a group's members; "online"; for a number not in the address
/// book, the number. `None` where it says when the other side was last
/// seen, which depends on the clock.
pub open spec fn subtitle_text(app: App, chat: Chat) -> Option<(Seq<char>, bool)> {
    let typing = typing_names(app, chat.id@);
    let group = chat.kind == ChatKind::Group;
    let presence = app.people.presence@;
    if typing.len() > 0 {
        Some(
            (
                if group {
                    comma_joined(typing) + " typing…"@
                } else {
                    "typing…"@
                },
                true,
            ),
        )
    } else if group {
        let names = participants_text(app, chat);
        Some(
            (
                if names.len() == 0 {
                    "Group"@
                } else {
                    names
                },
                false,
            ),
        )
    } else if presence.contains_key(chat.id@) && presence[chat.id@].online {
        Some(("online"@, true))
    } else if presence.contains_key(chat.id@) && presence[chat.id@].last_seen is Some {
        None
    } else {
        match phone_digits(chat.id@) {
            Some(digits) => if !(app.contacts@.contains_key(chat.id@) && present(
                app.contacts@[chat.id@].full_name,
            )) {
                Some((phone_text(digits), false))
            } else {
                Some((Seq::empty(), false))
            },
            None => Some((Seq::empty(), false)),
        }
    }
}

/// The line under the open chat's name, and whether it is highlighted.
pub fn subtitle(app: &App, chat: &Chat) -> (r: (String, bool))
    ensures
        subtitle_text(*app, *chat) matches Some(s) ==> r.0@ == s.0 && r.1 == s.1,
        subtitle_text(*app, *chat) is None ==> !r.1 && exists|stamp: Seq<char>|
            chat_stamp_of(app.people.presence@[chat.id@].last_seen->0, stamp) && r.0@
                == "last seen "@ + lowercase(stamp),
{
    let typing = app.typing_in(chat.id.as_str());
    if typing.len() > 0 {
        assert(texts(typing@).len() == typing@.len());
        if chat.is_group() {
            let mut text = join_commas(&typing);
            push_str(&mut text, " typing…");
            return (text, true);
        } else {
            return (String::from_str("typing…"), true);
        }
    }
    assert(texts(typing@).len() == typing@.len());
    if chat.is_group() {
        let names = app.participant_names(chat);
        if names.as_str().unicode_len() == 0 {
            return (String::from_str("Group"), false);
        }
        return (names, false);
    }
    match app.people.presence.get(chat.id.as_str()) {
        Some(presence) => {
            if presence.online {
                return (String::from_str("online"), true);
            }
            match presence.last_seen {
                Some(seen) => {
                    let stamp = chat_stamp(seen);
                    let lower = to_lowercase(stamp.as_str());
                    let mut text = String::from_str("last seen ");
                    push_str(&mut text, lower.as_str());
                    return (text, false);
                },
                None => {},
            }
        },
        None => {},
    }
    match chat.phone() {
        Some(digits) => {
            if !app.is_saved_contact(chat.id.as_str()) {
                (phone(digits), false)
            } else {
                (String::new(), false)
            }
        },
        None => (String::new(), false),
    }
}

/// The usual six quick reactions.
pub open spec fn quick_list() -> Seq<Seq<char>> {
    seq!["👍"@, "❤️"@, "😂"@, "😮"@, "😢"@, "🙏"@]
}

/// The emoji of the first reaction of ours among `reactions`.
pub open spec fn first_own(reactions: Seq<Reaction>) -> Option<Seq<char>>
    decreases reactions.len(),
{
    if reactions.len() == 0 {
        None
    } else if reactions[0].from_me {
        Some(reactions[0].emoji@)
    } else {
        first_own(reactions.drop_first())
    }
}

/// The quick reactions row: the usual six, plus ours when it is another.
pub open spec fn quick_row(message: Message) -> Seq<Seq<char>> {
    match first_own(message.reactions@) {
        Some(mine) => if quick_list().contains(mine) {
            quick_list()
        } else {
            quick_list().push(mine)
        },
        None => quick_list(),
    }
}

/// The reaction we already gave a message, if any.
pub fn own_reaction(message: &Message) -> (r: Option<&str>)
    ensures
        r matches Some(e) ==> first_own(message.reactions@) == Some(e@),
        r is None ==> first_own(message.reactions@) is None,
{
    let mut i: usize = 0;
    assert(message.reactions@.skip(0) =~= message.reactions@);
    while i < message.reactions.len()
        invariant
            i <= message.reactions@.len(),
            first_own(message.reactions@) == first_own(message.reactions@.skip(i as int)),
        decreases message.reactions@.len() - i,
    {
        assert(message.reactions@.skip(i as int)[0] == message.reactions@[i as int]);
        assert(message.reactions@.skip(i as int).drop_first() =~= message.reactions@.skip(i + 1));
        if message.reactions[i].from_me {
            return Some(message.reactions[i].emoji.as_str());
        }
        i = i + 1;
    }
    None
}

/// The usual six quick reactions.
pub fn quick_reaction_list() -> (r: Vec<&'static str>)
    ensures
        r@.map_values(|e: &str| e@) == quick_list(),
{
    let list = vec!["👍", "❤️", "😂", "😮", "😢", "🙏"];
    assert(list@.map_values(|e: &str| e@) =~= quick_list());
    list
}

/// The quick reactions row: the usual six, plus ours when it is another.
pub fn quick_reactions(message: &Message) -> (r: Vec<&str>)
    ensures
        r@.map_values(|e: &str| e@) == quick_row(*message),
{
    let mut list = quick_reaction_list();
    match own_reaction(message) {
        Some(mine) => {
            let mine_chars = chars_of(mine);
            let mut found = false;
            let mut i: usize = 0;
            while i < list.len()
                invariant
                    list@.map_values(|e: &str| e@) == quick_list(),
                    mine_chars@ == mine@,
                    i <= list@.len(),
                    found == (exists|j: int| 0 <= j < i && quick_list()[j] == mine@),
                decreases list@.len() - i,
            {
                let known = chars_of(list[i]);
                assert(quick_list()[i as int] == list@[i as int]@);
                if same_chars(known.as_slice(), mine_chars.as_slice()) {
                    found = true;
                }
                i = i + 1;
            }
            if !found {
                let ghost before = list@;
                list.push(mine);
                assert(list@.map_values(|e: &str| e@) =~= before.map_values(|e: &str| e@).push(
                    mine@,
                ));
            }
            proof {
                if found {
                    let j = choose|j: int| 0 <= j < list@.len() && quick_list()[j] == mine@;
                    assert(quick_list().contains(mine@));
                } else {
                    assert(!quick_list().contains(mine@));
                }
            }
            list
        },
        None => list,
    }
}

/// Whether a chat's conversation has anything to show.
pub fn has_messages(conversation: &Conversation) -> (r: bool)
    ensures
        r == (conversation.messages@.len() > 0),
{
    conversation.messages.len() > 0
}

pub open spec fn delivery_word(status: Delivery) -> Seq<char> {
    match status {
        Delivery::NotOurs => ""@,
        Delivery::Pending => "sending"@,
        Delivery::Sent => "sent"@,
        Delivery::Delivered => "delivered"@,
        Delivery::Read => "read"@,
        Delivery::Played => "played"@,
        Delivery::Failed => "failed"@,
    }
}

/// The word for how far a message has travelled.
pub fn status_label(status: Delivery) -> (r: &'static str)
    ensures
        r@ == delivery_word(status),
{
    match status {
        Delivery::NotOurs => "",
        Delivery::Pending => "sending",
        Delivery::Sent => "sent",
        Delivery::Delivered => "delivered",
        Delivery::Read => "read",
        Delivery::Played => "played",
        Delivery::Failed => "failed",
    }
}

/// Where an emoji stands in a tally, or the tally's length.
pub open spec fn tally_position(tally: Seq<(Seq<char>, nat, bool)>, emoji: Seq<char>) -> int
    decreases tally.len(),
{
    if tally.len() == 0 {
        0
    } else {
        let earlier = tally_position(tally.drop_last(), emoji);
        if earlier < tally.len() - 1 {
            earlier
        } else if tally.last().0 == emoji {
            tally.len() - 1
        } else {
            tally.len() as int
        }
    }
}

/// The reactions on a message, one entry per emoji in the order each first
/// came: the emoji, how many gave it, and whether we are among them.
pub open spec fn tally(reactions: Seq<Reaction>) -> Seq<(Seq<char>, nat, bool)>
    decreases reactions.len(),
{
    if reactions.len() == 0 {
        Seq::empty()
    } else {
        let before = tally(reactions.drop_last());
        let r = reactions.last();
        let i = tally_position(before, r.emoji@);
        if i < before.len() {
            before.update(i, (before[i].0, before[i].1 + 1, before[i].2 || r.from_me))
        } else {
            before.push((r.emoji@, 1nat, r.from_me))
        }
    }
}

proof fn lemma_tally_position(tally: Seq<(Seq<char>, nat, bool)>, emoji: Seq<char>)
    ensures
        0 <= tally_position(tally, emoji) <= tally.len(),
        tally_position(tally, emoji) < tally.len() ==> tally[tally_position(tally, emoji)].0
            == emoji,
        forall|k: int| 0 <= k < tally_position(tally, emoji) ==> (#[trigger] tally[k]).0 != emoji,
    decreases tally.len(),
{
    if tally.len() > 0 {
        let rest = tally.drop_last();
        lemma_tally_position(rest, emoji);
        assert forall|k: int| 0 <= k < tally_position(tally, emoji) implies (
        #[trigger] tally[k]).0 != emoji by {
            if k < rest.len() {
                assert(tally[k] == rest[k]);
            }
        }
    }
}

/// Each entry's count is at most the number of reactions.
proof fn lemma_tally_counts(reactions: Seq<Reaction>)
    ensures
        tally(reactions).len() <= reactions.len(),
        forall|k: int|
            0 <= k < tally(reactions).len() ==> (#[trigger] tally(reactions)[k]).1 <= reactions.len(),
    decreases reactions.len(),
{
    if reactions.len() > 0 {
        lemma_tally_counts(reactions.drop_last());
        lemma_tally_position(tally(reactions.drop_last()), reactions.last().emoji@);
    }
}

/// The reactions on a message grouped by emoji, in the order each first
/// came, with how many gave it and whether we are among them.
pub fn reaction_tally(message: &Message) -> (r: Vec<(String, u32, bool)>)
    requires
        message.reactions@.len() <= u32::MAX,
    ensures
        r@.len() == tally(message.reactions@).len(),
        forall|k: int|
            0 <= k < r@.len() ==> (#[trigger] r@[k]).0@ == tally(message.reactions@)[k].0 && r@[k].1
                == tally(message.reactions@)[k].1 && r@[k].2 == tally(message.reactions@)[k].2,
{
    let reactions = &message.reactions;
    let mut counts: Vec<(String, u32, bool)> = Vec::new();
    let mut i: usize = 0;
    while i < reactions.len()
        invariant
            i <= reactions@.len() <= u32::MAX,
            counts@.len() == tally(reactions@.take(i as int)).len(),
            forall|k: int|
                0 <= k < counts@.len() ==> (#[trigger] counts@[k]).0@ == tally(
                    reactions@.take(i as int),
                )[k].0 && counts@[k].1 == tally(reactions@.take(i as int))[k].1 && counts@[k].2
                    == tally(reactions@.take(i as int))[k].2,
        decreases reactions@.len() - i,
    {
        let ghost done = reactions@.take(i as int);
        let ghost next = reactions@.take(i + 1);
        let ghost before = tally(done);
        assert(next.drop_last() =~= done);
        assert(next.last() == reactions@[i as int]);
        proof {
            lemma_tally_counts(next);
            lemma_tally_position(before, reactions@[i as int].emoji@);
        }
        let reaction = &reactions[i];
        let emoji = chars_of(reaction.emoji.as_str());
        let mut j: usize = 0;
        let mut found = false;
        while !found && j < counts.len()
            invariant
                j <= counts@.len(),
                counts@.len() == before.len(),
                emoji@ == reaction.emoji@,
                forall|k: int|
                    0 <= k < counts@.len() ==> (#[trigger] counts@[k]).0@ == before[k].0,
                forall|k: int| 0 <= k < j ==> (#[trigger] before[k]).0 != emoji@,
                found ==> j < counts@.len() && before[j as int].0 == emoji@,
            decreases counts@.len() - j + (if found { 0int } else { 1int }),
        {
            let known = chars_of(counts[j].0.as_str());
            if same_chars(known.as_slice(), emoji.as_slice()) {
                found = true;
            } else {
                j = j + 1;
            }
        }
        proof {
            if found {
                assert(tally_position(before, emoji@) == j) by {
                    if tally_position(before, emoji@) < j {
                        assert(before[tally_position(before, emoji@)].0 == emoji@);
                    }
                    if tally_position(before, emoji@) > j {
                        assert(before[j as int].0 != emoji@);
                    }
                }
            } else {
                assert(tally_position(before, emoji@) == before.len()) by {
                    if tally_position(before, emoji@) < before.len() {
                        assert(before[tally_position(before, emoji@)].0 == emoji@);
                    }
                }
            }
        }
        if found {
            let (name, count, mine) = counts.remove(j);
            assert(count <= i) by {
                lemma_tally_counts(done);
            }
            counts.insert(j, (name, count + 1, mine || reaction.from_me));
        } else {
            counts.push((reaction.emoji.clone(), 1, reaction.from_me));
        }
        i = i + 1;
    }
    assert(reactions@.take(i as int) =~= reactions@);
    counts
}

/// What a reaction chip reads: the emoji, and how many gave it when more
/// than one did.
pub open spec fn chip_text(emoji: Seq<char>, count: nat) -> Seq<char> {
    if count > 1 {
        emoji + seq![' '] + decimal(count)
    } else {
        emoji
    }
}

/// The text of a reaction chip.
pub fn reaction_label(emoji: &str, count: u32) -> (r: String)
    ensures
        r@ == chip_text(emoji@, count as nat),
{
    let mut label = String::from_str(emoji);
    if count > 1 {
        crate::text::push_char(&mut label, ' ');
        push_decimal(&mut label, count as u64);
    }
    label
}

/// Picking a reaction on a message: one of ours is taken back (an empty
/// emoji), anyone else's is given too.
pub open spec fn picked(chat: Seq<char>, message: Seq<char>, emoji: Seq<char>, ours: bool) -> (
    Seq<char>,
    Seq<char>,
    Seq<char>,
) {
    (chat, message, if ours {
        Seq::empty()
    } else {
        emoji
    })
}

/// The action for clicking a reaction chip, or a quick reaction, of a
/// message: our own reaction again takes it back, as on the phone.
pub fn reaction_pick(chat: &str, message: &str, emoji: &str, ours: bool) -> (r: Action)
    ensures
        r matches Action::React { chat: c, message: m, emoji: e } && (c@, m@, e@) == picked(
            chat@,
            message@,
            emoji@,
            ours,
        ),
{
    Action::React {
        chat: String::from_str(chat),
        message: String::from_str(message),
        emoji: if ours {
            String::new()
        } else {
            String::from_str(emoji)
        },
    }
}

/// How many reactions a tally counts in all.
pub open spec fn tally_total(tally: Seq<(Seq<char>, nat, bool)>) -> nat
    decreases tally.len(),
{
    if tally.len() == 0 {
        0
    } else {
        tally_total(tally.drop_last()) + tally.last().1
    }
}

proof fn lemma_total_update(tally: Seq<(Seq<char>, nat, bool)>, i: int, entry: (Seq<char>, nat, bool))
    requires
        0 <= i < tally.len(),
    ensures
        tally_total(tally.update(i, entry)) + tally[i].1 == tally_total(tally) + entry.1,
    decreases tally.len(),
{
    let changed = tally.update(i, entry);
    if i == tally.len() - 1 {
        assert(changed.drop_last() =~= tally.drop_last());
    } else {
        assert(changed.drop_last() =~= tally.drop_last().update(i, entry));
        lemma_total_update(tally.drop_last(), i, entry);
    }
}

/// Every reaction on a message is counted once in its chips.
pub proof fn every_reaction_is_counted(reactions: Seq<Reaction>)
    ensures
        tally_total(tally(reactions)) == reactions.len(),
    decreases reactions.len(),
{
    if reactions.len() > 0 {
        let before = tally(reactions.drop_last());
        let r = reactions.last();
        every_reaction_is_counted(reactions.drop_last());
        lemma_tally_position(before, r.emoji@);
        let i = tally_position(before, r.emoji@);
        if i < before.len() {
            lemma_total_update(before, i, (before[i].0, before[i].1 + 1, before[i].2 || r.from_me));
        } else {
            assert(before.push((r.emoji@, 1nat, r.from_me)).drop_last() =~= before);
        }
    }
}

/// Attachments up to this size, in bytes, are fetched as they come into
/// view when the settings ask for it: 64 MB.
pub const AUTO_DOWNLOAD_LIMIT: u64 = 67108864u64;

/// Whether a picture (a photo, a GIF's poster, a sticker) is fetched now: a
/// click fetches it unless it is on its way; coming into view fetches a
/// sticker, or anything within the limit when the settings ask for it, as
/// long as nothing was tried yet.
pub open spec fn picture_wanted(media: Media, auto_download: bool, visible: bool, sticker: bool, clicked: bool) -> bool {
    (clicked && !(media.state is Downloading)) || (visible && media.state is Idle && (sticker || (
    auto_download && media.size <= AUTO_DOWNLOAD_LIMIT)))
}

/// Whether another attachment (a video, a voice message, a document) is
/// fetched as it comes into view: not yet fetched or tried, within the
/// limit, and the settings ask for it.
pub open spec fn attachment_wanted(media: Media, auto_download: bool, visible: bool) -> bool {
    visible && media.path is None && media.state is Idle && auto_download && media.size
        <= AUTO_DOWNLOAD_LIMIT
}

/// Whether a picture is to be fetched this frame.
pub fn fetch_picture(media: &Media, auto_download: bool, visible: bool, sticker: bool, clicked: bool) -> (r: bool)
    ensures
        r == picture_wanted(*media, auto_download, visible, sticker, clicked),
{
    let downloading = match media.state {
        MediaState::Downloading => true,
        _ => false,
    };
    let idle = match media.state {
        MediaState::Idle => true,
        _ => false,
    };
    (clicked && !downloading) || (visible && idle && (sticker || (auto_download && media.size
        <= AUTO_DOWNLOAD_LIMIT)))
}

/// Whether another attachment is fetched as it comes into view.
pub fn fetch_attachment(media: &Media, auto_download: bool, visible: bool) -> (r: bool)
    ensures
        r == attachment_wanted(*media, auto_download, visible),
{
    let idle = match media.state {
        MediaState::Idle => true,
        _ => false,
    };
    visible && media.path.is_none() && idle && auto_download && media.size <= AUTO_DOWNLOAD_LIMIT
}

/// Nothing over 64 MB is fetched without a click, and nothing at all when
/// the settings turn fetching on sight off, stickers aside.
pub proof fn large_files_wait_for_a_click(media: Media, auto_download: bool, visible: bool, sticker: bool)
    ensures
        picture_wanted(media, auto_download, visible, sticker, false) && !sticker ==> auto_download
            && media.size <= AUTO_DOWNLOAD_LIMIT,
        attachment_wanted(media, auto_download, visible) ==> auto_download && media.size
            <= AUTO_DOWNLOAD_LIMIT,
{
}

/// Where a history shows a day's heading, and where a bubble is headed by
/// its sender: a heading above the first message and wherever the day
/// changes; a sender's name (where names are shown at all: in groups, or
/// with sender pictures on) on a message of someone else's that starts a
/// day, or follows one of ours or another sender's.
pub open spec fn history_mark(messages: Seq<Message>, days: Seq<Option<CivilDate>>, names: bool, i: int) -> (bool, bool) {
    let new_day = i == 0 || days[i - 1] != days[i];
    let m = messages[i];
    (
        new_day,
        names && !m.from_me && (new_day || messages[i - 1].sender@ != m.sender@ || messages[i
            - 1].from_me),
    )
}

/// Whether two days (or two timestamps out of range) are the same.
fn same_day(a: Option<CivilDate>, b: Option<CivilDate>) -> (r: bool)
    ensures
        r == (a == b),
{
    match (a, b) {
        (Some(x), Some(y)) => x.year == y.year && x.month == y.month && x.day == y.day && x.weekday
            == y.weekday,
        (None, None) => true,
        _ => false,
    }
}

/// The marks of each message of a history, given its days.
pub open spec fn marks_of(messages: Seq<Message>, days: Seq<Option<CivilDate>>, names: bool, marks: Seq<(bool, bool)>) -> bool {
    &&& marks.len() == messages.len()
    &&& forall|i: int| 0 <= i < marks.len() ==> #[trigger] marks[i] == history_mark(messages, days, names, i)
}

/// A day for each message, there exactly where its timestamp is in range,
/// and then a day the timestamp falls on in some time zone.
pub open spec fn days_for(messages: Seq<Message>, days: Seq<Option<CivilDate>>) -> bool {
    &&& days.len() == messages.len()
    &&& forall|i: int| 0 <= i < days.len() ==> ((#[trigger] days[i]) is Some <==> UNIX_MIN
        <= messages[i].timestamp <= UNIX_MAX)
    &&& forall|i: int| 0 <= i < days.len() ==> ((#[trigger] days[i]) matches Some(d)
        ==> local_day_of(messages[i].timestamp as int, d))
}

/// The heading and sender marks of a history, given the local day of
/// each message.
pub fn history_marks(messages: &[Message], days: &[Option<CivilDate>], names: bool) -> (r: Vec<(bool, bool)>)
    requires
        days.len() == messages.len(),
    ensures
        marks_of(messages@, days@, names, r@),
{
    let mut out: Vec<(bool, bool)> = Vec::new();
    let mut i: usize = 0;
    while i < messages.len()
        invariant
            days@.len() == messages@.len(),
            i <= messages@.len(),
            out@.len() == i,
            forall|k: int| 0 <= k < i ==> #[trigger] out@[k] == history_mark(messages@, days@, names, k),
        decreases messages@.len() - i,
    {
        let m = &messages[i];
        let new_day = i == 0 || !same_day(days[i - 1], days[i]);
        let follows_other = i > 0 && (!same_text(messages[i - 1].sender.as_str(), m.sender.as_str())
            || messages[i - 1].from_me);
        let sender = names && !m.from_me && (new_day || follows_other);
        out.push((new_day, sender));
        i = i + 1;
    }
    out
}

/// The heading and sender marks of a history as the messages view draws
/// them, each message's day taken in the machine's time zone. Which
/// messages share a day rests on that zone: the marks are those of some
/// days, one for each message, there where its timestamp is in range.
pub fn history_marks_here(messages: &[Message], names: bool) -> (r: Vec<(bool, bool)>)
    ensures
        exists|days: Seq<Option<CivilDate>>| days_for(messages@, days) && #[trigger] marks_of(messages@, days, names, r@),
{
    let mut days: Vec<Option<CivilDate>> = Vec::new();
    let mut i: usize = 0;
    while i < messages.len()
        invariant
            i <= messages@.len(),
            days@.len() == i,
            forall|k: int| 0 <= k < i ==> ((#[trigger] days@[k]) is Some <==> UNIX_MIN
                <= messages@[k].timestamp <= UNIX_MAX),
            forall|k: int| 0 <= k < i ==> ((#[trigger] days@[k]) matches Some(d) ==> local_day_of(
                messages@[k].timestamp as int,
                d,
            )),
        decreases messages@.len() - i,
    {
        days.push(day_key(messages[i].timestamp));
        i = i + 1;
    }
    let r = history_marks(messages, days.as_slice(), names);
    assert(days_for(messages@, days@));
    r
}

/// The title of an audio attachment.
pub open spec fn audio_title_text(voice_note: bool) -> Seq<char> {
    if voice_note {
        "Voice message"@
    } else {
        "Audio"@
    }
}

/// The title of an audio attachment: a voice message, or audio.
pub fn audio_title(voice_note: bool) -> (r: &'static str)
    ensures
        r@ == audio_title_text(voice_note),
{
    if voice_note {
        "Voice message"
    } else {
        "Audio"
    }
}

/// The detail under an audio attachment: its length where known, else
/// its size.
pub fn audio_detail(seconds: Option<u32>, size: u64) -> (r: String)
    ensures
        r@ == match seconds {
            Some(s) => duration_text(s as nat),
            None => bytes_text(size as nat),
        },
{
    match seconds {
        Some(s) => duration(s),
        None => bytes(size),
    }
}

/// "1 page", "12 pages".
pub open spec fn pages_text(pages: nat) -> Seq<char> {
    decimal(pages) + if pages == 1 {
        " page"@
    } else {
        " pages"@
    }
}

/// The details under a document: how many pages where known, then its
/// size.
pub fn document_detail(pages: Option<u32>, size: u64) -> (r: Vec<String>)
    ensures
        r@.map_values(|d: String| d@) == match pages {
            Some(n) => seq![pages_text(n as nat), bytes_text(size as nat)],
            None => seq![bytes_text(size as nat)],
        },
{
    let mut detail: Vec<String> = Vec::new();
    match pages {
        Some(n) => {
            let mut text = String::new();
            push_decimal(&mut text, n as u64);
            push_str(&mut text, if n == 1 { " page" } else { " pages" });
            assert(text@ =~= pages_text(n as nat));
            detail.push(text);
        },
        None => {},
    }
    detail.push(bytes(size));
    assert(detail@.map_values(|d: String| d@) =~= match pages {
        Some(n) => seq![pages_text(n as nat), bytes_text(size as nat)],
        None => seq![bytes_text(size as nat)],
    });
    detail
}

/// The first line of a text, among those `str::lines` yields, that starts
/// with `TEL`.
pub open spec fn tel_line(s: Seq<char>) -> Option<Seq<char>>
    decreases s.len(),
{
    match first_line(s) {
        None => None,
        Some(line) => if has_prefix(line, "TEL"@) {
            Some(line)
        } else {
            let end = first_index_of(s, '\n');
            proof {
                lemma_first_index_of(s, '\n');
            }
            if end < s.len() {
                tel_line(s.skip(end + 1))
            } else {
                None
            }
        },
    }
}

/// What follows the last `c` in a text (`rsplit(c).next()`): the whole
/// text when there is none.
pub open spec fn after_last(s: Seq<char>, c: char) -> Seq<char>
    decreases s.len(),
{
    if s.len() == 0 {
        s
    } else if s.last() == c {
        Seq::empty()
    } else {
        after_last(s.drop_last(), c).push(s.last())
    }
}

/// The number a shared contact card gives: the value of its first `TEL`
/// line, after the last colon, trimmed; empty without one.
pub open spec fn vcard_phone_text(vcard: Seq<char>) -> Seq<char> {
    match tel_line(vcard) {
        Some(line) => trimmed(after_last(line, ':')),
        None => Seq::empty(),
    }
}

/// The number a shared contact card shows under the contact's name.
pub fn vcard_phone(vcard: &str) -> (r: String)
    ensures
        r@ == vcard_phone_text(vcard@),
{
    let chars = chars_of(vcard);
    let tel = find_tel_line(chars.as_slice());
    match tel {
        Some(line) => {
            let mut k: usize = line.len();
            assert(line@.take(k as int) =~= line@);
            assert(line@.skip(k as int) =~= Seq::<char>::empty());
            while k > 0 && line[k - 1] != ':'
                invariant
                    k <= line@.len(),
                    after_last(line@, ':') == after_last(line@.take(k as int), ':') + line@.skip(
                        k as int,
                    ),
                decreases k,
            {
                let ghost before = line@.take(k as int);
                assert(before.drop_last() =~= line@.take(k - 1));
                assert(line@.skip(k - 1) =~= seq![line@[k - 1]] + line@.skip(k as int));
                assert(after_last(before, ':') == after_last(line@.take(k - 1), ':').push(line@[k - 1]));
                assert(after_last(line@.take(k - 1), ':').push(line@[k - 1]) + line@.skip(k as int)
                    =~= after_last(line@.take(k - 1), ':') + line@.skip(k - 1));
                k = k - 1;
            }
            assert(after_last(line@.take(k as int), ':') =~= Seq::<char>::empty());
            assert(Seq::<char>::empty() + line@.skip(k as int) =~= line@.skip(k as int));
            let part = trim_chars(slice_skip(line.as_slice(), k));
            from_chars(part.as_slice())
        },
        None => String::new(),
    }
}

/// The first line of a text that starts with `TEL`.
fn find_tel_line(chars: &[char]) -> (r: Option<Vec<char>>)
    ensures
        r matches Some(line) ==> tel_line(chars@) == Some(line@),
        r is None ==> tel_line(chars@) is None,
{
    let n = chars.len();
    let mut start: usize = 0;
    assert(chars@.skip(0) =~= chars@);
    loop
        invariant
            n == chars@.len(),
            start <= chars@.len(),
            tel_line(chars@) == tel_line(chars@.skip(start as int)),
        decreases chars@.len() - start,
    {
        let rest = slice_skip(chars, start);
        if rest.len() == 0 {
            return None;
        }
        let end = find_char(rest, '\n');
        let mut stop = end;
        if end > 0 && rest[end - 1] == '\r' {
            stop = end - 1;
            assert(rest@.take(end as int).drop_last() =~= rest@.take(stop as int));
        }
        let line = slice_take(rest, stop);
        let tel_prefix = chars_of("TEL");
        if starts_with(line, tel_prefix.as_slice()) {
            return Some(copy_line(line));
        }
        if end == rest.len() {
            return None;
        }
        assert(rest@.len() == chars@.len() - start);
        assert(rest@.skip(end + 1) =~= chars@.skip(start + end + 1));
        start = start + end + 1;
    }
}

/// A line of characters, owned.
fn copy_line(line: &[char]) -> (r: Vec<char>)
    ensures
        r@ == line@,
{
    crate::text::copy_chars(line)
}

} // verus!
