//! What the interface shows: chats, messages, and the people behind them.
//!
//! These are the app's own types, built from what the protocol delivers, so a
//! view never touches a protobuf and the archive keeps a stable shape.

use vstd::prelude::*;

use crate::text::{
    chars_of, first_line, first_line_of, from_chars, is_ascii_digit, is_digit, push_str,
};
use crate::util::{duration, duration_text};

verus! {

/// A chat is keyed by its JID as text: `<phone>@s.whatsapp.net` for a
/// person, `<id>@g.us` for a group, `<id>@lid` for a person behind a
/// privacy-preserving id.
pub type ChatId = String;

#[derive(Clone, Copy, Debug, PartialEq, Eq)]
pub enum ChatKind {
    Direct,
    Group,
    /// A newsletter channel or a broadcast list; read-only here.
    Broadcast,
}

/// What follows the last `@` of a text, or the whole text without one
/// (the first item of `rsplit('@')`).
pub open spec fn after_last_at(id: Seq<char>) -> Seq<char>
    decreases id.len(),
{
    if id.len() == 0 {
        id
    } else if id.last() == '@' {
        Seq::empty()
    } else {
        after_last_at(id.drop_last()).push(id.last())
    }
}

/// The kind of chat an id names, from its server part.
pub open spec fn kind_of(id: Seq<char>) -> ChatKind {
    let server = after_last_at(id);
    if server == "g.us"@ {
        ChatKind::Group
    } else if server == "newsletter"@ || server == "broadcast"@ {
        ChatKind::Broadcast
    } else {
        ChatKind::Direct
    }
}

fn server_part(id: &str) -> (r: Vec<char>)
    ensures
        r@ == after_last_at(id@),
{
    let chars = chars_of(id);
    let mut server: Vec<char> = Vec::new();
    let mut i: usize = 0;
    while i < chars.len()
        invariant
            chars@ == id@,
            i <= chars@.len(),
            server@ == after_last_at(chars@.take(i as int)),
        decreases chars@.len() - i,
    {
        assert(chars@.take(i + 1).drop_last() =~= chars@.take(i as int));
        if chars[i] == '@' {
            server = Vec::new();
        } else {
            server.push(chars[i]);
        }
        i = i + 1;
    }
    assert(chars@.take(chars@.len() as int) =~= chars@);
    server
}

/// Whether some characters spell a literal.
fn spells(chars: &Vec<char>, word: &str) -> (r: bool)
    ensures
        r == (chars@ == word@),
{
    let word_chars = chars_of(word);
    if chars.len() != word_chars.len() {
        return false;
    }
    let mut i: usize = 0;
    while i < chars.len()
        invariant
            chars@.len() == word_chars@.len(),
            word_chars@ == word@,
            i <= chars@.len(),
            forall|j: int| 0 <= j < i ==> chars@[j] == word_chars@[j],
        decreases chars@.len() - i,
    {
        if chars[i] != word_chars[i] {
            return false;
        }
        i = i + 1;
    }
    assert(chars@ =~= word_chars@);
    true
}

impl ChatKind {
    pub fn from_id(id: &str) -> (r: Self)
        ensures
            r == kind_of(id@),
    {
        let server = server_part(id);
        if spells(&server, "g.us") {
            ChatKind::Group
        } else if spells(&server, "newsletter") || spells(&server, "broadcast") {
            ChatKind::Broadcast
        } else {
            ChatKind::Direct
        }
    }
}

/// How far our own message has travelled.
#[derive(Clone, Copy, Debug, Default, PartialEq, Eq, PartialOrd, Ord)]
pub enum Delivery {
    /// Not ours; receipts do not apply.
    #[default]
    NotOurs,
    /// Handed to the backend, not yet acknowledged by the server.
    Pending,
    Sent,
    Delivered,
    Read,
    Played,
    Failed,
}

impl Delivery {
    /// Whether the message is ours and still on its way.
    pub fn in_flight(self) -> (r: bool)
        ensures
            r == (self == Delivery::Pending),
    {
        match self {
            Delivery::Pending => true,
            _ => false,
        }
    }
}

#[derive(Clone, Debug)]
pub struct LastMessage {
    pub from_me: bool,
    pub sender: String,
    /// Who sent it, in a group.
    pub sender_name: Option<String>,
    pub summary: String,
    pub status: Delivery,
}

#[derive(Clone, Debug)]
pub struct Chat {
    pub id: ChatId,
    /// The best name known: the address book's, then the push name, then
    /// the phone number.
    pub name: String,
    pub kind: ChatKind,
    /// Unix seconds of the newest message, for ordering.
    pub last_activity: i64,
    pub unread: u32,
    pub archived: bool,
    pub pinned: bool,
    /// Unix seconds until which notifications are off; `Some(0)` is forever.
    pub muted_until: Option<i64>,
    /// The newest message, as the chat list shows it.
    pub last: Option<LastMessage>,
    /// Members of a group, as canonical ids; empty until WhatsApp answers.
    pub participants: Vec<String>,
    /// An announcement group where only admins post, and we are not one.
    pub read_only: bool,
}

/// Whether a chat is muted at `now`.
pub open spec fn muted_at(muted_until: Option<i64>, now: i64) -> bool {
    match muted_until {
        Some(until) => until == 0 || until > now,
        None => false,
    }
}

/// The digits of a `<phone>@s.whatsapp.net` id: the part before the first
/// `@`, when the rest is `s.whatsapp.net` and it is all ASCII digits.
pub open spec fn phone_digits(id: Seq<char>) -> Option<Seq<char>> {
    let at = crate::text::first_index_of(id, '@');
    if at < id.len() && id.skip(at + 1) == "s.whatsapp.net"@ && (forall|i: int|
        0 <= i < at ==> #[trigger] is_digit(id[i])) {
        Some(id.take(at))
    } else {
        None
    }
}

/// The digits of a `<phone>@s.whatsapp.net` id.
pub fn phone_of(id: &str) -> (r: Option<&str>)
    ensures
        r matches Some(user) ==> phone_digits(id@) == Some(user@),
        r is None ==> phone_digits(id@) is None,
{
    let chars = chars_of(id);
    proof {
        crate::text::lemma_first_index_of(chars@, '@');
    }
    let at = crate::text::find_char(chars.as_slice(), '@');
    if at >= chars.len() {
        return None;
    }
    let server = crate::text::copy_chars(crate::text::slice_skip(chars.as_slice(), at + 1));
    if !spells(&server, "s.whatsapp.net") {
        return None;
    }
    let mut i: usize = 0;
    while i < at
        invariant
            chars@ == id@,
            at == crate::text::first_index_of(id@, '@'),
            at < chars@.len(),
            i <= at,
            forall|j: int| 0 <= j < i ==> #[trigger] is_digit(chars@[j]),
        decreases at - i,
    {
        if !is_ascii_digit(chars[i]) {
            assert(!is_digit(id@[i as int]));
            return None;
        }
        i = i + 1;
    }
    Some(id.substring_char(0, at))
}

impl Chat {
    pub fn new(id: ChatId, name: String) -> (r: Self)
        ensures
            r.id@ == id@,
            r.name@ == name@,
            r.kind == kind_of(id@),
            r.last_activity == 0,
            r.unread == 0,
            !r.archived,
            !r.pinned,
            r.muted_until is None,
            r.last is None,
            r.participants@.len() == 0,
            !r.read_only,
    {
        let kind = ChatKind::from_id(id.as_str());
        Chat {
            id,
            name,
            kind,
            last_activity: 0,
            unread: 0,
            archived: false,
            pinned: false,
            muted_until: None,
            last: None,
            participants: Vec::new(),
            read_only: false,
        }
    }

    pub fn is_group(&self) -> (r: bool)
        ensures
            r == (self.kind == ChatKind::Group),
    {
        match self.kind {
            ChatKind::Group => true,
            _ => false,
        }
    }

    /// Whether notifications are off at `now`.
    pub fn muted(&self, now: i64) -> (r: bool)
        ensures
            r == muted_at(self.muted_until, now),
    {
        match self.muted_until {
            Some(until) => until == 0 || until > now,
            None => false,
        }
    }

    /// The phone number for a direct chat, as digits.
    pub fn phone(&self) -> (r: Option<&str>)
        ensures
            r matches Some(user) ==> phone_digits(self.id@) == Some(user@),
            r is None ==> phone_digits(self.id@) is None,
    {
        phone_of(self.id.as_str())
    }
}

/// Someone named in a message: the digits after the `@` as WhatsApp wrote
/// them, and the canonical id they stand for.
#[derive(Clone, Debug, PartialEq)]
pub struct MentionRef {
    pub user: String,
    pub id: String,
}

/// What WhatsApp found behind a link when the message was sent.
#[derive(Clone, Debug, PartialEq)]
pub struct LinkPreview {
    pub url: String,
    pub title: Option<String>,
    pub description: Option<String>,
}

#[derive(Clone, Debug, PartialEq)]
pub struct Quoted {
    pub id: String,
    pub sender: String,
    pub sender_name: Option<String>,
    pub summary: String,
}

#[derive(Clone, Debug, PartialEq)]
pub struct Reaction {
    pub sender: String,
    pub from_me: bool,
    pub emoji: String,
}

#[derive(Clone, Debug, Default, PartialEq)]
pub enum MediaState {
    #[default]
    Idle,
    Downloading,
    Failed(String),
}

/// An attachment: what is known before it is fetched, and the file once it
/// has been.
#[derive(Clone, Debug, PartialEq)]
pub struct Media {
    pub mime: String,
    pub size: u64,
    pub width: Option<u32>,
    pub height: Option<u32>,
    /// The decrypted file, once downloaded.
    pub path: Option<String>,
    /// Live download state; not persisted.
    pub state: MediaState,
}

#[derive(Clone, Debug, PartialEq)]
pub enum Content {
    Text { text: String, preview: Option<LinkPreview> },
    Image { caption: Option<String>, media: Media },
    Video { caption: Option<String>, media: Media, seconds: Option<u32>, gif: bool },
    Audio { media: Media, seconds: Option<u32>, voice_note: bool },
    Document { media: Media, file_name: String, caption: Option<String>, pages: Option<u32> },
    Sticker { media: Media, animated: bool },
    /// A place; the coordinates are the IEEE-754 bits of the degrees.
    Location {
        latitude_bits: u64,
        longitude_bits: u64,
        name: Option<String>,
        address: Option<String>,
    },
    Contact { display_name: String, vcard: String },
    Poll { question: String, options: Vec<String> },
    /// "This message was deleted."
    Revoked,
    /// Something this client does not render; `what` names the protobuf
    /// field so the user knows what they are missing.
    Unsupported { what: String },
}

#[derive(Clone, Debug, PartialEq)]
pub struct Message {
    /// WhatsApp's id; unique within a chat.
    pub id: String,
    pub chat: ChatId,
    /// The sender's JID as text; ours when `from_me`.
    pub sender: String,
    /// The sender's push name when the message arrived, for groups.
    pub sender_name: Option<String>,
    pub from_me: bool,
    /// Unix seconds.
    pub timestamp: i64,
    pub content: Content,
    pub status: Delivery,
    pub quoted: Option<Quoted>,
    pub reactions: Vec<Reaction>,
    pub edited: bool,
    /// People named with `@` in the text or caption.
    pub mentions: Vec<MentionRef>,
    /// Passed on from another chat.
    pub forwarded: bool,
    /// The small picture WhatsApp sends ahead of an attachment or with a
    /// link preview, as JPEG bytes.
    pub thumbnail: Option<Vec<u8>>,
}

/// A label with the first line of a caption, when it has one.
pub open spec fn captioned(label: Seq<char>, caption: Option<String>) -> Seq<char> {
    match caption {
        Some(caption) => match first_line(caption@) {
            Some(line) => if line.len() > 0 {
                label + ": "@ + line
            } else {
                label
            },
            None => label,
        },
        None => label,
    }
}

/// One line describing a message's content, for chat rows and quotes.
pub open spec fn summary_text(content: Content) -> Seq<char> {
    match content {
        Content::Text { text, .. } => match first_line(text@) {
            Some(line) => line,
            None => Seq::empty(),
        },
        Content::Image { caption, .. } => captioned("Photo"@, caption),
        Content::Video { caption, gif, .. } => captioned(
            if gif {
                "GIF"@
            } else {
                "Video"@
            },
            caption,
        ),
        Content::Audio { voice_note, seconds, .. } => {
            let label = if voice_note {
                "Voice message"@
            } else {
                "Audio"@
            };
            match seconds {
                Some(seconds) => label + " ("@ + duration_text(seconds as nat) + ")"@,
                None => label,
            }
        },
        Content::Document { file_name, .. } => "Document: "@ + file_name@,
        Content::Sticker { .. } => "Sticker"@,
        Content::Location { name, .. } => match name {
            Some(name) => "Location: "@ + name@,
            None => "Location"@,
        },
        Content::Contact { display_name, .. } => "Contact: "@ + display_name@,
        Content::Poll { question, .. } => "Poll: "@ + question@,
        Content::Revoked => "This message was deleted"@,
        Content::Unsupported { what } => "Unsupported message ("@ + what@ + ")"@,
    }
}

/// The attachment a content carries, if any.
pub open spec fn media_in(content: Content) -> Option<Media> {
    match content {
        Content::Image { media, .. } => Some(media),
        Content::Video { media, .. } => Some(media),
        Content::Audio { media, .. } => Some(media),
        Content::Document { media, .. } => Some(media),
        Content::Sticker { media, .. } => Some(media),
        _ => None,
    }
}

/// A label followed by the first line of a caption, when that line is not
/// empty.
pub fn with_caption(label: &str, caption: &Option<String>) -> (r: String)
    ensures
        r@ == captioned(label@, *caption),
{
    let mut out = String::from_str(label);
    match caption {
        Some(caption) => match first_line_of(caption.as_str()) {
            Some(line) => {
                if line.unicode_len() > 0 {
                    push_str(&mut out, ": ");
                    push_str(&mut out, line.as_str());
                }
            },
            None => {},
        },
        None => {},
    }
    out
}

fn concat2(a: &str, b: &str) -> (r: String)
    ensures
        r@ == a@ + b@,
{
    let mut out = String::from_str(a);
    push_str(&mut out, b);
    out
}

fn concat3(a: &str, b: &str, c: &str) -> (r: String)
    ensures
        r@ == a@ + b@ + c@,
{
    let mut out = String::from_str(a);
    push_str(&mut out, b);
    push_str(&mut out, c);
    out
}

impl Content {
    pub fn text(text: String) -> (r: Self)
        ensures
            r == (Content::Text { text, preview: None }),
    {
        Content::Text { text, preview: None }
    }

    /// One line describing the content, as WhatsApp words it.
    pub fn summary(&self) -> (r: String)
        ensures
            r@ == summary_text(*self),
    {
        match self {
            Content::Text { text, .. } => match first_line_of(text.as_str()) {
                Some(line) => line,
                None => String::new(),
            },
            Content::Image { caption, .. } => with_caption("Photo", caption),
            Content::Video { caption, gif, .. } => with_caption(
                if *gif {
                    "GIF"
                } else {
                    "Video"
                },
                caption,
            ),
            Content::Audio { voice_note, seconds, .. } => {
                let label = if *voice_note {
                    "Voice message"
                } else {
                    "Audio"
                };
                match seconds {
                    Some(seconds) => {
                        let length = duration(*seconds);
                        let mut out = concat3(label, " (", length.as_str());
                        push_str(&mut out, ")");
                        out
                    },
                    None => String::from_str(label),
                }
            },
            Content::Document { file_name, .. } => concat2("Document: ", file_name.as_str()),
            Content::Sticker { .. } => String::from_str("Sticker"),
            Content::Location { name, .. } => match name {
                Some(name) => concat2("Location: ", name.as_str()),
                None => String::from_str("Location"),
            },
            Content::Contact { display_name, .. } => concat2("Contact: ", display_name.as_str()),
            Content::Poll { question, .. } => concat2("Poll: ", question.as_str()),
            Content::Revoked => String::from_str("This message was deleted"),
            Content::Unsupported { what } => concat3(
                "Unsupported message (",
                what.as_str(),
                ")",
            ),
        }
    }

    /// The attachment this content carries, if any.
    pub fn media(&self) -> (r: Option<&Media>)
        ensures
            r matches Some(m) ==> media_in(*self) == Some(*m),
            r is None ==> media_in(*self) is None,
    {
        match self {
            Content::Image { media, .. } => Some(media),
            Content::Video { media, .. } => Some(media),
            Content::Audio { media, .. } => Some(media),
            Content::Document { media, .. } => Some(media),
            Content::Sticker { media, .. } => Some(media),
            _ => None,
        }
    }
}

/// A content whose attachment, if it has one, is in the given state.
pub open spec fn with_media_state(content: Content, state: MediaState) -> Content {
    match content {
        Content::Image { caption, media } => Content::Image {
            caption,
            media: Media { state, ..media },
        },
        Content::Video { caption, media, seconds, gif } => Content::Video {
            caption,
            media: Media { state, ..media },
            seconds,
            gif,
        },
        Content::Audio { media, seconds, voice_note } => Content::Audio {
            media: Media { state, ..media },
            seconds,
            voice_note,
        },
        Content::Document { media, file_name, caption, pages } => Content::Document {
            media: Media { state, ..media },
            file_name,
            caption,
            pages,
        },
        Content::Sticker { media, animated } => Content::Sticker {
            media: Media { state, ..media },
            animated,
        },
        _ => content,
    }
}

/// A content whose attachment, if it has one, is the file at `path`,
/// ready.
pub open spec fn with_media_file(content: Content, path: String) -> Content {
    match content {
        Content::Image { caption, media } => Content::Image {
            caption,
            media: Media { path: Some(path), state: MediaState::Idle, ..media },
        },
        Content::Video { caption, media, seconds, gif } => Content::Video {
            caption,
            media: Media { path: Some(path), state: MediaState::Idle, ..media },
            seconds,
            gif,
        },
        Content::Audio { media, seconds, voice_note } => Content::Audio {
            media: Media { path: Some(path), state: MediaState::Idle, ..media },
            seconds,
            voice_note,
        },
        Content::Document { media, file_name, caption, pages } => Content::Document {
            media: Media { path: Some(path), state: MediaState::Idle, ..media },
            file_name,
            caption,
            pages,
        },
        Content::Sticker { media, animated } => Content::Sticker {
            media: Media { path: Some(path), state: MediaState::Idle, ..media },
            animated,
        },
        _ => content,
    }
}

impl Content {
    /// Puts the attachment, if there is one, in a state.
    pub fn set_media_state(&mut self, state: MediaState)
        ensures
            *final(self) == with_media_state(*old(self), state),
    {
        match self {
            Content::Image { media, .. } => {
                media.state = state;
            },
            Content::Video { media, .. } => {
                media.state = state;
            },
            Content::Audio { media, .. } => {
                media.state = state;
            },
            Content::Document { media, .. } => {
                media.state = state;
            },
            Content::Sticker { media, .. } => {
                media.state = state;
            },
            _ => {},
        }
    }

    /// Records the file an attachment, if there is one, was saved to.
    pub fn set_media_file(&mut self, path: String)
        ensures
            *final(self) == with_media_file(*old(self), path),
    {
        match self {
            Content::Image { media, .. } => {
                media.path = Some(path);
                media.state = MediaState::Idle;
            },
            Content::Video { media, .. } => {
                media.path = Some(path);
                media.state = MediaState::Idle;
            },
            Content::Audio { media, .. } => {
                media.path = Some(path);
                media.state = MediaState::Idle;
            },
            Content::Document { media, .. } => {
                media.path = Some(path);
                media.state = MediaState::Idle;
            },
            Content::Sticker { media, .. } => {
                media.path = Some(path);
                media.state = MediaState::Idle;
            },
            _ => {},
        }
    }
}

impl Message {
    /// One line describing the message, for chat rows and quotes.
    pub fn summary(&self) -> (r: String)
        ensures
            r@ == summary_text(self.content),
    {
        self.content.summary()
    }
}

/// A person the account knows: the address book name arrives through app
/// state sync, the push name with each message.
#[derive(Clone, Debug, Default, PartialEq)]
pub struct Contact {
    pub id: String,
    pub full_name: Option<String>,
    pub push_name: Option<String>,
}

/// A name that is there and not empty.
pub open spec fn present(name: Option<String>) -> bool {
    name matches Some(n) && n@.len() > 0
}

/// The name to show for a contact: the address book's, else the push name.
pub open spec fn contact_name(contact: Contact) -> Option<Seq<char>> {
    if present(contact.full_name) {
        Some(contact.full_name->0@)
    } else if present(contact.push_name) {
        Some(contact.push_name->0@)
    } else {
        None
    }
}

/// The name as WhatsApp shows it: the address book's as is, a name the
/// person chose for themselves with a tilde in front.
pub open spec fn contact_label(contact: Contact) -> Option<Seq<char>> {
    if present(contact.full_name) {
        Some(contact.full_name->0@)
    } else if present(contact.push_name) {
        Some(seq!['~'] + contact.push_name->0@)
    } else {
        None
    }
}

impl Contact {
    pub fn display_name(&self) -> (r: Option<&str>)
        ensures
            r matches Some(name) ==> contact_name(*self) == Some(name@),
            r is None ==> contact_name(*self) is None,
    {
        match &self.full_name {
            Some(name) => {
                if name.unicode_len() > 0 {
                    return Some(name.as_str());
                }
            },
            None => {},
        }
        match &self.push_name {
            Some(name) => {
                if name.unicode_len() > 0 {
                    return Some(name.as_str());
                }
            },
            None => {},
        }
        None
    }

    /// The name as WhatsApp shows it: the address book's as is, a name the
    /// person chose for themselves with a tilde in front.
    pub fn label(&self) -> (r: Option<String>)
        ensures
            r matches Some(name) ==> contact_label(*self) == Some(name@),
            r is None ==> contact_label(*self) is None,
    {
        match &self.full_name {
            Some(name) => {
                if name.unicode_len() > 0 {
                    return Some(name.clone());
                }
            },
            None => {},
        }
        match &self.push_name {
            Some(name) => {
                if name.unicode_len() > 0 {
                    let mut out = String::from_str("~");
                    push_str(&mut out, name.as_str());
                    proof {
                        reveal_strlit("~");
                    }
                    return Some(out);
                }
            },
            None => {},
        }
        None
    }
}

#[derive(Clone, Copy, Debug, PartialEq, Eq, Structural)]
pub enum Page {
    Chats,
    Settings,
}

/// The tabs of the picker above the composer.
#[derive(Clone, Copy, Debug, PartialEq, Eq, Structural)]
pub enum PickerTab {
    Emoji,
    Gifs,
    Stickers,
}

/// A GIF found through GIPHY.
#[derive(Clone, Debug, PartialEq)]
pub struct Gif {
    pub id: String,
    /// A still frame on disk, once fetched.
    pub still: Option<String>,
    pub mp4: String,
    pub width: u32,
    pub height: u32,
}

#[derive(Clone, Debug, PartialEq)]
pub enum Dialog {
    Shortcuts,
    About,
    ConfirmUnlink,
    /// Link with a phone number instead of a QR code.
    PairWithPhone,
    ChatInfo(ChatId),
}

#[derive(Clone, Copy, Debug, PartialEq, Eq, Structural)]
pub enum ToastKind {
    Info,
    Error,
}

/// A notice at the foot of the window, shown for a few seconds.
#[derive(Clone, Debug)]
pub struct Toast {
    pub message: String,
    pub kind: ToastKind,
    /// When it appeared, in milliseconds of the app's clock.
    pub created: i64,
}

/// Everything a view can ask the app to do. Views push these while drawing;
/// the app applies them after the frame, so no view mutates state it is
/// borrowing. Paths are held as text.
#[derive(Clone, Debug)]
pub enum Action {
    Open(Page),
    OpenChat(ChatId),
    CloseChat,
    SendText {
        chat: ChatId,
        text: String,
        /// The message being replied to.
        quoting: Option<String>,
    },
    /// Say whether we are typing in a chat.
    Composing { chat: ChatId, composing: bool },
    MarkRead(ChatId),
    LoadOlder(ChatId),
    /// Ask the phone for messages older than what the archive has.
    FetchOlder(ChatId),
    Download { chat: ChatId, message: String },
    OpenFile(String),
    OpenUrl(String),
    CopyText(String),
    /// Start composing a reply to a message in the open chat.
    Reply(String),
    CancelReply,
    /// Put one of our own messages back in the composer to change it.
    Edit(String),
    CancelEdit,
    /// Take back a message of ours from everyone.
    DeleteForEveryone(String),
    /// Forget a message on this computer only.
    DeleteForMe(String),
    /// Choose files to send to the open chat.
    Attach,
    SendFiles(Vec<String>),
    /// A picture from the clipboard, as straight RGBA.
    PasteImage { width: usize, height: usize, rgba: Vec<u8> },
    /// Open the picker on a tab, or close it if that tab is showing.
    TogglePicker(PickerTab),
    ClosePicker,
    /// Put an emoji into the composer where the cursor is: the emoji, and
    /// the cursor as a count of characters when the text field has one.
    InsertEmoji(String, Option<usize>),
    SendSticker(String),
    /// Look GIFs up; an empty query lists what is trending.
    SearchGifs(String),
    SendGif(Gif),
    React { chat: ChatId, message: String, emoji: String },
    SetArchived(ChatId, bool),
    SetPinned(ChatId, bool),
    ShowDialog(Dialog),
    CloseDialog,
    ToggleSidebar,
    FocusSearch,
    FocusComposer,
    ScrollToBottom,
    /// Bring a message of the open chat into view.
    ScrollTo(String),
    /// The chat list's search text changed.
    Search(String),
    SettingsChanged,
    /// Change the zoom by a step, given as the bits of an `f32`.
    ZoomBy(u32),
    ResetZoom,
    /// Ask WhatsApp for a pairing code for this phone number.
    PairWithPhone(String),
    /// Forget this device on the phone and locally.
    Unlink,
    Reconnect,
    Quit,
    /// Bring the window forward, creating it if the app lives in the tray.
    ShowWindow,
    /// Close the window and keep running in the tray.
    HideWindow,
}

/// How a message is summed up in a chat row or a quote: a text by its
/// first line; an attachment by what it is ("Photo", "Video", "GIF",
/// "Voice message", "Audio", "Sticker"), followed by ": " and the first
/// line of its caption when that is not empty; a voice message or audio
/// of known length with the length in brackets; a document, place,
/// contact or poll by its kind and name; a deleted message as such.
pub proof fn summaries_say_what_a_message_is(content: Content)
    ensures
        content matches Content::Image { caption: None, .. } ==> summary_text(content) == "Photo"@,
        content matches Content::Video { caption: None, gif, .. } ==> summary_text(content) == if gif {
            "GIF"@
        } else {
            "Video"@
        },
        match content {
            Content::Video { caption: Some(caption), gif, .. } => match first_line(caption@) {
                Some(first) => first.len() > 0 ==> summary_text(content) == (if gif {
                    "GIF: "@
                } else {
                    "Video: "@
                }) + first,
                None => true,
            },
            Content::Image { caption: Some(caption), .. } => match first_line(caption@) {
                Some(first) => first.len() > 0 ==> summary_text(content) == "Photo: "@ + first,
                None => true,
            },
            _ => true,
        },
        content matches Content::Audio { voice_note, seconds: None, .. } ==> summary_text(content)
            == if voice_note {
            "Voice message"@
        } else {
            "Audio"@
        },
        content matches Content::Audio { voice_note, seconds: Some(n), .. } ==> summary_text(content)
            == (if voice_note {
            "Voice message ("@
        } else {
            "Audio ("@
        }) + duration_text(n as nat) + ")"@,
        content matches Content::Text { text, .. } ==> summary_text(content) == match first_line(
            text@,
        ) {
            Some(line) => line,
            None => Seq::empty(),
        },
        content matches Content::Document { file_name, .. } ==> summary_text(content) == "Document: "@
            + file_name@,
        content matches Content::Sticker { .. } ==> summary_text(content) == "Sticker"@,
        content matches Content::Location { name: Some(name), .. } ==> summary_text(content)
            == "Location: "@ + name@,
        content matches Content::Location { name: None, .. } ==> summary_text(content)
            == "Location"@,
        content matches Content::Contact { display_name, .. } ==> summary_text(content)
            == "Contact: "@ + display_name@,
        content matches Content::Poll { question, .. } ==> summary_text(content) == "Poll: "@
            + question@,
        content matches Content::Revoked ==> summary_text(content) == "This message was deleted"@,
        content matches Content::Unsupported { what } ==> summary_text(content)
            == "Unsupported message ("@ + what@ + ")"@,
{
    reveal_strlit("Photo");
    reveal_strlit("Photo: ");
    reveal_strlit("Video");
    reveal_strlit("Video: ");
    reveal_strlit("GIF");
    reveal_strlit("GIF: ");
    reveal_strlit(": ");
    reveal_strlit("Voice message");
    reveal_strlit("Voice message (");
    reveal_strlit("Audio");
    reveal_strlit("Audio (");
    reveal_strlit(" (");
    match content {
        Content::Video { caption: Some(caption), gif, .. } => {
            if gif {
                assert("GIF"@ + ": "@ =~= "GIF: "@);
            } else {
                assert("Video"@ + ": "@ =~= "Video: "@);
            }
            match first_line(caption@) {
                Some(line) => {
                    assert("GIF"@ + ": "@ + line =~= "GIF: "@ + line);
                    assert("Video"@ + ": "@ + line =~= "Video: "@ + line);
                },
                None => {},
            }
        },
        Content::Image { caption: Some(caption), .. } => {
            match first_line(caption@) {
                Some(line) => {
                    assert("Photo"@ + ": "@ + line =~= "Photo: "@ + line);
                },
                None => {},
            }
        },
        Content::Audio { voice_note, seconds: Some(n), .. } => {
            let d = duration_text(n as nat);
            assert("Voice message"@ + " ("@ + d + ")"@ =~= "Voice message ("@ + d + ")"@);
            assert("Audio"@ + " ("@ + d + ")"@ =~= "Audio ("@ + d + ")"@);
        },
        _ => {},
    }
}

} // verus!
