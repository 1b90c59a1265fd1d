//! What passes between the app and the backend that owns the WhatsApp
//! connection: the link's state, the commands the app sends, and the
//! events it folds back in. Paths are held as text.

use vstd::prelude::*;

use crate::model::{Chat, ChatId, Contact, Gif, Message};

verus! {

/// Phone-link state.
#[derive(Clone, Debug, PartialEq)]
pub enum LinkStatus {
    Starting,
    /// Waiting for QR scanning or pairing-code acceptance.
    Unlinked { qr: Option<String>, pair_code: Option<String>, pairing_phone: Option<String> },
    Connecting,
    Connected,
    /// Connection dropped and automatic reconnection is active.
    Disconnected { reason: String },
    /// Device unlinked by the phone.
    LoggedOut,
    Failed(String),
}

impl LinkStatus {
    pub fn is_connected(&self) -> (r: bool)
        ensures
            r == (*self is Connected),
    {
        match self {
            LinkStatus::Connected => true,
            _ => false,
        }
    }
}

/// Oldest loaded message timestamp and id used as a page boundary.
pub type PageKey = (i64, String);

/// What the app asks of the backend.
#[derive(Debug)]
pub enum Command {
    SendText { chat: ChatId, text: String, quoting: Option<String> },
    /// Updates our typing state in a chat.
    Composing { chat: ChatId, composing: bool },
    /// Marks a visible chat read and optionally sends receipts.
    MarkRead { chat: ChatId, receipts: bool },
    /// Loads archived chat messages before an optional boundary.
    LoadChat { chat: ChatId, before: Option<PageKey> },
    /// Requests messages before the archive's earliest message.
    FetchOlder(ChatId),
    Download { chat: ChatId, message: String },
    /// Requests a profile picture; `full` selects the info-dialog size.
    FetchAvatar { id: String, full: bool },
    /// Loads archived messages from `id` through the current page.
    LoadUntil { chat: ChatId, id: String, before: PageKey },
    EditText { chat: ChatId, id: String, text: String },
    Revoke { chat: ChatId, id: String },
    DeleteLocal { chat: ChatId, id: String },
    /// Selects and sends files with the desktop picker.
    PickFiles(ChatId),
    SendFiles { chat: ChatId, paths: Vec<String> },
    /// Sends a clipboard image as straight-alpha RGBA.
    SendImage { chat: ChatId, width: u32, height: u32, rgba: Vec<u8> },
    /// Sends a WebP sticker.
    SendSticker { chat: ChatId, path: String },
    /// Downloads and sends a GIF as a short looping video.
    SendGif { chat: ChatId, gif: Gif },
    /// Searches GIPHY or lists trending results for an empty query.
    SearchGifs { query: String, key: String },
    /// Loads recent and saved stickers for the picker.
    RecentStickers,
    React { chat: ChatId, message: String, emoji: String },
    SetArchived(ChatId, bool),
    SetPinned(ChatId, bool),
    PairWithPhone(String),
    /// Unlinks the device remotely and locally.
    Unlink,
    Reconnect,
    Shutdown,
}

/// What the backend tells the app.
#[derive(Debug)]
pub enum Event {
    Link(LinkStatus),
    /// Linked account identity.
    Me { id: String, name: Option<String>, about: Option<String> },
    /// Full chat list, newest first.
    Chats(Vec<Chat>),
    ChatUpdated(Chat),
    /// Chat messages in ascending order. `older` prepends them; `complete`
    /// means the archive has no earlier rows.
    Messages { chat: ChatId, messages: Vec<Message>, older: bool, complete: bool },
    MessageUpdated(Message),
    /// Live incoming message for desktop notification.
    Incoming { chat: ChatId, message: Message },
    Contacts(Vec<Contact>),
    Typing { chat: ChatId, sender: String, composing: bool },
    Presence { id: String, online: bool, last_seen: Option<i64> },
    Avatar { id: String, full: bool, path: Option<String> },
    MessageDeleted { chat: ChatId, id: String },
    /// GIF search results or failure.
    Gifs { query: String, results: Result<Vec<Gif>, String> },
    /// Saved and recent stickers for the picker.
    Stickers(Vec<String>),
    Media { chat: ChatId, message: String, result: Result<String, String> },
    /// Link-time history sync state.
    Syncing(bool),
    /// Reported history-sync percentage.
    SyncProgress(u32),
    /// Phone-history result. `more` indicates whether another request may help.
    OlderFetched { chat: ChatId, more: bool },
    Error(String),
}

/// A command as its contracts speak of it: texts by their characters.
pub enum CommandView {
    SendText { chat: Seq<char>, text: Seq<char>, quoting: Option<Seq<char>> },
    Composing { chat: Seq<char>, composing: bool },
    MarkRead { chat: Seq<char>, receipts: bool },
    LoadChat { chat: Seq<char>, before: Option<(i64, Seq<char>)> },
    FetchOlder(Seq<char>),
    Download { chat: Seq<char>, message: Seq<char> },
    FetchAvatar { id: Seq<char>, full: bool },
    LoadUntil { chat: Seq<char>, id: Seq<char>, before: (i64, Seq<char>) },
    EditText { chat: Seq<char>, id: Seq<char>, text: Seq<char> },
    Revoke { chat: Seq<char>, id: Seq<char> },
    DeleteLocal { chat: Seq<char>, id: Seq<char> },
    PickFiles(Seq<char>),
    SendFiles { chat: Seq<char>, paths: Seq<Seq<char>> },
    SendImage { chat: Seq<char>, width: u32, height: u32, rgba: Seq<u8> },
    SendSticker { chat: Seq<char>, path: Seq<char> },
    SendGif { chat: Seq<char>, gif: Gif },
    SearchGifs { query: Seq<char>, key: Seq<char> },
    RecentStickers,
    React { chat: Seq<char>, message: Seq<char>, emoji: Seq<char> },
    SetArchived(Seq<char>, bool),
    SetPinned(Seq<char>, bool),
    PairWithPhone(Seq<char>),
    Unlink,
    Reconnect,
    Shutdown,
}

/// The texts of a list of strings.
pub open spec fn texts(v: Seq<String>) -> Seq<Seq<char>> {
    v.map_values(|s: String| s@)
}

/// What a command says.
pub open spec fn command_view(c: Command) -> CommandView {
    match c {
        Command::SendText { chat, text, quoting } => CommandView::SendText {
            chat: chat@,
            text: text@,
            quoting: match quoting {
                Some(q) => Some(q@),
                None => None,
            },
        },
        Command::Composing { chat, composing } => CommandView::Composing { chat: chat@, composing },
        Command::MarkRead { chat, receipts } => CommandView::MarkRead { chat: chat@, receipts },
        Command::LoadChat { chat, before } => CommandView::LoadChat {
            chat: chat@,
            before: match before {
                Some(key) => Some((key.0, key.1@)),
                None => None,
            },
        },
        Command::FetchOlder(chat) => CommandView::FetchOlder(chat@),
        Command::Download { chat, message } => CommandView::Download {
            chat: chat@,
            message: message@,
        },
        Command::FetchAvatar { id, full } => CommandView::FetchAvatar { id: id@, full },
        Command::LoadUntil { chat, id, before } => CommandView::LoadUntil {
            chat: chat@,
            id: id@,
            before: (before.0, before.1@),
        },
        Command::EditText { chat, id, text } => CommandView::EditText {
            chat: chat@,
            id: id@,
            text: text@,
        },
        Command::Revoke { chat, id } => CommandView::Revoke { chat: chat@, id: id@ },
        Command::DeleteLocal { chat, id } => CommandView::DeleteLocal { chat: chat@, id: id@ },
        Command::PickFiles(chat) => CommandView::PickFiles(chat@),
        Command::SendFiles { chat, paths } => CommandView::SendFiles {
            chat: chat@,
            paths: texts(paths@),
        },
        Command::SendImage { chat, width, height, rgba } => CommandView::SendImage {
            chat: chat@,
            width,
            height,
            rgba: rgba@,
        },
        Command::SendSticker { chat, path } => CommandView::SendSticker {
            chat: chat@,
            path: path@,
        },
        Command::SendGif { chat, gif } => CommandView::SendGif { chat: chat@, gif },
        Command::SearchGifs { query, key } => CommandView::SearchGifs {
            query: query@,
            key: key@,
        },
        Command::RecentStickers => CommandView::RecentStickers,
        Command::React { chat, message, emoji } => CommandView::React {
            chat: chat@,
            message: message@,
            emoji: emoji@,
        },
        Command::SetArchived(chat, archived) => CommandView::SetArchived(chat@, archived),
        Command::SetPinned(chat, pinned) => CommandView::SetPinned(chat@, pinned),
        Command::PairWithPhone(phone) => CommandView::PairWithPhone(phone@),
        Command::Unlink => CommandView::Unlink,
        Command::Reconnect => CommandView::Reconnect,
        Command::Shutdown => CommandView::Shutdown,
    }
}

/// What a list of commands says, in order.
pub open spec fn commands_view(s: Seq<Command>) -> Seq<CommandView> {
    s.map_values(|c: Command| command_view(c))
}

} // verus!
