//! User preferences, stored as one readable JSON file.

use vstd::prelude::*;

use crate::text::{chars_of, from_chars, trim_chars, trimmed};

verus! {

#[derive(Clone, Copy, Debug, Default, PartialEq, Eq)]
pub enum ThemeChoice {
    #[default]
    Dark,
    Light,
    System,
}

pub open spec fn theme_label(theme: ThemeChoice) -> Seq<char> {
    match theme {
        ThemeChoice::Dark => "Dark"@,
        ThemeChoice::Light => "Light"@,
        ThemeChoice::System => "Follow system"@,
    }
}

impl ThemeChoice {
    pub fn label(self) -> (r: &'static str)
        ensures
            r@ == theme_label(self),
    {
        match self {
            ThemeChoice::Dark => "Dark",
            ThemeChoice::Light => "Light",
            ThemeChoice::System => "Follow system",
        }
    }
}

/// The preferences. The zoom and the sidebar's width are kept as the
/// IEEE-754 bits of the `f32` the interface uses.
#[derive(Clone, Debug, PartialEq)]
pub struct Settings {
    pub theme: ThemeChoice,
    /// Interface zoom, egui's zoom factor, as `f32` bits.
    pub zoom_bits: u32,
    /// The chat list's width in points, as `f32` bits.
    pub sidebar_width_bits: u32,
    /// Enter sends the message; Shift+Enter inserts a line break. Off, the
    /// two are swapped.
    pub enter_sends: bool,
    /// Tell the sender when their message has been read here.
    pub send_read_receipts: bool,
    /// Show "typing…" to the other side while composing.
    pub send_typing: bool,
    /// Fetch attachments as they come into view rather than on click.
    pub auto_download: bool,
    /// Show the sender's picture beside every message, not only in groups.
    pub show_sender_pictures: bool,
    /// Which chat was open, to reopen it at the next start.
    pub last_chat: Option<String>,
    pub show_shortcut_hints: bool,
    /// Emoji picked lately, newest first.
    pub recent_emoji: Vec<String>,
    /// A GIPHY API key, for the GIF search; empty means the built-in one,
    /// if this build carries any.
    pub giphy_key: String,
    /// Closing the window hides to the tray and keeps the link up.
    pub keep_running_in_background: bool,
    /// Desktop notifications for messages that arrive while away.
    pub notifications: bool,
    /// People are named as the address book has them (else as they call
    /// themselves); off, the other way round.
    pub names_from_contacts: bool,
    /// A contact saved here also lands in the phone's own address book.
    pub save_contacts_to_phone: bool,
}

/// The bits of `1.0f32`.
pub const ZOOM_ONE_BITS: u32 = 0x3F80_0000u32;

/// The bits of `320.0f32`.
pub const SIDEBAR_WIDTH_BITS: u32 = 0x43A0_0000u32;

impl Default for Settings {
    fn default() -> (r: Self)
        ensures
            r.theme == ThemeChoice::Dark,
            r.zoom_bits == ZOOM_ONE_BITS,
            r.sidebar_width_bits == SIDEBAR_WIDTH_BITS,
            r.enter_sends,
            r.send_read_receipts,
            r.send_typing,
            r.auto_download,
            !r.show_sender_pictures,
            r.last_chat is None,
            r.show_shortcut_hints,
            r.recent_emoji@.len() == 0,
            r.giphy_key@.len() == 0,
            r.keep_running_in_background,
            r.notifications,
            r.names_from_contacts,
            r.save_contacts_to_phone,
    {
        Settings {
            theme: ThemeChoice::Dark,
            zoom_bits: ZOOM_ONE_BITS,
            sidebar_width_bits: SIDEBAR_WIDTH_BITS,
            enter_sends: true,
            send_read_receipts: true,
            send_typing: true,
            auto_download: true,
            show_sender_pictures: false,
            last_chat: None,
            show_shortcut_hints: true,
            recent_emoji: Vec::new(),
            giphy_key: String::new(),
            keep_running_in_background: true,
            notifications: true,
            names_from_contacts: true,
            save_contacts_to_phone: true,
        }
    }
}

/// The GIPHY key to search with: the user's own, trimmed, else the
/// built-in one, trimmed, else none.
pub open spec fn giphy_key_choice(own: Seq<char>, built_in: Option<Seq<char>>) -> Option<
    Seq<char>,
> {
    if trimmed(own).len() > 0 {
        Some(trimmed(own))
    } else {
        match built_in {
            Some(key) => if trimmed(key).len() > 0 {
                Some(trimmed(key))
            } else {
                None
            },
            None => None,
        }
    }
}

impl Settings {
    /// The GIPHY key to search with: the user's own, else the key this
    /// build carries (`built_in`), else none.
    pub fn effective_giphy_key(&self, built_in: Option<&str>) -> (r: Option<String>)
        ensures
            r matches Some(key) ==> giphy_key_choice(
                self.giphy_key@,
                match built_in {
                    Some(k) => Some(k@),
                    None => None,
                },
            ) == Some(key@),
            r is None ==> giphy_key_choice(
                self.giphy_key@,
                match built_in {
                    Some(k) => Some(k@),
                    None => None,
                },
            ) is None,
    {
        let own = trim_chars(chars_of(self.giphy_key.as_str()).as_slice());
        if own.len() > 0 {
            return Some(from_chars(own.as_slice()));
        }
        match built_in {
            Some(key) => {
                let key = trim_chars(chars_of(key).as_slice());
                if key.len() > 0 {
                    Some(from_chars(key.as_slice()))
                } else {
                    None
                }
            },
            None => None,
        }
    }
}

} // verus!
