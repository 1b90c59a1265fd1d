//! Keyboard shortcuts: what each one asks for, as the platform writes
//! them, and the chord that sends a message.

use vstd::prelude::*;

use crate::model::{Action, Dialog, Page};
use crate::text::{chars_of, from_chars, has_prefix, slice_skip, starts_with};

verus! {

/// Every non-overlapping occurrence of `from`, leftmost first, replaced by
/// `to` (`str::replace`).
pub open spec fn replaced_all(s: Seq<char>, from: Seq<char>, to: Seq<char>) -> Seq<char>
    decreases s.len(),
{
    if s.len() == 0 {
        s
    } else if from.len() > 0 && has_prefix(s, from) {
        to + replaced_all(s.skip(from.len() as int), from, to)
    } else {
        seq![s[0]] + replaced_all(s.drop_first(), from, to)
    }
}

fn replace_all(s: &[char], from: &[char], to: &[char]) -> (r: Vec<char>)
    requires
        from@.len() > 0,
    ensures
        r@ == replaced_all(s@, from@, to@),
    decreases s@.len(),
{
    if s.len() == 0 {
        return Vec::new();
    }
    if starts_with(s, from) {
        let mut out = crate::text::copy_chars(to);
        let tail = replace_all(slice_skip(s, from.len()), from, to);
        crate::text::extend_chars(&mut out, tail.as_slice());
        out
    } else {
        let mut out: Vec<char> = Vec::new();
        out.push(s[0]);
        let tail = replace_all(slice_skip(s, 1), from, to);
        assert(s@.skip(1) =~= s@.drop_first());
        crate::text::extend_chars(&mut out, tail.as_slice());
        out
    }
}

/// A shortcut as the platform writes it: on macOS the Command key stands in
/// for Ctrl, and Option for Alt.
pub open spec fn key_label(keys: Seq<char>, mac: bool) -> Seq<char> {
    if mac {
        replaced_all(replaced_all(keys, "Ctrl"@, "⌘"@), "Alt"@, "⌥"@)
    } else {
        keys
    }
}

/// A shortcut as the platform writes it; `mac` says whether this is macOS.
pub fn label(keys: &str, mac: bool) -> (r: String)
    ensures
        r@ == key_label(keys@, mac),
{
    if !mac {
        return String::from_str(keys);
    }
    let chars = chars_of(keys);
    let ctrl = chars_of("Ctrl");
    let command = chars_of("⌘");
    let alt = chars_of("Alt");
    let option = chars_of("⌥");
    proof {
        reveal_strlit("Ctrl");
        reveal_strlit("Alt");
    }
    let first = replace_all(chars.as_slice(), ctrl.as_slice(), command.as_slice());
    let second = replace_all(first.as_slice(), alt.as_slice(), option.as_slice());
    from_chars(second.as_slice())
}

/// Whether Enter with these modifiers sends the message. With Enter set
/// to send (`enter_sends`), a bare Enter sends and Shift+Enter breaks the
/// line; swapped, Ctrl+Enter (Command+Enter on macOS, `command`) sends and
/// a bare Enter breaks the line. Alt+Enter never sends.
pub open spec fn send_chord(enter_sends: bool, shift: bool, alt: bool, command: bool, ctrl: bool) -> bool {
    !shift && !alt && if enter_sends {
        !command && !ctrl
    } else {
        command
    }
}

/// Whether a press of Enter with these modifiers sends the message.
pub fn sends_message(enter_sends: bool, shift: bool, alt: bool, command: bool, ctrl: bool) -> (r: bool)
    ensures
        r == send_chord(enter_sends, shift, alt, command, ctrl),
{
    !shift && !alt && if enter_sends {
        !command && !ctrl
    } else {
        command
    }
}

/// Shift+Enter always breaks the line; with Enter set to send, a bare
/// Enter sends; swapped, a bare Enter breaks the line and Command+Enter
/// sends.
pub proof fn enter_and_shift_enter_trade_places(enter_sends: bool, alt: bool, command: bool, ctrl: bool)
    ensures
        !send_chord(enter_sends, true, alt, command, ctrl),
        enter_sends ==> send_chord(enter_sends, false, false, false, false),
        !enter_sends ==> !send_chord(enter_sends, false, alt, false, ctrl),
        !enter_sends ==> send_chord(enter_sends, false, false, true, ctrl),
{
}

/// A key pressed with Ctrl (Command on macOS).
#[derive(Clone, Copy, Debug, PartialEq, Eq)]
pub enum ShortcutKey {
    F,
    K,
    B,
    Comma,
    Q,
    W,
    Slash,
    Plus,
    Equals,
    Minus,
    Num0,
    End,
}

/// The bits of `0.1f32`, the zoom step.
pub const ZOOM_STEP_BITS: u32 = 0x3DCC_CCCDu32;

/// The bits of `-0.1f32`.
pub const ZOOM_BACK_BITS: u32 = 0xBDCC_CCCDu32;

/// What Ctrl with a key asks for.
pub open spec fn shortcut(key: ShortcutKey) -> Action {
    match key {
        ShortcutKey::F => Action::FocusSearch,
        ShortcutKey::K => Action::FocusSearch,
        ShortcutKey::B => Action::ToggleSidebar,
        ShortcutKey::Comma => Action::Open(Page::Settings),
        ShortcutKey::Q => Action::Quit,
        ShortcutKey::W => Action::HideWindow,
        ShortcutKey::Slash => Action::ShowDialog(Dialog::Shortcuts),
        ShortcutKey::Plus => Action::ZoomBy(ZOOM_STEP_BITS),
        ShortcutKey::Equals => Action::ZoomBy(ZOOM_STEP_BITS),
        ShortcutKey::Minus => Action::ZoomBy(ZOOM_BACK_BITS),
        ShortcutKey::Num0 => Action::ResetZoom,
        ShortcutKey::End => Action::ScrollToBottom,
    }
}

/// The action Ctrl with a key asks for: search, the chat list, settings,
/// quitting, closing the window to the tray, the list of shortcuts, zoom,
/// and the newest message.
pub fn shortcut_action(key: ShortcutKey) -> (r: Action)
    ensures
        r == shortcut(key),
{
    match key {
        ShortcutKey::F => Action::FocusSearch,
        ShortcutKey::K => Action::FocusSearch,
        ShortcutKey::B => Action::ToggleSidebar,
        ShortcutKey::Comma => Action::Open(Page::Settings),
        ShortcutKey::Q => Action::Quit,
        ShortcutKey::W => Action::HideWindow,
        ShortcutKey::Slash => Action::ShowDialog(Dialog::Shortcuts),
        ShortcutKey::Plus => Action::ZoomBy(ZOOM_STEP_BITS),
        ShortcutKey::Equals => Action::ZoomBy(ZOOM_STEP_BITS),
        ShortcutKey::Minus => Action::ZoomBy(ZOOM_BACK_BITS),
        ShortcutKey::Num0 => Action::ResetZoom,
        ShortcutKey::End => Action::ScrollToBottom,
    }
}

} // verus!
