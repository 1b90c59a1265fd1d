use fastsapp::app::{App, AppOptions, Conversation, Effect};
use fastsapp::single_instance::ControlCommand;
use fastsapp::tray::TrayCommand;
use fastsapp::ui::conversation::{history_marks, history_marks_here, subtitle};
use fastsapp::util::CivilDate;
use fastsapp::backend::{Command, Event, LinkStatus};
use fastsapp::model::{Action, Chat, Contact, Content, Delivery, Message, PickerTab, ToastKind};
use fastsapp::settings::Settings;

fn app() -> App {
    App::new(Settings::default(), AppOptions::default())
}

fn message(chat: &str, id: &str, timestamp: i64) -> Message {
    Message {
        id: id.into(),
        chat: chat.into(),
        sender: chat.into(),
        sender_name: None,
        from_me: false,
        timestamp,
        content: Content::text(id.into()),
        status: Delivery::NotOurs,
        quoted: None,
        reactions: Vec::new(),
        edited: false,
        mentions: Vec::new(),
        forwarded: false,
        thumbnail: None,
    }
}

fn ids(conversation: &Conversation) -> Vec<&str> {
    conversation.messages.iter().map(|m| m.id.as_str()).collect()
}

#[test]
fn conversations_merge_pages_without_duplicates() {
    let mut conversation = Conversation::new();
    conversation.merge(vec![message("c", "b", 2), message("c", "c", 3)], false);
    conversation.merge(vec![message("c", "a", 1), message("c", "b", 2)], true);
    assert_eq!(ids(&conversation), vec!["a", "b", "c"]);
    conversation.merge(vec![message("c", "c", 3)], false);
    assert_eq!(conversation.messages.len(), 3);
}

#[test]
fn visible_chats_pin_first_and_filter() {
    let mut app = app();
    let mut a = Chat::new("1@s.whatsapp.net".into(), "Ada".into());
    a.last_activity = 10;
    let mut b = Chat::new("2@s.whatsapp.net".into(), "Bob".into());
    b.last_activity = 20;
    let mut c = Chat::new("3@s.whatsapp.net".into(), "Cy".into());
    c.last_activity = 5;
    c.pinned = true;
    let mut d = Chat::new("4@s.whatsapp.net".into(), "Dee".into());
    d.archived = true;
    app.chats = vec![b, a, c, d];
    let names: Vec<&str> = app
        .visible_chats()
        .iter()
        .map(|chat| chat.name.as_str())
        .collect();
    assert_eq!(names, vec!["Cy", "Bob", "Ada"]);
    app.search = "ad".into();
    let names: Vec<&str> = app
        .visible_chats()
        .iter()
        .map(|chat| chat.name.as_str())
        .collect();
    assert_eq!(names, vec!["Ada"]);
}

#[test]
fn opening_a_chat_keeps_drafts_apart() {
    let mut app = app();
    app.chats
        .push(Chat::new("1@s.whatsapp.net".into(), "Ada".into()));
    app.chats
        .push(Chat::new("2@s.whatsapp.net".into(), "Bob".into()));
    app.open_chat("1@s.whatsapp.net".into());
    app.composer = "hello ada".into();
    app.open_chat("2@s.whatsapp.net".into());
    assert_eq!(app.composer, "");
    app.open_chat("1@s.whatsapp.net".into());
    assert_eq!(app.composer, "hello ada");
    assert_eq!(app.settings.last_chat.as_deref(), Some("1@s.whatsapp.net"));
}

#[test]
fn names_fall_back_from_contacts_to_phones() {
    let mut app = app();
    app.contacts.insert(
        "1@s.whatsapp.net".into(),
        Contact {
            id: "1@s.whatsapp.net".into(),
            full_name: Some("Ada".into()),
            push_name: None,
        },
    );
    assert_eq!(app.display_name("1@s.whatsapp.net"), "Ada");
    assert_eq!(
        app.display_name("393331234567@s.whatsapp.net"),
        "+39 333 123 456 7"
    );
    assert_eq!(app.display_name("42@lid"), "Unknown");
    app.contacts.insert(
        "42@lid".into(),
        Contact {
            id: "42@lid".into(),
            full_name: None,
            push_name: Some("Bob".into()),
        },
    );
    assert_eq!(app.display_name("42@lid"), "~Bob");
    app.me = Some("42@lid".into());
    assert_eq!(app.display_name("42@lid"), "You");
}

#[test]
fn a_draft_survives_a_trip_to_another_chat_through_actions() {
    let mut app = app();
    app.apply(Action::OpenChat("a@s.whatsapp.net".into()), 0);
    app.composer = "half a thought".into();
    app.apply(Action::OpenChat("b@s.whatsapp.net".into()), 0);
    assert!(app.composer.is_empty());
    app.apply(Action::CloseChat, 0);
    app.apply(Action::OpenChat("a@s.whatsapp.net".into()), 0);
    assert_eq!(app.composer, "half a thought");
}

#[test]
fn opening_a_chat_asks_for_its_history_once_and_reads_it() {
    let mut app = app();
    let mut chat = Chat::new("a@s.whatsapp.net".into(), "Ada".into());
    chat.unread = 3;
    app.chats.push(chat);
    app.open_chat("a@s.whatsapp.net".into());
    app.open_chat("a@s.whatsapp.net".into());
    let loads = app
        .outbox
        .iter()
        .filter(|c| matches!(c, Command::LoadChat { chat, before: None } if chat == "a@s.whatsapp.net"))
        .count();
    assert_eq!(loads, 1);
    assert_eq!(app.chats[0].unread, 0);
    assert!(app.outbox.iter().any(|c| matches!(c, Command::MarkRead { .. })));
    assert!(app.saving.dirty);
}

#[test]
fn sending_trims_and_refuses_blank_text() {
    let mut app = app();
    app.apply(
        Action::SendText { chat: "a".into(), text: "   ".into(), quoting: None },
        0,
    );
    assert!(app.outbox.is_empty());
    app.apply(
        Action::SendText { chat: "a".into(), text: "  hi  ".into(), quoting: Some("q".into()) },
        0,
    );
    match app.outbox.last() {
        Some(Command::SendText { chat, text, quoting }) => {
            assert_eq!(chat, "a");
            assert_eq!(text, "hi");
            assert_eq!(quoting.as_deref(), Some("q"));
        }
        other => panic!("unexpected {other:?}"),
    }
}

#[test]
fn an_edit_changes_the_loaded_message_and_tells_the_backend() {
    let mut app = app();
    app.apply(Action::OpenChat("c".into()), 0);
    let mut mine = message("c", "m1", 10);
    mine.from_me = true;
    app.handle_event(
        Event::Messages { chat: "c".into(), messages: vec![mine], older: false, complete: true },
        0,
    );
    app.apply(Action::Edit("m1".into()), 0);
    assert_eq!(app.composer, "m1");
    assert_eq!(app.compose.editing.as_deref(), Some("m1"));
    app.apply(Action::SendText { chat: "c".into(), text: "fixed".into(), quoting: None }, 0);
    let conversation = app.conversations.get("c").expect("loaded");
    assert_eq!(conversation.messages[0].content, Content::text("fixed".into()));
    assert!(conversation.messages[0].edited);
    assert!(matches!(app.outbox.last(), Some(Command::EditText { id, text, .. }) if id == "m1" && text == "fixed"));
    assert!(app.compose.editing.is_none());
}

#[test]
fn only_four_notices_show_but_errors_always_do() {
    let mut app = app();
    for n in 0..6 {
        app.toast(format!("note {n}"), 0);
    }
    assert_eq!(app.toasts.len(), 4);
    assert_eq!(app.toasts[3].message, "note 3");
    app.toast_error("bad".into(), 0);
    assert_eq!(app.toasts.len(), 5);
    assert_eq!(app.toasts[4].kind, ToastKind::Error);
}

#[test]
fn older_pages_come_from_the_archive_then_the_phone() {
    let mut app = app();
    app.handle_event(
        Event::Messages {
            chat: "c".into(),
            messages: vec![message("c", "m5", 5), message("c", "m6", 6)],
            older: false,
            complete: false,
        },
        0,
    );
    app.load_older("c", 0);
    assert!(matches!(app.outbox.last(), Some(Command::LoadChat { before: Some((5, id)), .. }) if id == "m5"));
    assert_eq!(app.view.scroll_anchor.as_deref(), Some("m5"));
    // While loading, asking again does nothing.
    let sent = app.outbox.len();
    app.load_older("c", 0);
    assert_eq!(app.outbox.len(), sent);
    // The archive is exhausted: the phone is asked, but only over a live link.
    app.handle_event(
        Event::Messages { chat: "c".into(), messages: Vec::new(), older: true, complete: true },
        0,
    );
    app.load_older("c", 0);
    assert_eq!(app.outbox.len(), sent);
    app.handle_event(Event::Link(LinkStatus::Connected), 0);
    app.load_older("c", 0);
    assert!(matches!(app.outbox.last(), Some(Command::FetchOlder(chat)) if chat == "c"));
    // An empty answer makes the phone wait, twice as long each time.
    app.handle_event(Event::OlderFetched { chat: "c".into(), more: true }, 1_000);
    let conversation = app.conversations.get("c").expect("loaded");
    assert_eq!(conversation.phone_misses, 1);
    assert!(!conversation.complete);
    app.handle_event(
        Event::Messages { chat: "c".into(), messages: Vec::new(), older: true, complete: true },
        1_000,
    );
    let sent = app.outbox.len();
    app.fetch_older("c", 12_999);
    assert_eq!(app.outbox.len(), sent);
    app.fetch_older("c", 13_001);
    assert_eq!(app.outbox.len(), sent + 1);
    // While that request is out, the phone is not asked again.
    app.fetch_older("c", 60_000);
    assert_eq!(app.outbox.len(), sent + 1);
}

#[test]
fn typing_shows_by_name_and_fades() {
    let mut app = app();
    app.contacts.insert(
        "ada@s.whatsapp.net".into(),
        Contact { id: "ada@s.whatsapp.net".into(), full_name: Some("Ada".into()), push_name: None },
    );
    app.handle_event(
        Event::Typing { chat: "g".into(), sender: "ada@s.whatsapp.net".into(), composing: true },
        1_000,
    );
    assert_eq!(app.typing_in("g"), vec!["Ada".to_owned()]);
    app.tick(12_999);
    assert_eq!(app.typing_in("g"), vec!["Ada".to_owned()]);
    app.tick(13_000);
    assert!(app.typing_in("g").is_empty());
}

#[test]
fn group_members_are_listed_like_whatsapp() {
    let mut app = app();
    app.me = Some("me@s.whatsapp.net".into());
    app.contacts.insert(
        "z@s.whatsapp.net".into(),
        Contact { id: "z@s.whatsapp.net".into(), full_name: Some("zoe Smith".into()), push_name: None },
    );
    app.contacts.insert(
        "b@s.whatsapp.net".into(),
        Contact { id: "b@s.whatsapp.net".into(), full_name: None, push_name: Some("Bea".into()) },
    );
    let mut group = Chat::new("1-2@g.us".into(), "Friends".into());
    group.participants = vec![
        "z@s.whatsapp.net".into(),
        "me@s.whatsapp.net".into(),
        "393331234567@s.whatsapp.net".into(),
        "b@s.whatsapp.net".into(),
        "7@lid".into(),
    ];
    assert_eq!(app.participant_names(&group), "Bea, zoe, +39 333 123 456 7, Unknown, You");
}

#[test]
fn archiving_the_open_chat_closes_it_after_the_batch() {
    let mut app = app();
    app.chats.push(Chat::new("a".into(), "Ada".into()));
    app.apply(Action::OpenChat("a".into()), 0);
    app.apply(Action::SetArchived("a".into(), true), 0);
    assert!(app.chats[0].archived);
    assert!(matches!(app.actions.last(), Some(Action::CloseChat)));
    let queued: Vec<Action> = std::mem::take(&mut app.actions);
    for action in queued {
        app.apply(action, 0);
    }
    assert!(app.open_chat.is_none());
}

#[test]
fn the_gif_tab_searches_trending_once_it_opens_empty() {
    let mut app = app();
    app.apply(Action::TogglePicker(PickerTab::Gifs), 0);
    assert_eq!(app.picker.tab, Some(PickerTab::Gifs));
    assert!(matches!(app.actions.last(), Some(Action::SearchGifs(q)) if q.is_empty()));
    app.apply(Action::TogglePicker(PickerTab::Gifs), 0);
    assert_eq!(app.picker.tab, None);
}

#[test]
fn a_pairing_number_needs_seven_digits() {
    let mut app = app();
    app.apply(Action::PairWithPhone("+39 12".into()), 5);
    assert_eq!(app.toasts.last().map(|t| t.kind), Some(ToastKind::Error));
    app.apply(Action::PairWithPhone("+39 333 123 4567".into()), 5);
    assert!(matches!(app.outbox.last(), Some(Command::PairWithPhone(d)) if d == "393331234567"));
}

#[test]
fn quitting_closes_the_window_and_hiding_needs_a_tray() {
    let mut app = App::new(Settings::default(), AppOptions { tray: false });
    app.apply(Action::HideWindow, 0);
    assert!(app.effects.is_empty());
    app.apply(Action::Quit, 0);
    assert!(app.window.quit_requested);
    assert!(matches!(app.effects.last(), Some(Effect::CloseWindow)));
}

#[test]
fn logging_out_forgets_the_account() {
    let mut app = app();
    app.chats.push(Chat::new("a".into(), "Ada".into()));
    app.apply(Action::OpenChat("a".into()), 0);
    app.handle_event(Event::Link(LinkStatus::LoggedOut), 7);
    assert!(app.chats.is_empty());
    assert!(app.open_chat.is_none());
    assert!(!app.is_linked());
    assert_eq!(app.toasts.last().map(|t| t.message.as_str()), Some("This device was unlinked from your phone"));
}

#[test]
fn changed_settings_are_written_after_a_pause() {
    let mut app = app();
    app.apply(Action::SettingsChanged, 0);
    app.tick(1_000);
    assert!(app.effects.is_empty());
    app.tick(2_001);
    assert!(matches!(app.effects.last(), Some(Effect::SaveSettings)));
    assert!(!app.saving.dirty);
}

#[test]
fn a_new_message_from_an_unread_chat_notifies() {
    let mut app = app();
    app.chats.push(Chat::new("g@g.us".into(), "Friends".into()));
    app.settings.notifications = true;
    let mut m = message("g@g.us", "m1", 100);
    m.sender = "393331234567@s.whatsapp.net".into();
    app.handle_event(Event::Incoming { chat: "g@g.us".into(), message: m }, 120_000);
    match app.effects.last() {
        Some(Effect::Notify { title, body, chat }) => {
            assert_eq!(title, "Friends");
            assert_eq!(body, "+39 333 123 456 7: m1");
            assert_eq!(chat, "g@g.us");
        }
        other => panic!("unexpected {other:?}"),
    }
    let old = message("g@g.us", "m0", 10);
    let before = app.effects.len();
    app.handle_event(Event::Incoming { chat: "g@g.us".into(), message: old }, 120_000);
    assert_eq!(app.effects.len(), before);
}

#[test]
fn unread_and_archived_counts_follow_the_list() {
    let mut app = app();
    let mut a = Chat::new("a".into(), "A".into());
    a.unread = 2;
    let mut b = Chat::new("b".into(), "B".into());
    b.unread = 5;
    b.archived = true;
    let mut c = Chat::new("c".into(), "C".into());
    c.unread = 7;
    c.muted_until = Some(0);
    app.chats = vec![a, b, c];
    assert_eq!(app.archived_count(), 1);
    assert_eq!(app.unread_total_at(0), 2);
    assert_eq!(app.unread_total(), 2);
}

#[test]
fn the_tray_flips_the_window_and_quits() {
    let mut app = app();
    app.handle_tray_command(TrayCommand::ShowHide);
    app.window.hidden = true;
    app.handle_tray_command(TrayCommand::ShowHide);
    app.handle_tray_command(TrayCommand::Show);
    app.handle_tray_command(TrayCommand::Quit);
    assert!(matches!(
        app.actions.as_slice(),
        [Action::HideWindow, Action::ShowWindow, Action::ShowWindow, Action::Quit]
    ));
}

#[test]
fn a_second_launch_and_a_clicked_notification_bring_the_window() {
    let mut app = app();
    app.handle_control_command(ControlCommand::Show);
    app.notification_opened("1@s.whatsapp.net".into());
    assert_eq!(app.actions.len(), 3);
    assert!(matches!(app.actions[0], Action::ShowWindow));
    assert!(matches!(&app.actions[1], Action::OpenChat(id) if id == "1@s.whatsapp.net"));
    assert!(matches!(app.actions[2], Action::ShowWindow));
}

#[test]
fn text_goes_in_at_the_cursor_or_at_the_end() {
    let mut app = app();
    app.composer = "héllo".into();
    assert_eq!(app.insert_in_composer(Some(1), "ab"), 3);
    assert_eq!(app.composer, "habéllo");
    assert_eq!(app.insert_in_composer(None, "!"), 8);
    assert_eq!(app.composer, "habéllo!");
    assert_eq!(app.insert_in_composer(Some(99), "?"), 9);
    assert_eq!(app.composer, "habéllo!?");
}

#[test]
fn coming_back_to_the_window_reads_the_open_chat() {
    let mut app = app();
    let mut ada = Chat::new("1@s.whatsapp.net".into(), "Ada".into());
    ada.unread = 2;
    app.chats.push(ada);
    app.open_chat = Some("1@s.whatsapp.net".into());
    app.window_focus(false);
    assert!(!app.window.focused);
    assert_eq!(app.chats[0].unread, 2);
    let sent = app.outbox.len();
    app.window_focus(true);
    assert!(app.window.focused);
    assert_eq!(app.chats[0].unread, 0);
    assert_eq!(app.outbox.len(), sent + 1);
    assert!(matches!(app.outbox.last(), Some(Command::MarkRead { .. })));
}

#[test]
fn closing_the_window_hides_to_the_tray_unless_quitting() {
    let mut app = app();
    app.close_requested();
    assert!(app.window.hide_intent);
    let mut quitting = self::app();
    quitting.window.quit_requested = true;
    quitting.close_requested();
    assert!(!quitting.window.hide_intent);
    let mut without_tray = App::new(Settings::default(), AppOptions { tray: false });
    without_tray.close_requested();
    assert!(!without_tray.window.hide_intent);
}

#[test]
fn muted_and_open_chats_stay_quiet() {
    let mut app = app();
    let mut muted = Chat::new("m@g.us".into(), "Muted".into());
    muted.muted_until = Some(0);
    app.chats.push(muted);
    app.chats.push(Chat::new("o@g.us".into(), "Open".into()));
    app.open_chat = Some("o@g.us".into());
    app.handle_event(
        Event::Incoming { chat: "m@g.us".into(), message: message("m@g.us", "x", 100) },
        120_000,
    );
    app.handle_event(
        Event::Incoming { chat: "o@g.us".into(), message: message("o@g.us", "y", 100) },
        120_000,
    );
    assert!(app.effects.is_empty());
    app.window.focused = false;
    app.handle_event(
        Event::Incoming { chat: "o@g.us".into(), message: message("o@g.us", "z", 100) },
        120_000,
    );
    assert!(matches!(app.effects.last(), Some(Effect::Notify { .. })));
}

#[test]
fn launching_again_brings_the_window_back() {
    let mut app = app();
    app.window.hidden = true;
    app.handle_control_command(ControlCommand::Show);
    let action = app.actions.pop().expect("a show action");
    app.apply(action, 0);
    assert!(app.window.wants_show);
    let mut shown = self::app();
    shown.handle_control_command(ControlCommand::Show);
    let action = shown.actions.pop().expect("a show action");
    shown.apply(action, 0);
    assert!(matches!(shown.effects.last(), Some(Effect::FocusWindow)));
}

#[test]
fn the_line_under_a_chats_name_says_what_is_going_on() {
    let mut app = app();
    app.contacts.insert(
        "1@s.whatsapp.net".into(),
        Contact { id: "1@s.whatsapp.net".into(), full_name: Some("Ada Lovelace".into()), push_name: None },
    );
    let mut group = Chat::new("g@g.us".into(), "Friends".into());
    assert_eq!(subtitle(&app, &group), ("Group".to_owned(), false));
    group.participants = vec!["1@s.whatsapp.net".into(), "393331234567@s.whatsapp.net".into()];
    app.chats.push(group.clone());
    assert_eq!(subtitle(&app, &group), ("Ada, +39 333 123 456 7".to_owned(), false));
    app.handle_event(
        Event::Typing { chat: "g@g.us".into(), sender: "1@s.whatsapp.net".into(), composing: true },
        1_000,
    );
    assert_eq!(subtitle(&app, &group), ("Ada Lovelace typing…".to_owned(), true));

    let stranger = Chat::new("393331234567@s.whatsapp.net".into(), "Bob".into());
    assert_eq!(subtitle(&app, &stranger), ("+39 333 123 456 7".to_owned(), false));
    let saved = Chat::new("1@s.whatsapp.net".into(), "Ada".into());
    assert_eq!(subtitle(&app, &saved), (String::new(), false));
    app.handle_event(
        Event::Presence { id: "1@s.whatsapp.net".into(), online: true, last_seen: None },
        1_000,
    );
    assert_eq!(subtitle(&app, &saved), ("online".to_owned(), true));
    app.handle_event(
        Event::Presence { id: "1@s.whatsapp.net".into(), online: false, last_seen: Some(1_700_000_000) },
        1_000,
    );
    let (text, highlighted) = subtitle(&app, &saved);
    assert!(text.starts_with("last seen "));
    assert!(!highlighted);
}

#[test]
fn reaching_the_top_of_a_history_asks_for_more() {
    let mut app = app();
    app.view.scroll_anchor = Some("gone".into());
    app.history_shown("c", true, false, true);
    assert!(app.conversations.contains_key("c"));
    assert!(app.view.at_bottom);
    assert!(!app.view.scroll_to_bottom);
    assert!(app.view.scroll_anchor.is_none());
    assert!(matches!(app.actions.as_slice(), [Action::LoadOlder(chat)] if chat == "c"));
    // Not at the top: nothing is asked.
    app.actions.clear();
    app.history_shown("c", false, false, false);
    assert!(app.actions.is_empty());
    assert!(!app.view.at_bottom);
    // The archive and the phone have nothing more.
    let mut done = Conversation::new();
    done.complete = true;
    done.phone_exhausted = true;
    done.messages.push(message("d", "m1", 1));
    app.conversations.insert("d".into(), done);
    app.view.scroll_anchor = Some("m1".into());
    app.history_shown("d", true, false, true);
    assert!(app.actions.is_empty());
    assert_eq!(app.view.scroll_anchor.as_deref(), Some("m1"));
    app.history_shown("d", true, true, true);
    assert!(app.view.scroll_anchor.is_none());
}

#[test]
fn sending_empties_the_composer_into_a_reply() {
    let mut app = app();
    app.composer = "   ".into();
    app.submit_composer("c");
    assert!(app.actions.is_empty());
    assert_eq!(app.composer, "   ");
    app.composer = " hello ".into();
    app.compose.reply_to = Some("m1".into());
    app.view.focus_composer = false;
    app.submit_composer("c");
    assert!(app.composer.is_empty());
    assert!(app.view.focus_composer);
    match app.actions.as_slice() {
        [Action::SendText { chat, text, quoting }] => {
            assert_eq!(chat, "c");
            assert_eq!(text, " hello ");
            assert_eq!(quoting.as_deref(), Some("m1"));
        }
        other => panic!("unexpected {other:?}"),
    }
}

#[test]
fn a_reply_to_a_message_no_longer_loaded_is_dropped() {
    let mut app = app();
    let mut conversation = Conversation::new();
    conversation.messages.push(message("c", "m1", 1));
    app.conversations.insert("c".into(), conversation);
    app.compose.reply_to = Some("m1".into());
    app.check_reply("c");
    assert_eq!(app.compose.reply_to.as_deref(), Some("m1"));
    app.compose.reply_to = Some("m2".into());
    app.check_reply("c");
    assert!(app.compose.reply_to.is_none());
}

#[test]
fn a_gif_search_runs_only_for_a_new_query() {
    let mut app = app();
    app.picker.gif_query = "cats".into();
    app.submit_gif_query(" cats ".into());
    assert!(app.actions.is_empty());
    app.submit_gif_query("dogs".into());
    assert!(matches!(app.actions.as_slice(), [Action::SearchGifs(q)] if q == "dogs"));
}

#[test]
fn entering_a_giphy_key_shows_what_is_trending() {
    let mut app = app();
    app.settings.giphy_key = "   ".into();
    app.leave_giphy_key();
    assert!(app.actions.is_empty());
    app.settings.giphy_key = "abc".into();
    app.leave_giphy_key();
    assert!(matches!(app.actions.as_slice(), [Action::SearchGifs(q)] if q.is_empty()));
}

#[test]
fn escape_backs_out_of_what_is_on_top() {
    let mut app = app();
    app.escape_pressed();
    assert!(app.actions.is_empty());
    app.search = "ad".into();
    app.escape_pressed();
    assert!(matches!(app.actions.last(), Some(Action::Search(s)) if s.is_empty()));
    app.compose.reply_to = Some("m".into());
    app.escape_pressed();
    assert!(matches!(app.actions.last(), Some(Action::CancelReply)));
    app.compose.editing = Some("m".into());
    app.escape_pressed();
    assert!(matches!(app.actions.last(), Some(Action::CancelEdit)));
    app.picker.tab = Some(PickerTab::Emoji);
    app.escape_pressed();
    assert!(matches!(app.actions.last(), Some(Action::ClosePicker)));
    app.view.dialog = Some(fastsapp::model::Dialog::About);
    app.escape_pressed();
    assert!(matches!(app.actions.last(), Some(Action::CloseDialog)));
}

#[test]
fn alt_arrows_walk_the_chat_list_around() {
    let mut app = app();
    let mut a = Chat::new("a".into(), "A".into());
    a.last_activity = 30;
    let mut b = Chat::new("b".into(), "B".into());
    b.last_activity = 20;
    let mut c = Chat::new("c".into(), "C".into());
    c.last_activity = 10;
    app.chats = vec![a, b, c];
    app.step_chat(true);
    assert!(matches!(app.actions.last(), Some(Action::OpenChat(id)) if id == "a"));
    app.open_chat = Some("c".into());
    app.step_chat(true);
    assert!(matches!(app.actions.last(), Some(Action::OpenChat(id)) if id == "a"));
    app.step_chat(false);
    assert!(matches!(app.actions.last(), Some(Action::OpenChat(id)) if id == "b"));
    app.open_chat = Some("a".into());
    app.step_chat(false);
    assert!(matches!(app.actions.last(), Some(Action::OpenChat(id)) if id == "c"));
    let mut empty = self::app();
    empty.step_chat(true);
    assert!(empty.actions.is_empty());
}

#[test]
fn a_closed_window_stays_in_the_tray_only_when_asked_to() {
    let mut app = app();
    app.settings.keep_running_in_background = true;
    assert!(app.window_closed());
    assert!(app.window.hidden);
    let mut quitting = self::app();
    quitting.settings.keep_running_in_background = true;
    quitting.window.quit_requested = true;
    assert!(!quitting.window_closed());
    assert!(!quitting.window.hidden);
    let mut without_tray = App::new(Settings::default(), AppOptions { tray: false });
    without_tray.settings.keep_running_in_background = true;
    assert!(!without_tray.window_closed());
}

#[test]
fn a_file_that_will_not_open_is_reported() {
    let mut app = app();
    let before = app.toasts.len();
    app.open_failed("/tmp/a.pdf", "no handler", 42);
    assert_eq!(app.toasts.len(), before + 1);
    let toast = app.toasts.last().unwrap();
    assert_eq!(toast.message, "Could not open /tmp/a.pdf: no handler");
    assert_eq!(toast.kind, ToastKind::Error);
    assert_eq!(toast.created, 42);
}

#[test]
fn merging_keeps_the_loaded_copy_for_older_pages_and_the_new_one_otherwise() {
    let mut conversation = Conversation::new();
    conversation.merge(vec![message("c", "a", 1)], false);
    let mut older_copy = message("c", "a", 1);
    older_copy.content = Content::text("stale".into());
    conversation.merge(vec![older_copy.clone()], true);
    assert_eq!(conversation.messages.len(), 1);
    assert!(conversation.messages[0] != older_copy);
    conversation.merge(vec![older_copy.clone()], false);
    assert_eq!(conversation.messages.len(), 1);
    assert!(conversation.messages[0] == older_copy);
}

#[test]
fn a_picked_emoji_moves_to_the_front_once() {
    let mut app = app();
    app.settings.recent_emoji = vec!["😀".to_string(), "👍".to_string(), "🎉".to_string()];
    app.composer = "hi ".into();
    let effects = app.effects.len();
    app.apply(Action::InsertEmoji("👍".to_string(), None), 0);
    assert_eq!(app.settings.recent_emoji, vec!["👍", "😀", "🎉"]);
    assert_eq!(app.composer, "hi 👍");
    assert!(app.view.focus_composer);
    assert_eq!(app.effects.len(), effects);
    app.apply(Action::InsertEmoji("😂".to_string(), Some(2)), 0);
    assert_eq!(app.composer, "hi😂 👍");
    assert!(matches!(app.effects.last(), Some(Effect::ComposerCursor(3))));
    let many: Vec<String> = (0..40).map(|i| format!("e{i}")).collect();
    app.settings.recent_emoji = many;
    app.apply(Action::InsertEmoji("new".to_string(), None), 0);
    assert_eq!(app.settings.recent_emoji.len(), 36);
    assert_eq!(app.settings.recent_emoji[0], "new");
    assert_eq!(app.settings.recent_emoji[1], "e0");
}

#[test]
fn headings_mark_new_days_and_names_mark_new_senders() {
    let from = |id: &str, sender: &str, mine: bool| {
        let mut m = message("g@g.us", id, 0);
        m.sender = sender.into();
        m.from_me = mine;
        m
    };
    let messages = vec![
        from("a", "x", false),
        from("b", "x", false),
        from("c", "y", false),
        from("d", "me", true),
        from("e", "y", false),
        from("f", "y", false),
    ];
    let monday = Some(CivilDate { year: 2024, month: 5, day: 6, weekday: 1 });
    let tuesday = Some(CivilDate { year: 2024, month: 5, day: 7, weekday: 2 });
    let days = vec![monday, monday, monday, monday, monday, tuesday];
    assert_eq!(
        history_marks(&messages, &days, true),
        vec![(true, true), (false, false), (false, true), (false, false), (false, true), (true, true)]
    );
    assert_eq!(
        history_marks(&messages, &days, false),
        vec![(true, false), (false, false), (false, false), (false, false), (false, false), (true, false)]
    );
    let here = history_marks_here(&messages, true);
    assert_eq!(
        here,
        vec![(true, true), (false, false), (false, true), (false, false), (false, true), (false, false)]
    );
}

#[test]
fn a_heading_comes_wherever_the_day_changes() {
    let mut first = message("c", "a", 1_700_000_000);
    first.from_me = true;
    let mut later = message("c", "b", 1_700_000_000 + 3 * 86_400);
    later.from_me = true;
    let marks = history_marks_here(&[first, later], false);
    assert_eq!(marks, vec![(true, false), (true, false)]);
}
