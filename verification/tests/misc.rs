use fastsapp::ui::conversation::{audio_detail, audio_title, document_detail, vcard_phone};
use fastsapp::ui::chats::{sender_lead, typing_preview};
use fastsapp::animation::{avcc_to_annex_b, can_play_video, frame_at, prune, CacheState, CachedAnimation};
use fastsapp::bidi::{is_rtl, rtl_runs};
use fastsapp::model::{Content, Delivery, Media, MediaState, Message, Reaction};
use fastsapp::notify::lines;
use fastsapp::paths::AppDirs;
use fastsapp::qr::Qr;
use fastsapp::settings::{Settings, ThemeChoice};
use fastsapp::single_instance::{answered_as_us, line_of, parse, reply, request, ControlCommand};
use fastsapp::table::Table;
use fastsapp::tray::argb_pixels;
use fastsapp::model::Action;
use fastsapp::ui::conversation::{
    fetch_attachment, fetch_picture, own_reaction, quick_reaction_list, quick_reactions, reaction_label, reaction_pick, reaction_tally,
    status_label,
};
use fastsapp::ui::keys::{label, sends_message, shortcut_action, ShortcutKey};

#[test]
fn rtl_detection_covers_hebrew_and_arabic() {
    assert!(is_rtl('א'));
    assert!(is_rtl('ب'));
    assert!(!is_rtl('A'));
    assert!(!is_rtl(' '));
}

#[test]
fn only_strong_right_to_left_characters_count() {
    // Hebrew point sheva (NSM) and Arabic-Indic digit one (AN) are not strong.
    assert!(!is_rtl('\u{05B0}'));
    assert!(!is_rtl('\u{0661}'));
    assert!(is_rtl('\u{0627}'));
    assert!(is_rtl('\u{05BE}'));
    assert!(is_rtl('\u{10800}'));
    assert!(!is_rtl('a'));
}

#[test]
fn right_to_left_runs_are_found_between_other_text() {
    let glyphs: Vec<(char, bool)> = "OK הכלב end".chars().map(|c| (c, true)).collect();
    assert_eq!(rtl_runs(&glyphs), vec![(3, 7)]);
    let mut broken = glyphs.clone();
    broken[4].1 = false;
    assert_eq!(rtl_runs(&broken), vec![(3, 4), (5, 7)]);
    let words: Vec<(char, bool)> = "שלום עולם".chars().map(|c| (c, true)).collect();
    assert_eq!(rtl_runs(&words), vec![(0, 4), (5, 9)]);
    let pointed: Vec<(char, bool)> = "a\u{05E9}\u{05B8}b".chars().map(|c| (c, true)).collect();
    assert_eq!(rtl_runs(&pointed), vec![(1, 3)]);
}

#[test]
fn a_group_names_the_sender_and_a_chat_does_not() {
    assert_eq!(
        lines("Rust Berlin", true, "Mira", "Save me a seat"),
        ("Rust Berlin".to_owned(), "Mira: Save me a seat".to_owned())
    );
    assert_eq!(
        lines("Ada Lovelace", false, "Ada Lovelace", "Photo"),
        ("Ada Lovelace".to_owned(), "Photo".to_owned())
    );
}

#[test]
fn encodes_a_linking_string() {
    let qr = Qr::encode("2@abcdefghijklmnopqrstuvwxyz,ABCDEFGHIJKLMNOPQRSTUVWXYZ,0123456789,=")
        .expect("encodes");
    assert!(qr.width >= 21);
    assert_eq!(qr.dark.len(), qr.width * qr.width);
    // The finder pattern's corner module is always dark.
    assert!(qr.dark[0]);
}

#[test]
fn a_code_reads_the_same_through_its_accessors() {
    let qr = Qr::encode("hello").expect("encodes");
    assert_eq!(qr.total_width(), qr.width + 8);
    for y in 0..qr.width {
        let runs = qr.dark_runs(y);
        for x in 0..qr.width {
            let in_run = runs.iter().any(|&(start, end)| start <= x && x < end);
            assert_eq!(qr.is_dark(x, y), qr.dark[y * qr.width + x]);
            assert_eq!(in_run, qr.is_dark(x, y), "module {x},{y}");
        }
    }
}

#[test]
fn the_users_key_wins_and_is_trimmed() {
    let settings = Settings {
        giphy_key: "  abc  ".into(),
        ..Settings::default()
    };
    assert_eq!(settings.effective_giphy_key(None).as_deref(), Some("abc"));
    assert_eq!(settings.effective_giphy_key(Some("built-in")).as_deref(), Some("abc"));
}

#[test]
fn without_a_key_of_their_own_the_built_in_one_is_used() {
    let settings = Settings {
        giphy_key: "   ".into(),
        ..Settings::default()
    };
    assert_eq!(settings.effective_giphy_key(None), None);
    assert_eq!(settings.effective_giphy_key(Some("  k3y ")).as_deref(), Some("k3y"));
    assert_eq!(settings.effective_giphy_key(Some("   ")), None);
}

#[test]
fn settings_start_from_sensible_defaults() {
    let settings = Settings::default();
    assert_eq!(settings.theme, ThemeChoice::Dark);
    assert!(settings.enter_sends);
    assert_eq!(f32::from_bits(settings.zoom_bits), 1.0);
    assert_eq!(f32::from_bits(settings.sidebar_width_bits), 320.0);
    assert_eq!(ThemeChoice::System.label(), "Follow system");
}

#[test]
fn only_our_own_show_is_understood() {
    assert_eq!(parse("fastsapp:show\n"), Some(ControlCommand::Show));
    assert_eq!(parse("fastsapp:show"), Some(ControlCommand::Show));
    assert_eq!(parse("GET / HTTP/1.1"), None);
    assert_eq!(parse("fastsapp:frobnicate"), None);
    assert_eq!(parse(""), None);
}

#[test]
fn a_request_is_its_first_line_within_the_limit() {
    assert_eq!(line_of(b"fastsapp:show\nrest").as_deref(), Some("fastsapp:show"));
    assert_eq!(line_of(b"fastsapp:show").as_deref(), Some("fastsapp:show"));
    assert_eq!(line_of(&[0xff, 0xfe, b'\n']), None);
    assert_eq!(line_of(&[b'a'; 256]), None);
    assert_eq!(line_of(&[b'a'; 255]).map(|l| l.len()), Some(255));
}

fn with_reactions(reactions: Vec<Reaction>) -> Message {
    Message {
        id: "m1".into(),
        chat: "a@s.whatsapp.net".into(),
        sender: "a@s.whatsapp.net".into(),
        sender_name: None,
        from_me: false,
        timestamp: 0,
        content: Content::text("hi".into()),
        status: Delivery::NotOurs,
        quoted: None,
        reactions,
        edited: false,
        mentions: Vec::new(),
        forwarded: false,
        thumbnail: None,
    }
}

fn reaction(from_me: bool, emoji: &str) -> Reaction {
    Reaction {
        sender: if from_me { "me" } else { "them" }.into(),
        from_me,
        emoji: emoji.into(),
    }
}

#[test]
fn only_our_own_reaction_counts_as_chosen() {
    let message = with_reactions(vec![reaction(false, "😂"), reaction(true, "❤️")]);
    assert_eq!(own_reaction(&message), Some("❤️"));
    assert_eq!(quick_reactions(&message), quick_reaction_list());
    assert_eq!(
        own_reaction(&with_reactions(vec![reaction(false, "😂")])),
        None
    );
}

#[test]
fn an_unusual_reaction_of_ours_joins_the_quick_row() {
    let message = with_reactions(vec![reaction(true, "🦀")]);
    let quick = quick_reactions(&message);
    assert_eq!(quick.len(), quick_reaction_list().len() + 1);
    assert_eq!(quick.last(), Some(&"🦀"));
}

#[test]
fn delivery_marks_read_like_whatsapp() {
    assert_eq!(status_label(Delivery::NotOurs), "");
    assert_eq!(status_label(Delivery::Pending), "sending");
    assert_eq!(status_label(Delivery::Read), "read");
}

#[test]
fn shortcuts_use_the_mac_keys_on_a_mac() {
    assert_eq!(label("Ctrl+Alt+K", true), "⌘+⌥+K");
    assert_eq!(label("Ctrl+Alt+K", false), "Ctrl+Alt+K");
}

#[test]
fn tray_pixels_move_alpha_first() {
    assert_eq!(argb_pixels(&[1, 2, 3, 4, 5, 6, 7, 8, 9]), vec![4, 1, 2, 3, 8, 5, 6, 7]);
    assert!(argb_pixels(&[1, 2, 3]).is_empty());
}

#[test]
fn samples_get_start_codes_in_place_of_lengths() {
    let mut out = Vec::new();
    avcc_to_annex_b(&mut out, &[0, 0, 0, 2, 0xAA, 0xBB, 0, 0, 0, 1, 0xCC, 0, 0, 0, 9, 1]);
    assert_eq!(out, vec![0, 0, 0, 1, 0xAA, 0xBB, 0, 0, 0, 1, 0xCC]);
    assert!(can_play_video());
}

#[test]
fn files_live_under_the_standard_directories() {
    let dirs = AppDirs::under("/tmp/fastsapp-test");
    let expected = |sub: &str, name: &str| {
        std::path::Path::new("/tmp/fastsapp-test")
            .join(sub)
            .join(name)
            .to_string_lossy()
            .into_owned()
    };
    assert_eq!(dirs.settings_file(), expected("config", "settings.json"));
    assert!(dirs.avatar_file("1@s.whatsapp.net", true).ends_with("1_s_whatsapp_net-full.jpg"));
    assert!(dirs.avatar_file("1@s.whatsapp.net", false).ends_with("1_s_whatsapp_net.jpg"));
}

#[test]
fn a_table_reads_back_what_was_written_last() {
    let mut table: Table<u32> = Table::new();
    assert_eq!(table.get("a"), None);
    table.insert("a".into(), 1);
    table.insert("b".into(), 2);
    table.insert("a".into(), 3);
    assert_eq!(table.get("a"), Some(&3));
    assert_eq!(table.get("b"), Some(&2));
    assert!(table.contains_key("b"));
    assert_eq!(table.remove("b"), Some(2));
    assert_eq!(table.remove("b"), None);
    assert!(!table.contains_key("b"));
    let mut keys = table.keys();
    keys.sort();
    assert_eq!(keys, vec!["a".to_owned()]);
    table.clear();
    assert_eq!(table.get("a"), None);
}

#[test]
fn reactions_gather_into_chips_that_count() {
    let message = with_reactions(vec![
        reaction(false, "😂"),
        reaction(true, "❤️"),
        reaction(false, "😂"),
        reaction(false, "❤️"),
        reaction(false, "🙏"),
    ]);
    assert_eq!(
        reaction_tally(&message),
        vec![
            ("😂".to_owned(), 2, false),
            ("❤️".to_owned(), 2, true),
            ("🙏".to_owned(), 1, false),
        ]
    );
    assert_eq!(reaction_label("😂", 2), "😂 2");
    assert_eq!(reaction_label("🙏", 1), "🙏");
    assert_eq!(reaction_label("👍", 12), "👍 12");
    assert!(reaction_tally(&with_reactions(Vec::new())).is_empty());
}

#[test]
fn picking_our_own_reaction_again_takes_it_back() {
    match reaction_pick("c", "m", "❤️", true) {
        Action::React { chat, message, emoji } => {
            assert_eq!((chat.as_str(), message.as_str(), emoji.as_str()), ("c", "m", ""));
        }
        other => panic!("unexpected {other:?}"),
    }
    match reaction_pick("c", "m", "😂", false) {
        Action::React { emoji, .. } => assert_eq!(emoji, "😂"),
        other => panic!("unexpected {other:?}"),
    }
}

#[test]
fn enter_sends_and_shift_enter_breaks_the_line_unless_swapped() {
    // enter_sends, shift, alt, command, ctrl
    assert!(sends_message(true, false, false, false, false));
    assert!(!sends_message(true, true, false, false, false));
    assert!(!sends_message(true, false, true, false, false));
    assert!(!sends_message(true, false, false, true, false));
    assert!(!sends_message(false, false, false, false, false));
    assert!(sends_message(false, false, false, true, false));
    assert!(!sends_message(false, true, false, true, false));
}

#[test]
fn an_animation_shows_the_frame_for_the_moment_and_loops() {
    let ms = 1_000_000u64;
    let delays = [100 * ms, 50 * ms, 150 * ms];
    assert_eq!(frame_at(&delays, 0), (0, 100 * ms));
    assert_eq!(frame_at(&delays, 120 * ms), (1, 30 * ms));
    assert_eq!(frame_at(&delays, 299 * ms), (2, ms));
    assert_eq!(frame_at(&delays, 420 * ms), (1, 30 * ms));
    // A loop lasts at least 50 ms; past the frames the first shows.
    assert_eq!(frame_at(&[10 * ms], 20 * ms), (0, 40 * ms));
    assert_eq!(frame_at(&[], 5 * ms), (0, 40 * ms));
}

fn cached(path: &str, state: CacheState) -> CachedAnimation {
    CachedAnimation { path: path.into(), state }
}

#[test]
fn idle_animations_go_and_then_the_least_recently_drawn() {
    let second = 1_000_000_000u64;
    let now = 100 * second;
    let mut entries = vec![
        cached("old", CacheState::Ready { frames: 10, last_drawn: 70 * second }),
        cached("a", CacheState::Ready { frames: 200, last_drawn: 90 * second }),
        cached("b", CacheState::Ready { frames: 200, last_drawn: 85 * second }),
        cached("pending", CacheState::Decoding),
        cached("here", CacheState::Ready { frames: 200, last_drawn: 95 * second }),
        cached("broken", CacheState::Failed),
    ];
    prune(&mut entries, "here", now);
    let kept: Vec<&str> = entries.iter().map(|e| e.path.as_str()).collect();
    assert_eq!(kept, vec!["a", "pending", "here", "broken"]);
    // What is drawn stays even over the budget.
    let mut alone = vec![cached("big", CacheState::Ready { frames: 900, last_drawn: now })];
    prune(&mut alone, "big", now);
    assert_eq!(alone.len(), 1);
}

fn media(size: u64, state: MediaState, path: Option<&str>) -> Media {
    Media {
        mime: "image/jpeg".into(),
        size,
        width: None,
        height: None,
        path: path.map(str::to_owned),
        state,
    }
}

#[test]
fn files_up_to_64_mb_are_fetched_on_sight() {
    let small = media(1024, MediaState::Idle, None);
    let large = media(65 * 1024 * 1024, MediaState::Idle, None);
    assert!(fetch_picture(&small, true, true, false, false));
    assert!(!fetch_picture(&large, true, true, false, false));
    assert!(fetch_picture(&large, true, false, false, true));
    assert!(!fetch_picture(&small, false, true, false, false));
    assert!(fetch_picture(&large, false, true, true, false));
    let busy = media(1024, MediaState::Downloading, None);
    assert!(!fetch_picture(&busy, true, true, false, true));
    let failed = media(1024, MediaState::Failed("403".into()), None);
    assert!(!fetch_picture(&failed, true, true, false, false));
    assert!(fetch_attachment(&small, true, true));
    assert!(!fetch_attachment(&large, true, true));
    assert!(!fetch_attachment(&small, true, false));
    assert!(!fetch_attachment(&media(1024, MediaState::Idle, Some("/tmp/x")), true, true));
}

#[test]
fn shortcuts_ask_for_what_their_list_says() {
    assert!(matches!(shortcut_action(ShortcutKey::K), Action::FocusSearch));
    assert!(matches!(shortcut_action(ShortcutKey::F), Action::FocusSearch));
    assert!(matches!(shortcut_action(ShortcutKey::Q), Action::Quit));
    assert!(matches!(shortcut_action(ShortcutKey::W), Action::HideWindow));
    assert!(matches!(shortcut_action(ShortcutKey::Num0), Action::ResetZoom));
    match shortcut_action(ShortcutKey::Plus) {
        Action::ZoomBy(bits) => assert_eq!(f32::from_bits(bits), 0.1),
        other => panic!("unexpected {other:?}"),
    }
    match shortcut_action(ShortcutKey::Minus) {
        Action::ZoomBy(bits) => assert_eq!(f32::from_bits(bits), -0.1),
        other => panic!("unexpected {other:?}"),
    }
}

#[test]
fn a_second_launch_speaks_in_lines() {
    assert_eq!(request("show"), "fastsapp:show\n");
    assert_eq!(reply(), "fastsapp:ok\n");
    assert!(answered_as_us(&reply()));
    assert!(answered_as_us("fastsapp:ok\r\nmore"));
    assert!(!answered_as_us("fastsapp:no\n"));
    assert!(!answered_as_us("nope"));
    assert!(!answered_as_us(""));
}

#[test]
fn the_session_database_lies_outside_the_cache() {
    let dirs = AppDirs::under("/tmp/fastsapp-test");
    assert_eq!(dirs.cache, "/tmp/fastsapp-test/cache");
    let session = dirs.session_db();
    assert_eq!(session, "/tmp/fastsapp-test/state/session.db");
    assert!(!session.starts_with(&dirs.cache));
    assert!(dirs.media_cache_dir().starts_with(&dirs.cache));
}

#[test]
fn attachments_are_described_in_words() {
    assert_eq!(audio_title(true), "Voice message");
    assert_eq!(audio_title(false), "Audio");
    assert_eq!(audio_detail(Some(75), 512), "1:15");
    assert_eq!(audio_detail(None, 2_048), "2.0 KB");
    assert_eq!(document_detail(Some(1), 512), vec!["1 page", "512 B"]);
    assert_eq!(document_detail(Some(12), 512), vec!["12 pages", "512 B"]);
    assert_eq!(document_detail(None, 2_048), vec!["2.0 KB"]);
    let card = "BEGIN:VCARD\r\nVERSION:3.0\r\nFN:Ada\r\nTEL;type=CELL:+39 333 123 4567 \r\nTEL:+1 555\r\nEND:VCARD";
    assert_eq!(vcard_phone(card), "+39 333 123 4567");
    assert_eq!(vcard_phone("FN:Ada\nTEL 12345"), "TEL 12345");
    assert_eq!(vcard_phone("BEGIN:VCARD\nFN:Ada\nEND:VCARD"), "");
}

#[test]
fn a_chat_row_says_who_is_typing_and_who_wrote() {
    assert_eq!(typing_preview(true, &[]), None);
    assert_eq!(typing_preview(true, &["~Ada".to_string(), "Bob".to_string()]), Some("Ada is typing…".to_string()));
    assert_eq!(typing_preview(false, &["Ada".to_string()]), Some("typing…".to_string()));
    assert_eq!(sender_lead("  Ada Lovelace"), "Ada: ");
    assert_eq!(sender_lead("Bob"), "Bob: ");
    assert_eq!(sender_lead("   "), "   : ");
}

#[test]
fn the_finder_corners_are_dark() {
    let qr = Qr::encode("2@abc,def,ghi").expect("fits");
    let w = qr.width;
    assert!(qr.is_dark(0, 0));
    assert!(qr.is_dark(w - 1, 0));
    assert!(qr.is_dark(0, w - 1));
}
