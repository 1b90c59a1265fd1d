use fastsapp::emoji::{append, is_emoji, only_emoji, pieces, Piece, PLACEHOLDER};

fn text(s: &str) -> Piece {
    Piece::Text(s.to_owned())
}

fn emoji(s: &str) -> Piece {
    Piece::Emoji(s.to_owned())
}

#[test]
fn pieces_split_emoji_out_of_text() {
    assert_eq!(
        pieces("hi 😀 there"),
        vec![text("hi "), emoji("😀"), text(" there")]
    );
    assert_eq!(pieces("plain"), vec![text("plain")]);
    // A flag is two regional indicators; a family is joined with ZWJ.
    assert_eq!(pieces("🇩🇪"), vec![emoji("🇩🇪")]);
    assert_eq!(pieces("👨‍👩‍👧"), vec![emoji("👨‍👩‍👧")]);
    assert_eq!(pieces("👍🏽!"), vec![emoji("👍🏽"), text("!")]);
}

#[test]
fn presentation_follows_unicode() {
    assert!(is_emoji("❤️"));
    assert!(!is_emoji("❤"));
    assert!(is_emoji("⭐"));
    assert!(is_emoji("1️⃣"));
    assert!(!is_emoji("1"));
    assert!(!is_emoji("©"));
    assert!(is_emoji("©️"));
    assert!(!is_emoji("a"));
}

#[test]
fn emoji_only_messages_are_counted() {
    assert_eq!(only_emoji("😂"), Some(1));
    assert_eq!(only_emoji("😂 🙏"), Some(2));
    assert_eq!(only_emoji("ok 😂"), None);
    assert_eq!(only_emoji(""), None);
}

#[test]
fn joiners_in_ordinary_words_are_not_emoji() {
    // Sinhala "Sri", Bengali "rya", Malayalam chillu: all carry a ZWJ.
    for word in [
        "\u{0DC1}\u{0DCA}\u{200D}\u{0DBB}\u{0DD3}",
        "\u{09B0}\u{200D}\u{09CD}\u{09AF}",
        "\u{0D28}\u{0D4D}\u{200D}",
    ] {
        assert!(!is_emoji(word), "{word:?} is text");
        assert_eq!(only_emoji(word), None);
    }
}

#[test]
fn sequences_that_ask_to_be_pictures_still_are() {
    for picture in [
        "\u{2764}\u{FE0F}",                    // red heart
        "\u{1F3F3}\u{FE0F}\u{200D}\u{1F308}",  // rainbow flag
        "\u{1F9D1}\u{1F3FD}\u{200D}\u{1F4BB}", // technologist, medium skin
        "\u{23}\u{FE0F}\u{20E3}",              // keycap #
        "\u{1F1EE}\u{1F1F9}",                  // flag of Italy
        "\u{A9}\u{FE0F}",                      // copyright as emoji
    ] {
        assert!(is_emoji(picture), "{picture:?} is a picture");
    }
    assert!(!is_emoji("\u{A9}"), "a bare copyright sign is text");
    assert!(!is_emoji("a"));
}

#[test]
fn pieces_put_back_together_give_the_text() {
    let source = "mixed 🎉 text 👍🏽 with 🇮🇹 and a keycap 1️⃣.";
    let joined: String = pieces(source)
        .into_iter()
        .map(|piece| match piece {
            Piece::Text(t) => t,
            Piece::Emoji(e) => e,
        })
        .collect();
    assert_eq!(joined, source);
}

#[test]
fn blank_text_is_no_picture_message_and_runs_of_pictures_are_counted() {
    assert_eq!(only_emoji("   "), None);
    assert_eq!(only_emoji("🎉🎉🎉"), Some(3));
}

#[test]
fn placeholders_line_up_with_placements() {
    let mut text = String::new();
    let mut placements = Vec::new();
    let n = append(&mut text, &mut placements, "a 😀 b", true);
    assert_eq!(placements, vec!["😀".to_owned()]);
    assert_eq!(text.matches(PLACEHOLDER).count(), 1);
    assert_eq!(n, 5);
    let mut plain = String::new();
    let mut none = Vec::new();
    let n = append(&mut plain, &mut none, "a 😀 b", false);
    assert!(none.is_empty());
    assert_eq!(plain, "a 😀 b");
    assert_eq!(n, 5);
}

#[test]
fn appending_goes_after_what_is_there() {
    let mut text = "x".to_owned();
    let mut placements = vec!["🎉".to_owned()];
    let n = append(&mut text, &mut placements, "👍🏽 and 👨\u{200d}👩\u{200d}👧", true);
    assert_eq!(text, format!("x{PLACEHOLDER} and {PLACEHOLDER}"));
    assert_eq!(placements, vec!["🎉", "👍🏽", "👨\u{200d}👩\u{200d}👧"]);
    assert_eq!(n, 7);
}

#[test]
fn pieces_laid_end_to_end_are_the_text() {
    for sample in ["hi 😀 there", "👨\u{200d}👩\u{200d}👧 and 👍🏽!", "plain", "", "1️⃣ ©"] {
        let joined: String = pieces(sample)
            .into_iter()
            .map(|piece| match piece {
                Piece::Text(run) | Piece::Emoji(run) => run,
            })
            .collect();
        assert_eq!(joined, sample);
    }
}

#[test]
fn adjacent_emoji_are_separate_pieces_and_runs_never_touch() {
    let split = pieces("a😀😀b c");
    assert_eq!(split, vec![text("a"), emoji("😀"), emoji("😀"), text("b c")]);
    for pair in split.windows(2) {
        assert!(!matches!((&pair[0], &pair[1]), (Piece::Text(_), Piece::Text(_))));
    }
    for piece in &split {
        match piece {
            Piece::Text(t) | Piece::Emoji(t) => assert!(!t.is_empty()),
        }
    }
}
