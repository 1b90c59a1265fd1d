use fastsapp::emoji::PLACEHOLDER;
use fastsapp::transcript::{annotate, for_clipboard, refine, Row};

fn row(header: &str, body: &str) -> Row {
    Row {
        header: header.to_owned(),
        body: body.to_owned(),
        placements: body
            .chars()
            .filter(|&c| c == PLACEHOLDER)
            .map(|_| "🎉".to_owned())
            .collect(),
        ..Default::default()
    }
}

fn rows() -> Vec<Row> {
    vec![
        row("[22:41, 8/18/2026] Carmine: ", "the analyzer is crazy good"),
        row(
            "[18:21, 8/30/2026] Ada: ",
            "Hello from France!\nSee you soon",
        ),
        row("[18:27, 8/30/2026] Carmine: ", "Sure I'll take a look"),
    ]
}

#[test]
fn a_span_of_messages_gets_a_header_each() {
    let copied = "crazy good\nHello from France!\nSee you soon\nSure";
    assert_eq!(
        annotate(copied, &rows()).as_deref(),
        Some(
            "[22:41, 8/18/2026] Carmine: crazy good\n\
             [18:21, 8/30/2026] Ada: Hello from France!\nSee you soon\n\
             [18:27, 8/30/2026] Carmine: Sure"
        )
    );
    // A blank line between bubbles reads the same.
    let gapped = "good\n\nHello from France!\nSee you soon";
    assert_eq!(
        annotate(gapped, &rows()).as_deref(),
        Some(
            "[22:41, 8/18/2026] Carmine: good\n\
             [18:21, 8/30/2026] Ada: Hello from France!\nSee you soon"
        )
    );
}

#[test]
fn within_one_message_nothing_changes() {
    assert_eq!(annotate("analyzer is crazy", &rows()), None);
    assert_eq!(annotate("the analyzer is crazy good", &rows()), None);
    assert_eq!(annotate("something else entirely", &rows()), None);
    assert_eq!(annotate("", &rows()), None);
    assert_eq!(annotate("anything", &[]), None);
}

#[test]
fn emoji_come_back_out_of_their_placeholders() {
    let placeholder = PLACEHOLDER;
    let rows = vec![Row {
        header: "[9:00, 1/2/2026] Ada: ".to_owned(),
        body: format!("well {placeholder} done {placeholder}"),
        placements: vec!["🎂".to_owned(), "🎈".to_owned()],
        ..Default::default()
    }];
    // Within the one message: emoji restored, no header.
    assert_eq!(
        refine(&format!("{placeholder} done {placeholder}"), &rows).as_deref(),
        Some("🎂 done 🎈")
    );
    assert_eq!(
        refine(&format!("done {placeholder}"), &rows).as_deref(),
        Some("done 🎈"),
        "the offset counts placeholders before the selection"
    );
    assert_eq!(refine("well", &rows), None, "nothing to do");
    // Across messages the headers carry restored bodies too.
    let mut both = rows.clone();
    both.push(Row {
        header: "[9:01, 1/2/2026] Ada: ".to_owned(),
        body: "and again".to_owned(),
        placements: Vec::new(),
        ..Default::default()
    });
    assert_eq!(
        refine(&format!("done {placeholder}\nand again"), &both).as_deref(),
        Some("[9:00, 1/2/2026] Ada: done 🎈\n[9:01, 1/2/2026] Ada: and again")
    );
}

#[test]
fn a_swept_over_picture_is_named_and_an_unknown_stays_silent() {
    let mut photo = row("[9:01, 1/2/2026] Ada: ", "");
    photo.marker = Some("[photo]".to_owned());
    let with_gap = vec![
        row("[9:00, 1/2/2026] Ada: ", "before the picture"),
        photo,
        row("[9:02, 1/2/2026] Ada: ", "after the picture"),
    ];
    let copied = "the picture\n\nafter the picture";
    assert_eq!(
        annotate(copied, &with_gap).as_deref(),
        Some(
            "[9:00, 1/2/2026] Ada: the picture\n[9:01, 1/2/2026] Ada: [photo]\n[9:02, 1/2/2026] Ada: after the picture"
        )
    );
    let silent = vec![
        row("[9:00, 1/2/2026] Ada: ", "before the picture"),
        row("[9:01, 1/2/2026] Ada: ", ""),
        row("[9:02, 1/2/2026] Ada: ", "after the picture"),
    ];
    assert_eq!(
        annotate(copied, &silent).as_deref(),
        Some("[9:00, 1/2/2026] Ada: the picture\n[9:02, 1/2/2026] Ada: after the picture")
    );
}

#[test]
fn reactions_quotes_and_kinds_ride_along() {
    let mut first = row("[9:00, 1/2/2026] Ada: ", "look at this");
    first.marker = Some("[photo]".to_owned());
    first.reactions = " (❤️ You)".to_owned();
    let mut second = row("[9:05, 1/2/2026] You: ", "lovely");
    second.quote = Some("(replying to Ada: \"look at this\")".to_owned());
    let copied = "at this\nlovely";
    assert_eq!(
        annotate(copied, &[first, second]).as_deref(),
        Some(
            "[9:00, 1/2/2026] Ada: [photo] at this (❤️ You)\n[9:05, 1/2/2026] You: (replying to Ada: \"look at this\") lovely"
        )
    );
}

#[test]
fn a_line_without_placeholders_is_written_as_it_is() {
    let plain = row("[9:00, 1/2/2026] Ada: ", "no pictures here");
    assert_eq!(plain.line("no pictures here"), "[9:00, 1/2/2026] Ada: no pictures here");
    assert_eq!(plain.restored(0, "no pictures"), "no pictures");
}

#[test]
fn plain_text_reads_the_same_once_emoji_are_restored() {
    let party = row("[9:00, 1/2/2026] Ada: ", &format!("well {PLACEHOLDER} done"));
    assert_eq!(party.restored(0, "well"), "well");
    assert_eq!(party.restored(6, " done"), " done");
    assert_eq!(party.restored(5, &format!("{PLACEHOLDER} done")), "🎉 done");
    assert_eq!(refine("is crazy", &rows()), None);
    assert_eq!(refine("Hello from", &rows()), None);
}

#[test]
fn the_clipboard_gets_the_refined_copy_or_the_copy() {
    assert_eq!(for_clipboard("is crazy", &rows()), "is crazy");
    assert_eq!(
        for_clipboard("good\nHello from France!\nSee you soon", &rows()),
        "[22:41, 8/18/2026] Carmine: good\n[18:21, 8/30/2026] Ada: Hello from France!\nSee you soon"
    );
    assert_eq!(for_clipboard("anything", &[]), "anything");
}
