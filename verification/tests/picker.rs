use fastsapp::ui::picker::{emoji_catalog, picker_rows, PickerRow};

fn headers(rows: &[PickerRow]) -> Vec<&str> {
    rows.iter()
        .filter_map(|row| match row {
            PickerRow::Header(text) => Some(text.as_str()),
            PickerRow::Emoji(_) => None,
        })
        .collect()
}

#[test]
fn without_a_search_the_groups_follow_the_recent_emoji() {
    let catalog = emoji_catalog();
    assert!(catalog.len() > 1000);
    let recent = vec!["🚀".to_owned(), "not an emoji".to_owned()];
    let rows = picker_rows(&catalog, "  ", &recent, 5);
    assert_eq!(rows[0], PickerRow::Header("Recent".into()));
    assert_eq!(rows[1], PickerRow::Emoji(vec!["🚀".to_owned()]));
    assert_eq!(rows[2], PickerRow::Header("Smileys & Emotion".into()));
    assert_eq!(
        rows[3],
        PickerRow::Emoji(["😀", "😃", "😄", "😁", "😆"].map(str::to_owned).to_vec())
    );
    assert_eq!(
        headers(&rows),
        vec![
            "Recent",
            "Smileys & Emotion",
            "People & Body",
            "Animals & Nature",
            "Food & Drink",
            "Travel & Places",
            "Activities",
            "Objects",
            "Symbols",
            "Flags",
        ]
    );
    let flags = rows
        .iter()
        .position(|row| *row == PickerRow::Header("Flags".into()))
        .expect("a flags header");
    assert_eq!(
        rows[flags + 1],
        PickerRow::Emoji(["🏁", "🚩", "🎌", "🏴", "🏳️"].map(str::to_owned).to_vec())
    );
    // Rows hold at most the number of columns asked for.
    assert!(rows.iter().all(|row| match row {
        PickerRow::Emoji(list) => !list.is_empty() && list.len() <= 5,
        PickerRow::Header(_) => true,
    }));
}

#[test]
fn a_search_finds_names_and_shortcodes_whatever_the_case() {
    let catalog = emoji_catalog();
    let rows = picker_rows(&catalog, " ROCKET ", &[], 8);
    let found: Vec<&String> = rows
        .iter()
        .flat_map(|row| match row {
            PickerRow::Emoji(list) => list.iter().collect::<Vec<_>>(),
            PickerRow::Header(_) => Vec::new(),
        })
        .collect();
    assert!(found.iter().any(|emoji| emoji.as_str() == "🚀"));
    assert!(headers(&rows).is_empty());
    let by_code = picker_rows(&catalog, "satisfied", &[], 8);
    assert!(matches!(&by_code[0], PickerRow::Emoji(list) if list.iter().any(|e| e == "😆")));
    assert_eq!(
        picker_rows(&catalog, "qqqzzzxx", &[], 8),
        vec![PickerRow::Header("Nothing matches".into())]
    );
}
