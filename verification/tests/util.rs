use fastsapp::util::{
    bytes, duration, hue, initials, phone, stamp_relative_to, day_label_relative_to, CivilDate,
    LocalTime,
};

fn civil(date: jiff::civil::Date) -> CivilDate {
    CivilDate {
        year: date.year(),
        month: date.month(),
        day: date.day(),
        weekday: date.weekday().to_monday_one_offset(),
    }
}

#[test]
fn initials_take_first_and_last_word() {
    assert_eq!(initials("Ada Lovelace"), "AL");
    assert_eq!(initials("ada"), "A");
    assert_eq!(initials("  "), "#");
    assert_eq!(initials("🎉 Party Planning"), "PP");
}

#[test]
fn phone_numbers_are_grouped() {
    assert_eq!(phone("393331234567"), "+39 333 123 456 7");
    assert_eq!(phone("15551234567"), "+15 551 234 567");
    assert_eq!(phone(""), "");
}

#[test]
fn stamps_fall_back_to_dates() {
    let when = jiff::Timestamp::from_second(1_700_000_000)
        .expect("valid")
        .to_zoned(jiff::tz::TimeZone::UTC);
    let date = when.date();
    let moment = LocalTime {
        date: civil(date),
        hour: when.hour(),
        minute: when.minute(),
    };
    let at = |today: jiff::civil::Date| stamp_relative_to(&civil(date), &civil(today), &moment);
    assert_eq!(at(date), "22:13");
    assert_eq!(at(date.tomorrow().expect("date")), "Yesterday");
    assert_eq!(
        at(date.checked_add(jiff::Span::new().days(3)).expect("date")),
        "Tuesday"
    );
    assert_eq!(
        at(date.checked_add(jiff::Span::new().days(30)).expect("date")),
        "14 Nov 2023"
    );
}

#[test]
fn sizes_and_durations_read_naturally() {
    assert_eq!(bytes(512), "512 B");
    assert_eq!(bytes(2_048), "2.0 KB");
    assert_eq!(bytes(5 * 1024 * 1024), "5.0 MB");
    assert_eq!(duration(75), "1:15");
}

#[test]
fn sizes_round_as_floating_point_formatting_does() {
    for size in [
        0u64,
        999,
        1000,
        1023,
        1024,
        1075,
        1126,
        1536,
        999_999,
        1_023_999,
        1_048_575,
        1_048_576,
        1_572_864,
        1_073_741_823,
        1_073_741_824,
        5_368_709_120,
        1_099_511_627_776,
        (1u64 << 53) + 1,
        (1u64 << 53) + 3,
        u64::MAX,
    ] {
        let units = ["B", "KB", "MB", "GB"];
        let mut value = size as f64;
        let mut unit = 0;
        while value >= 1000.0 && unit < units.len() - 1 {
            value /= 1024.0;
            unit += 1;
        }
        let expected = if unit == 0 {
            format!("{size} B")
        } else {
            format!("{value:.1} {}", units[unit])
        };
        assert_eq!(bytes(size), expected, "size {size}");
    }
}

#[test]
fn durations_pad_the_seconds() {
    assert_eq!(duration(0), "0:00");
    assert_eq!(duration(9), "0:09");
    assert_eq!(duration(3600), "60:00");
}

#[test]
fn hues_are_stable_and_below_a_full_turn() {
    let hash = |seed: &str| {
        let mut hash: u32 = 2_166_136_261;
        for byte in seed.bytes() {
            hash ^= u32::from(byte);
            hash = hash.wrapping_mul(16_777_619);
        }
        hash % 360
    };
    for seed in ["", "Ada", "393331234567@s.whatsapp.net", "🎉"] {
        assert_eq!(hue(seed), hash(seed));
        assert!(hue(seed) < 360);
    }
    assert_eq!(hue(""), 2_166_136_261 % 360);
}

#[test]
fn days_are_labelled_today_yesterday_or_by_date() {
    let date = jiff::civil::date(2023, 11, 14);
    assert_eq!(day_label_relative_to(&civil(date), &civil(date)), "Today");
    assert_eq!(
        day_label_relative_to(&civil(date), &civil(date.tomorrow().expect("date"))),
        "Yesterday"
    );
    assert_eq!(
        day_label_relative_to(
            &civil(date),
            &civil(date.checked_add(jiff::Span::new().days(30)).expect("date"))
        ),
        "Tuesday, 14 November 2023"
    );
}

#[test]
fn initials_are_upper_case_and_skip_hyphens() {
    assert_eq!(initials("jean-luc picard"), "JP");
    assert_eq!(initials("--"), "#");
}

#[test]
fn grouping_a_phone_number_again_changes_nothing() {
    let once = phone("393331234567");
    assert_eq!(phone(&once), once);
    assert_eq!(phone("+39 (333) 123-456-7"), "+39 333 123 456 7");
    assert_eq!(phone("no digits here"), "");
}

#[test]
fn a_leap_day_counts_between_february_and_march() {
    let wednesday = CivilDate { year: 2024, month: 2, day: 28, weekday: 3 };
    let friday = CivilDate { year: 2024, month: 3, day: 1, weekday: 5 };
    assert_eq!(day_label_relative_to(&wednesday, &friday), "Wednesday");
    let a_year_before = CivilDate { year: 2023, month: 2, day: 28, weekday: 2 };
    let then = CivilDate { year: 2023, month: 3, day: 1, weekday: 3 };
    assert_eq!(day_label_relative_to(&a_year_before, &then), "Yesterday");
}

#[test]
fn a_timestamp_falls_on_its_local_day() {
    let seconds = 1_700_000_000i64;
    let local = jiff::Timestamp::from_second(seconds)
        .expect("in range")
        .to_zoned(jiff::tz::TimeZone::system())
        .date();
    assert_eq!(fastsapp::util::day_key(seconds), Some(civil(local)));
    assert_eq!(fastsapp::util::day_key(i64::MAX), None);
}
