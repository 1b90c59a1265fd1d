//! The emoji picker's rows: what a search finds, or the recent emoji and
//! then each group under its header, laid out a given number to a row.

use vstd::prelude::*;

use crate::text::{chars_of, contains_chars, contains_text, lowercase, to_lowercase, trim_chars, trimmed};

verus! {

/// One emoji of the catalog: the emoji, its CLDR name, its GitHub
/// shortcodes, and the number of its group (0 for Smileys & Emotion up to
/// 8 for Flags).
#[derive(Clone, Debug)]
pub struct CatalogEntry {
    pub emoji: String,
    pub name: String,
    pub shortcodes: Vec<String>,
    pub group: usize,
}

/// An entry by its characters.
pub open spec fn entry_view(e: CatalogEntry) -> (Seq<char>, Seq<char>, Seq<Seq<char>>, nat) {
    (e.emoji@, e.name@, e.shortcodes@.map_values(|s: String| s@), e.group as nat)
}

/// The catalog by its characters.
pub open spec fn catalog_view(catalog: Seq<CatalogEntry>) -> Seq<(Seq<char>, Seq<char>, Seq<Seq<char>>, nat)> {
    catalog.map_values(|e: CatalogEntry| entry_view(e))
}

/// The `index`-th emoji `emojis::iter()` yields: the emoji, its name, its
/// shortcodes, and its group's number.
pub uninterp spec fn catalog_at(index: nat) -> Option<(Seq<char>, Seq<char>, Seq<Seq<char>>, nat)>;

/// What `emojis::get` finds for a text, as the emoji it stands for.
pub uninterp spec fn emoji_lookup(text: Seq<char>) -> Option<Seq<char>>;

/// `emojis::iter().nth(index)`, read out as plain values: the entry is
/// the one named for the index, and its group is one of the nine.
#[verifier::external_body]
fn catalog_entry(index: usize) -> (r: Option<CatalogEntry>)
    ensures
        r matches Some(e) ==> catalog_at(index as nat) == Some(entry_view(e)) && e.group < 9,
        r is None ==> catalog_at(index as nat) is None,
{
    let e = emojis::iter().nth(index)?;
    let group = match e.group() {
        emojis::Group::SmileysAndEmotion => 0,
        emojis::Group::PeopleAndBody => 1,
        emojis::Group::AnimalsAndNature => 2,
        emojis::Group::FoodAndDrink => 3,
        emojis::Group::TravelAndPlaces => 4,
        emojis::Group::Activities => 5,
        emojis::Group::Objects => 6,
        emojis::Group::Symbols => 7,
        emojis::Group::Flags => 8,
    };
    let shortcodes = e.shortcodes().map(str::to_owned).collect();
    Some(CatalogEntry { emoji: e.as_str().to_owned(), name: e.name().to_owned(), shortcodes, group })
}

/// `emojis::get(text)`, as the emoji found: the one named for the text.
#[verifier::external_body]
fn lookup(text: &str) -> (r: Option<String>)
    ensures
        r matches Some(e) ==> emoji_lookup(text@) == Some(e@),
        r is None ==> emoji_lookup(text@) is None,
{
    emojis::get(text).map(|emoji| emoji.as_str().to_owned())
}

/// The catalog read whole: every entry up to the first index that has
/// none.
pub fn emoji_catalog() -> (r: Vec<CatalogEntry>)
    ensures
        forall|i: int| 0 <= i < r@.len() ==> catalog_at(i as nat) == Some(entry_view(#[trigger] r@[i])),
        forall|i: int| 0 <= i < r@.len() ==> (#[trigger] r@[i]).group < 9,
        catalog_at(r@.len()) is None || r@.len() == usize::MAX,
{
    let mut out: Vec<CatalogEntry> = Vec::new();
    let mut i: usize = 0;
    while i < usize::MAX
        invariant
            out@.len() == i,
            forall|k: int| 0 <= k < i ==> catalog_at(k as nat) == Some(entry_view(#[trigger] out@[k])),
            forall|k: int| 0 <= k < i ==> (#[trigger] out@[k]).group < 9,
        decreases usize::MAX - i,
    {
        match catalog_entry(i) {
            Some(entry) => {
                out.push(entry);
                i = i + 1;
            },
            None => {
                return out;
            },
        }
    }
    out
}

/// One row of the picker: a header, or emoji side by side.
#[derive(Clone, Debug, PartialEq)]
pub enum PickerRow {
    Header(String),
    Emoji(Vec<String>),
}

/// A row by its characters: a header's text, or the emoji of a row.
pub open spec fn row_view(row: PickerRow) -> (Option<Seq<char>>, Seq<Seq<char>>) {
    match row {
        PickerRow::Header(text) => (Some(text@), Seq::empty()),
        PickerRow::Emoji(list) => (None, list@.map_values(|s: String| s@)),
    }
}

pub open spec fn rows_view(rows: Seq<PickerRow>) -> Seq<(Option<Seq<char>>, Seq<Seq<char>>)> {
    rows.map_values(|row: PickerRow| row_view(row))
}

/// A list cut into rows of `columns`, the last one shorter if need be.
pub open spec fn chunked(list: Seq<Seq<char>>, columns: nat) -> Seq<(Option<Seq<char>>, Seq<Seq<char>>)>
    decreases list.len(),
{
    if list.len() == 0 || columns == 0 {
        Seq::empty()
    } else if list.len() <= columns {
        seq![(None, list)]
    } else {
        seq![(None, list.take(columns as int))] + chunked(list.skip(columns as int), columns)
    }
}

/// The header of each group.
pub open spec fn group_title(group: nat) -> Seq<char> {
    if group == 0 {
        "Smileys & Emotion"@
    } else if group == 1 {
        "People & Body"@
    } else if group == 2 {
        "Animals & Nature"@
    } else if group == 3 {
        "Food & Drink"@
    } else if group == 4 {
        "Travel & Places"@
    } else if group == 5 {
        "Activities"@
    } else if group == 6 {
        "Objects"@
    } else if group == 7 {
        "Symbols"@
    } else {
        "Flags"@
    }
}

/// Whether an entry answers a search: its name or one of its shortcodes,
/// lowered, holds the query.
pub open spec fn answers(e: (Seq<char>, Seq<char>, Seq<Seq<char>>, nat), query: Seq<char>) -> bool {
    contains_text(lowercase(e.1), query) || exists|k: int|
        0 <= k < e.2.len() && contains_text(lowercase(#[trigger] e.2[k]), query)
}

/// The emoji of the catalog that answer a search, in catalog order.
pub open spec fn found(catalog: Seq<(Seq<char>, Seq<char>, Seq<Seq<char>>, nat)>, query: Seq<char>) -> Seq<Seq<char>>
    decreases catalog.len(),
{
    if catalog.len() == 0 {
        Seq::empty()
    } else {
        found(catalog.drop_last(), query) + if answers(catalog.last(), query) {
            seq![catalog.last().0]
        } else {
            Seq::empty()
        }
    }
}

/// A group's emoji as `Group::emojis` yields them: the first unbroken run
/// of the group's entries in the catalog. `started` says whether the run
/// began before `catalog`.
pub open spec fn group_run(catalog: Seq<(Seq<char>, Seq<char>, Seq<Seq<char>>, nat)>, group: nat, started: bool) -> Seq<Seq<char>>
    decreases catalog.len(),
{
    if catalog.len() == 0 {
        Seq::empty()
    } else if catalog[0].3 == group {
        seq![catalog[0].0] + group_run(catalog.drop_first(), group, true)
    } else if started {
        Seq::empty()
    } else {
        group_run(catalog.drop_first(), group, false)
    }
}

/// The recent emoji that are in the catalog, as the catalog writes them.
pub open spec fn known_recent(recent: Seq<Seq<char>>) -> Seq<Seq<char>>
    decreases recent.len(),
{
    if recent.len() == 0 {
        Seq::empty()
    } else {
        known_recent(recent.drop_last()) + match emoji_lookup(recent.last()) {
            Some(e) => seq![e],
            None => Seq::empty(),
        }
    }
}

/// The groups from the `group`-th on, each under its header.
pub open spec fn group_rows(catalog: Seq<(Seq<char>, Seq<char>, Seq<Seq<char>>, nat)>, group: nat, columns: nat) -> Seq<(Option<Seq<char>>, Seq<Seq<char>>)>
    decreases 9 - group,
{
    if group >= 9 {
        Seq::empty()
    } else {
        seq![(Some(group_title(group)), Seq::<Seq<char>>::empty())] + chunked(
            group_run(catalog, group, false),
            columns,
        ) + group_rows(catalog, group + 1, columns)
    }
}

/// The picker's rows: for a search (trimmed, lowered), what answers it or
/// "Nothing matches"; without one, the recent emoji under "Recent" when
/// there are any, then every group under its header.
pub open spec fn picker_rows_of(
    catalog: Seq<(Seq<char>, Seq<char>, Seq<Seq<char>>, nat)>,
    search: Seq<char>,
    recent: Seq<Seq<char>>,
    columns: nat,
) -> Seq<(Option<Seq<char>>, Seq<Seq<char>>)> {
    let query = lowercase(trimmed(search));
    if query.len() > 0 {
        let hits = found(catalog, query);
        if hits.len() == 0 {
            seq![(Some("Nothing matches"@), Seq::<Seq<char>>::empty())]
        } else {
            chunked(hits, columns)
        }
    } else {
        (if recent.len() > 0 {
            seq![(Some("Recent"@), Seq::<Seq<char>>::empty())] + chunked(known_recent(recent), columns)
        } else {
            Seq::empty()
        }) + group_rows(catalog, 0, columns)
    }
}

fn group_title_of(group: usize) -> (r: String)
    ensures
        r@ == group_title(group as nat),
{
    if group == 0 {
        String::from_str("Smileys & Emotion")
    } else if group == 1 {
        String::from_str("People & Body")
    } else if group == 2 {
        String::from_str("Animals & Nature")
    } else if group == 3 {
        String::from_str("Food & Drink")
    } else if group == 4 {
        String::from_str("Travel & Places")
    } else if group == 5 {
        String::from_str("Activities")
    } else if group == 6 {
        String::from_str("Objects")
    } else if group == 7 {
        String::from_str("Symbols")
    } else {
        String::from_str("Flags")
    }
}

fn push_row(rows: &mut Vec<PickerRow>, row: PickerRow)
    ensures
        rows_view(final(rows)@) == rows_view(old(rows)@).push(row_view(row)),
{
    rows.push(row);
    assert(rows_view(rows@) =~= rows_view(old(rows)@).push(row_view(row)));
}

/// Appends `list` cut into rows of `columns`.
fn push_chunks(rows: &mut Vec<PickerRow>, list: &Vec<String>, columns: usize)
    requires
        columns > 0,
    ensures
        rows_view(final(rows)@) == rows_view(old(rows)@) + chunked(
            list@.map_values(|s: String| s@),
            columns as nat,
        ),
{
    let ghost all = list@.map_values(|s: String| s@);
    let mut at: usize = 0;
    assert(all.skip(0) =~= all);
    assert(rows_view(rows@) + chunked(all.skip(0), columns as nat) =~= rows_view(old(rows)@)
        + chunked(all, columns as nat));
    while at < list.len()
        invariant
            columns > 0,
            at <= list@.len(),
            all == list@.map_values(|s: String| s@),
            rows_view(rows@) + chunked(all.skip(at as int), columns as nat) == rows_view(old(rows)@)
                + chunked(all, columns as nat),
        decreases list@.len() - at,
    {
        let ghost rest = all.skip(at as int);
        let end = if list.len() - at <= columns {
            list.len()
        } else {
            at + columns
        };
        let mut part: Vec<String> = Vec::new();
        let mut j = at;
        while j < end
            invariant
                at <= j <= end <= list@.len(),
                part@.map_values(|s: String| s@) == all.subrange(at as int, j as int),
                all == list@.map_values(|s: String| s@),
            decreases end - j,
        {
            let ghost before = part@;
            part.push(list[j].clone());
            assert(part@ =~= before.push(list@[j as int]));
            assert(all[j as int] == list@[j as int]@);
            assert(all.subrange(at as int, j + 1) =~= all.subrange(at as int, j as int).push(
                all[j as int],
            ));
            assert(part@.map_values(|s: String| s@) =~= all.subrange(at as int, j + 1));
            j = j + 1;
        }
        let ghost before = rows_view(rows@);
        push_row(rows, PickerRow::Emoji(part));
        if end == list.len() {
            assert(rest.len() <= columns);
            assert(all.subrange(at as int, end as int) =~= rest);
            assert(all.skip(end as int) =~= Seq::<Seq<char>>::empty());
            assert(chunked(rest, columns as nat) =~= seq![(None::<Seq<char>>, rest)]);
            assert(rows_view(rows@) + chunked(all.skip(end as int), columns as nat) =~= before
                + chunked(rest, columns as nat));
        } else {
            assert(rest.len() > columns);
            assert(all.subrange(at as int, end as int) =~= rest.take(columns as int));
            assert(rest.skip(columns as int) =~= all.skip(end as int));
            assert(rows_view(rows@) + chunked(all.skip(end as int), columns as nat) =~= before
                + chunked(rest, columns as nat));
        }
        at = end;
    }
    assert(all.skip(at as int) =~= Seq::<Seq<char>>::empty());
    assert(rows_view(rows@) + Seq::<(Option<Seq<char>>, Seq<Seq<char>>)>::empty() =~= rows_view(rows@));
}

/// Whether a text, lowered, holds the query.
fn holds_lowered(text: &str, query: &[char]) -> (r: bool)
    ensures
        r == contains_text(lowercase(text@), query@),
{
    let lowered = to_lowercase(text);
    let chars = chars_of(lowered.as_str());
    contains_chars(chars.as_slice(), query)
}

/// Whether an entry answers a search.
fn entry_answers(entry: &CatalogEntry, query: &[char]) -> (r: bool)
    ensures
        r == answers(entry_view(*entry), query@),
{
    if holds_lowered(entry.name.as_str(), query) {
        return true;
    }
    let ghost codes = entry.shortcodes@.map_values(|s: String| s@);
    let mut k: usize = 0;
    while k < entry.shortcodes.len()
        invariant
            k <= entry.shortcodes@.len(),
            codes == entry.shortcodes@.map_values(|s: String| s@),
            !contains_text(lowercase(entry.name@), query@),
            codes == entry_view(*entry).2,
            forall|m: int| 0 <= m < k ==> !contains_text(lowercase(#[trigger] codes[m]), query@),
        decreases entry.shortcodes@.len() - k,
    {
        if holds_lowered(entry.shortcodes[k].as_str(), query) {
            assert(entry_view(*entry).2[k as int] == codes[k as int]);
            assert(contains_text(lowercase(entry_view(*entry).2[k as int]), query@));
            return true;
        }
        k = k + 1;
    }
    false
}

/// The emoji of the catalog that answer a search.
fn search_catalog(catalog: &[CatalogEntry], query: &[char]) -> (r: Vec<String>)
    ensures
        r@.map_values(|s: String| s@) == found(catalog_view(catalog@), query@),
{
    let ghost view = catalog_view(catalog@);
    let mut out: Vec<String> = Vec::new();
    let mut i: usize = 0;
    while i < catalog.len()
        invariant
            i <= catalog@.len(),
            view == catalog_view(catalog@),
            out@.map_values(|s: String| s@) == found(view.take(i as int), query@),
        decreases catalog@.len() - i,
    {
        assert(view.take(i + 1).drop_last() =~= view.take(i as int));
        assert(view.take(i + 1).last() == entry_view(catalog@[i as int]));
        if entry_answers(&catalog[i], query) {
            out.push(catalog[i].emoji.clone());
        }
        assert(out@.map_values(|s: String| s@) =~= found(view.take(i + 1), query@));
        i = i + 1;
    }
    assert(view.take(i as int) =~= view);
    out
}

/// A group's emoji as `Group::emojis` yields them.
fn group_emoji(catalog: &[CatalogEntry], group: usize) -> (r: Vec<String>)
    ensures
        r@.map_values(|s: String| s@) == group_run(catalog_view(catalog@), group as nat, false),
{
    let ghost view = catalog_view(catalog@);
    let mut out: Vec<String> = Vec::new();
    let mut started = false;
    let mut i: usize = 0;
    assert(view.skip(0) =~= view);
    while i < catalog.len()
        invariant
            i <= catalog@.len(),
            view == catalog_view(catalog@),
            out@.map_values(|s: String| s@) + group_run(view.skip(i as int), group as nat, started)
                == group_run(view, group as nat, false),
        decreases catalog@.len() - i,
    {
        let ghost rest = view.skip(i as int);
        assert(rest[0] == entry_view(catalog@[i as int]));
        assert(rest.drop_first() =~= view.skip(i + 1));
        if catalog[i].group == group {
            let ghost before = out@.map_values(|s: String| s@);
            out.push(catalog[i].emoji.clone());
            assert(out@.map_values(|s: String| s@) =~= before.push(catalog@[i as int].emoji@));
            assert(before + group_run(rest, group as nat, started) =~= out@.map_values(
                |s: String| s@,
            ) + group_run(view.skip(i + 1), group as nat, true));
            started = true;
        } else if started {
            assert(group_run(rest, group as nat, started) =~= Seq::<Seq<char>>::empty());
            assert(out@.map_values(|s: String| s@) + Seq::<Seq<char>>::empty() =~= out@.map_values(
                |s: String| s@,
            ));
            return out;
        }
        i = i + 1;
    }
    assert(group_run(view.skip(i as int), group as nat, started) =~= Seq::<Seq<char>>::empty());
    assert(out@.map_values(|s: String| s@) + Seq::<Seq<char>>::empty() =~= out@.map_values(
        |s: String| s@,
    ));
    out
}

/// The recent emoji that are in the catalog, as the catalog writes them.
fn recent_in_catalog(recent: &[String]) -> (r: Vec<String>)
    ensures
        r@.map_values(|s: String| s@) == known_recent(recent@.map_values(|s: String| s@)),
{
    let ghost all = recent@.map_values(|s: String| s@);
    let mut out: Vec<String> = Vec::new();
    let mut i: usize = 0;
    while i < recent.len()
        invariant
            i <= recent@.len(),
            all == recent@.map_values(|s: String| s@),
            out@.map_values(|s: String| s@) == known_recent(all.take(i as int)),
        decreases recent@.len() - i,
    {
        assert(all.take(i + 1).drop_last() =~= all.take(i as int));
        assert(all.take(i + 1).last() == recent@[i as int]@);
        match lookup(recent[i].as_str()) {
            Some(emoji) => {
                out.push(emoji);
            },
            None => {},
        }
        assert(out@.map_values(|s: String| s@) =~= known_recent(all.take(i + 1)));
        i = i + 1;
    }
    assert(all.take(i as int) =~= all);
    out
}

/// The picker's rows for a search, the recent emoji, and the number of
/// emoji a row holds.
pub fn picker_rows(catalog: &[CatalogEntry], search: &str, recent: &[String], columns: usize) -> (r: Vec<PickerRow>)
    requires
        columns > 0,
    ensures
        rows_view(r@) == picker_rows_of(
            catalog_view(catalog@),
            search@,
            recent@.map_values(|s: String| s@),
            columns as nat,
        ),
{
    let search_chars = chars_of(search);
    let trimmed_chars = trim_chars(search_chars.as_slice());
    let trimmed_text = crate::text::from_chars(trimmed_chars.as_slice());
    let lowered = to_lowercase(trimmed_text.as_str());
    let query = chars_of(lowered.as_str());
    let ghost view = catalog_view(catalog@);
    let mut rows: Vec<PickerRow> = Vec::new();
    if query.len() > 0 {
        let hits = search_catalog(catalog, query.as_slice());
        if hits.len() == 0 {
            push_row(&mut rows, PickerRow::Header(String::from_str("Nothing matches")));
            assert(rows_view(rows@) =~= seq![(Some("Nothing matches"@), Seq::<Seq<char>>::empty())]);
        } else {
            push_chunks(&mut rows, &hits, columns);
            assert(rows_view(rows@) =~= chunked(found(view, query@), columns as nat));
        }
        return rows;
    }
    if recent.len() > 0 {
        push_row(&mut rows, PickerRow::Header(String::from_str("Recent")));
        let known = recent_in_catalog(recent);
        push_chunks(&mut rows, &known, columns);
    }
    let ghost head = rows_view(rows@);
    assert(head == if recent@.len() > 0 {
        seq![(Some("Recent"@), Seq::<Seq<char>>::empty())] + chunked(
            known_recent(recent@.map_values(|s: String| s@)),
            columns as nat,
        )
    } else {
        Seq::<(Option<Seq<char>>, Seq<Seq<char>>)>::empty()
    });
    let mut group: usize = 0;
    assert(head + group_rows(view, 0, columns as nat) =~= head + group_rows(view, 0, columns as nat));
    while group < 9
        invariant
            group <= 9,
            columns > 0,
            view == catalog_view(catalog@),
            rows_view(rows@) + group_rows(view, group as nat, columns as nat) == head + group_rows(
                view,
                0,
                columns as nat,
            ),
        decreases 9 - group,
    {
        let ghost before = rows_view(rows@);
        push_row(&mut rows, PickerRow::Header(group_title_of(group)));
        let members = group_emoji(catalog, group);
        push_chunks(&mut rows, &members, columns);
        assert(rows_view(rows@) + group_rows(view, (group + 1) as nat, columns as nat) =~= before
            + group_rows(view, group as nat, columns as nat));
        group = group + 1;
    }
    assert(group_rows(view, 9, columns as nat) =~= Seq::<(Option<Seq<char>>, Seq<Seq<char>>)>::empty());
    assert(rows_view(rows@) + Seq::<(Option<Seq<char>>, Seq<Seq<char>>)>::empty() =~= rows_view(rows@));
    rows
}

/// The emoji of rows laid end to end.
pub open spec fn row_emoji(rows: Seq<(Option<Seq<char>>, Seq<Seq<char>>)>) -> Seq<Seq<char>>
    decreases rows.len(),
{
    if rows.len() == 0 {
        Seq::empty()
    } else {
        rows[0].1 + row_emoji(rows.drop_first())
    }
}

/// Cutting a list into rows keeps every emoji, in order, and no row is
/// empty or holds more than `columns`.
pub proof fn rows_keep_every_emoji_within_the_columns(list: Seq<Seq<char>>, columns: nat)
    requires
        columns > 0,
    ensures
        row_emoji(chunked(list, columns)) == list,
        forall|k: int|
            0 <= k < chunked(list, columns).len() ==> 0 < (#[trigger] chunked(list, columns)[k]).1.len()
                <= columns,
    decreases list.len(),
{
    let rows = chunked(list, columns);
    if list.len() == 0 {
        assert(row_emoji(rows) =~= list);
    } else if list.len() <= columns {
        assert(rows == seq![(None::<Seq<char>>, list)]);
        assert(rows.drop_first() =~= Seq::<(Option<Seq<char>>, Seq<Seq<char>>)>::empty());
        assert(row_emoji(rows.drop_first()) == Seq::<Seq<char>>::empty());
        assert(row_emoji(rows) == rows[0].1 + row_emoji(rows.drop_first()));
        assert(list + Seq::<Seq<char>>::empty() =~= list);
    } else {
        let rest = list.skip(columns as int);
        rows_keep_every_emoji_within_the_columns(rest, columns);
        assert(rows.drop_first() =~= chunked(rest, columns));
        assert(row_emoji(rows) == rows[0].1 + row_emoji(rows.drop_first()));
        assert(list.take(columns as int) + rest =~= list);
        assert forall|k: int|
            0 <= k < rows.len() implies 0 < (#[trigger] rows[k]).1.len() <= columns by {
            if k > 0 {
                assert(rows[k] == chunked(rest, columns)[k - 1]);
            }
        }
    }
}

} // verus!
