//! Colour emoji: which grapheme clusters are drawn as pictures, and how a
//! text splits into plain runs and emoji sequences.
//!
//! Text is laid out with each emoji sequence replaced by a placeholder drawn
//! in transparent ink, and the colour font's picture is painted over the
//! placeholder afterwards; this module decides what counts as a sequence.

use unicode_segmentation::UnicodeSegmentation;
use vstd::prelude::*;

use crate::text::{chars_of, from_chars, is_white_space, is_whitespace, extend_chars};

verus! {

/// The character that stands in for an emoji during layout. It comes from
/// the monochrome emoji face egui bundles, where it is a full square, so a
/// sequence of any length takes exactly one emoji's room.
pub const PLACEHOLDER: char = '\u{2B1B}';

/// The extended grapheme clusters of a text, as `unicode-segmentation`
/// finds them.
pub uninterp spec fn grapheme_clusters(text: Seq<char>) -> Seq<Seq<char>>;

/// How many placeholders a text holds.
pub open spec fn placeholder_count(s: Seq<char>) -> nat
    decreases s.len(),
{
    if s.len() == 0 {
        0
    } else {
        placeholder_count(s.drop_last()) + if s.last() == PLACEHOLDER { 1nat } else { 0nat }
    }
}

/// Sequences laid end to end.
pub open spec fn concat(parts: Seq<Seq<char>>) -> Seq<char>
    decreases parts.len(),
{
    if parts.len() == 0 {
        Seq::empty()
    } else {
        concat(parts.drop_last()) + parts.last()
    }
}

/// `UnicodeSegmentation::graphemes(text, true)`, each cluster owned. The
/// clusters are those named for the text; the iterator yields consecutive
/// non-empty slices that together are the whole text.
#[verifier::external_body]
fn graphemes(text: &str) -> (r: Vec<String>)
    ensures
        r@.map_values(|g: String| g@) == grapheme_clusters(text@),
        concat(r@.map_values(|g: String| g@)) == text@,
        forall|i: int| 0 <= i < r@.len() ==> (#[trigger] r@[i])@.len() > 0,
{
    text.graphemes(true).map(str::to_owned).collect()
}

/// A run of text, or one emoji sequence.
#[derive(Clone, Debug, PartialEq, Eq)]
pub enum Piece {
    Text(String),
    Emoji(String),
}

/// A piece as a flag (whether it is an emoji) and its characters.
pub open spec fn piece_view(piece: Piece) -> (bool, Seq<char>) {
    match piece {
        Piece::Text(text) => (false, text@),
        Piece::Emoji(text) => (true, text@),
    }
}

pub open spec fn pieces_view(pieces: Seq<Piece>) -> Seq<(bool, Seq<char>)> {
    pieces.map_values(|p: Piece| piece_view(p))
}

/// The skin-tone modifiers.
pub open spec fn skin_tone(c: char) -> bool {
    '\u{1F3FB}' <= c && c <= '\u{1F3FF}'
}

/// Characters that are pictures by default, from Unicode's emoji data.
pub open spec fn presentation(c: char) -> bool {
    let code = c;
    if '\u{1F000}' <= code && code <= '\u{1FAFF}' {
        !(code == '\u{1F170}' || code == '\u{1F171}' || code == '\u{1F17E}' || code == '\u{1F17F}' || code
            == '\u{1F202}' || code == '\u{1F237}')
    } else {
        code == '\u{231A}' || code == '\u{231B}' || ('\u{23E9}' <= code && code <= '\u{23EC}') || code == '\u{23F0}'
            || code == '\u{23F3}' || code == '\u{25FD}' || code == '\u{25FE}' || code == '\u{2614}' || code
            == '\u{2615}' || ('\u{2648}' <= code && code <= '\u{2653}') || code == '\u{267F}' || code == '\u{2693}'
            || code == '\u{26A1}' || code == '\u{26AA}' || code == '\u{26AB}' || code == '\u{26BD}' || code
            == '\u{26BE}' || code == '\u{26C4}' || code == '\u{26C5}' || code == '\u{26CE}' || code == '\u{26D4}'
            || code == '\u{26EA}' || code == '\u{26F2}' || code == '\u{26F3}' || code == '\u{26F5}' || code
            == '\u{26FA}' || code == '\u{26FD}' || code == '\u{2705}' || code == '\u{270A}' || code == '\u{270B}'
            || code == '\u{2728}' || code == '\u{274C}' || code == '\u{274E}' || ('\u{2753}' <= code && code
            <= '\u{2755}') || code == '\u{2757}' || ('\u{2795}' <= code && code <= '\u{2797}') || code == '\u{27B0}'
            || code == '\u{27BF}' || code == '\u{2B1B}' || code == '\u{2B1C}' || code == '\u{2B50}' || code
            == '\u{2B55}'
    }
}

/// A character that asks the sequence it is in to be a picture: the emoji
/// variation selector, the keycap, the joiner, or a skin tone.
pub open spec fn asks_for_picture(c: char) -> bool {
    c == '\u{FE0F}' || c == '\u{20E3}' || c == '\u{200D}' || skin_tone(c)
}

/// A symbol that can be a picture when the sequence asks.
pub open spec fn picture_capable(c: char) -> bool {
    c == '\u{A9}' || c == '\u{AE}' || ('\u{2000}' <= c && c <= '\u{33FF}') || ('\u{1F000}' <= c
        && c <= '\u{1FAFF}')
}

/// Whether a grapheme cluster is drawn as a picture: a character with
/// emoji presentation, or anything asked for one with a variation
/// selector, keycap, or joiner. A digit, '#' or '*' is only an emoji as a
/// keycap, and the letters of scripts that use joiners in ordinary words
/// stay text.
pub open spec fn emoji_cluster(cluster: Seq<char>) -> bool {
    if cluster.len() == 0 {
        false
    } else if '\u{A9}' > cluster[0] {
        cluster.contains('\u{20E3}')
    } else if presentation(cluster[0]) {
        true
    } else {
        picture_capable(cluster[0]) && exists|i: int|
            0 <= i < cluster.len() && #[trigger] asks_for_picture(cluster[i])
    }
}

/// The pieces of a text whose clusters are `clusters`, when the plain run
/// before them is `run`: plain clusters gather into runs, each emoji
/// cluster is a piece of its own.
pub open spec fn pieces_from(clusters: Seq<Seq<char>>, run: Seq<char>) -> Seq<(bool, Seq<char>)>
    decreases clusters.len(),
{
    if clusters.len() == 0 {
        if run.len() > 0 {
            seq![(false, run)]
        } else {
            Seq::empty()
        }
    } else if emoji_cluster(clusters[0]) {
        (if run.len() > 0 {
            seq![(false, run)]
        } else {
            Seq::empty()
        }) + seq![(true, clusters[0])] + pieces_from(clusters.drop_first(), Seq::empty())
    } else {
        pieces_from(clusters.drop_first(), run + clusters[0])
    }
}

/// The pieces of a text.
pub open spec fn pieces_of(text: Seq<char>) -> Seq<(bool, Seq<char>)> {
    pieces_from(grapheme_clusters(text), Seq::empty())
}

pub fn is_skin_tone(c: char) -> (r: bool)
    ensures
        r == skin_tone(c),
{
    '\u{1F3FB}' <= c && c <= '\u{1F3FF}'
}

/// Characters that are pictures by default, from Unicode's emoji data.
pub fn is_presentation(c: char) -> (r: bool)
    ensures
        r == presentation(c),
{
    let code = c;
    if '\u{1F000}' <= code && code <= '\u{1FAFF}' {
        return !(code == '\u{1F170}' || code == '\u{1F171}' || code == '\u{1F17E}' || code == '\u{1F17F}'
            || code == '\u{1F202}' || code == '\u{1F237}');
    }
    code == '\u{231A}' || code == '\u{231B}' || ('\u{23E9}' <= code && code <= '\u{23EC}') || code == '\u{23F0}'
        || code == '\u{23F3}' || code == '\u{25FD}' || code == '\u{25FE}' || code == '\u{2614}' || code == '\u{2615}'
        || ('\u{2648}' <= code && code <= '\u{2653}') || code == '\u{267F}' || code == '\u{2693}' || code
        == '\u{26A1}' || code == '\u{26AA}' || code == '\u{26AB}' || code == '\u{26BD}' || code == '\u{26BE}'
        || code == '\u{26C4}' || code == '\u{26C5}' || code == '\u{26CE}' || code == '\u{26D4}' || code
        == '\u{26EA}' || code == '\u{26F2}' || code == '\u{26F3}' || code == '\u{26F5}' || code == '\u{26FA}'
        || code == '\u{26FD}' || code == '\u{2705}' || code == '\u{270A}' || code == '\u{270B}' || code
        == '\u{2728}' || code == '\u{274C}' || code == '\u{274E}' || ('\u{2753}' <= code && code <= '\u{2755}')
        || code == '\u{2757}' || ('\u{2795}' <= code && code <= '\u{2797}') || code == '\u{27B0}' || code
        == '\u{27BF}' || code == '\u{2B1B}' || code == '\u{2B1C}' || code == '\u{2B50}' || code == '\u{2B55}'
}

fn emoji_chars(cluster: &[char]) -> (r: bool)
    ensures
        r == emoji_cluster(cluster@),
{
    if cluster.len() == 0 {
        return false;
    }
    let first = cluster[0];
    if '\u{A9}' > first {
        let mut i: usize = 0;
        while i < cluster.len()
            invariant
                i <= cluster@.len(),
                cluster@.len() > 0,
                '\u{A9}' > cluster@[0],
                forall|j: int| 0 <= j < i ==> cluster@[j] != '\u{20E3}',
            decreases cluster@.len() - i,
        {
            if cluster[i] == '\u{20E3}' {
                assert(cluster@[i as int] == '\u{20E3}');
                assert(cluster@.contains('\u{20E3}'));
                return true;
            }
            i = i + 1;
        }
        return false;
    }
    if is_presentation(first) {
        return true;
    }
    let capable = first == '\u{A9}' || first == '\u{AE}' || ('\u{2000}' <= first && first
        <= '\u{33FF}') || ('\u{1F000}' <= first && first <= '\u{1FAFF}');
    if !capable {
        return false;
    }
    assert(picture_capable(cluster@[0]));
    assert('\u{A9}' <= cluster@[0]);
    assert(!presentation(cluster@[0]));
    let mut i: usize = 0;
    while i < cluster.len()
        invariant
            i <= cluster@.len(),
            cluster@.len() > 0,
            picture_capable(cluster@[0]),
            '\u{A9}' <= cluster@[0],
            !presentation(cluster@[0]),
            forall|j: int| 0 <= j < i ==> !asks_for_picture(#[trigger] cluster@[j]),
        decreases cluster@.len() - i,
    {
        let c = cluster[i];
        if c == '\u{FE0F}' || c == '\u{20E3}' || c == '\u{200D}' || is_skin_tone(c) {
            assert(asks_for_picture(cluster@[i as int]));
            return true;
        }
        i = i + 1;
    }
    false
}

/// Whether a grapheme cluster is drawn as a picture: a character with
/// emoji presentation, or anything asked for one with a variation
/// selector, keycap, or joiner.
pub fn is_emoji(cluster: &str) -> (r: bool)
    ensures
        r == emoji_cluster(cluster@),
{
    let chars = chars_of(cluster);
    emoji_chars(chars.as_slice())
}

fn push_piece(out: &mut Vec<Piece>, piece: Piece)
    ensures
        pieces_view(final(out)@) == pieces_view(old(out)@).push(piece_view(piece)),
{
    out.push(piece);
    assert(pieces_view(out@) =~= pieces_view(old(out)@).push(piece_view(piece)));
}

/// The texts of pieces.
pub open spec fn piece_texts(pieces: Seq<(bool, Seq<char>)>) -> Seq<Seq<char>> {
    pieces.map_values(|p: (bool, Seq<char>)| p.1)
}

proof fn lemma_concat_append(x: Seq<Seq<char>>, y: Seq<Seq<char>>)
    ensures
        concat(x + y) == concat(x) + concat(y),
    decreases y.len(),
{
    if y.len() == 0 {
        assert(x + y =~= x);
        assert(concat(x) + Seq::<char>::empty() =~= concat(x));
    } else {
        assert((x + y).drop_last() =~= x + y.drop_last());
        lemma_concat_append(x, y.drop_last());
        assert(concat(x) + concat(y.drop_last()) + y.last() =~= concat(x) + (concat(
            y.drop_last(),
        ) + y.last()));
    }
}

proof fn lemma_concat_one(a: Seq<char>)
    ensures
        concat(seq![a]) == a,
{
    let one = seq![a];
    assert(one.drop_last() =~= Seq::<Seq<char>>::empty());
    assert(concat(one.drop_last()) == Seq::<char>::empty());
    assert(one.last() == a);
    assert(concat(one) == concat(one.drop_last()) + one.last());
    assert(Seq::<char>::empty() + a =~= a);
}

/// Laid end to end, the pieces of a run and the clusters after it are the
/// run and the clusters.
proof fn lemma_pieces_concat(clusters: Seq<Seq<char>>, run: Seq<char>)
    ensures
        concat(piece_texts(pieces_from(clusters, run))) == run + concat(clusters),
    decreases clusters.len(),
{
    if clusters.len() == 0 {
        assert(concat(clusters) =~= Seq::<char>::empty());
        assert(run + Seq::<char>::empty() =~= run);
        if run.len() > 0 {
            assert(piece_texts(seq![(false, run)]) =~= seq![run]);
            lemma_concat_one(run);
        } else {
            assert(piece_texts(Seq::<(bool, Seq<char>)>::empty()) =~= Seq::<Seq<char>>::empty());
            assert(run =~= Seq::<char>::empty());
        }
    } else {
        let c0 = clusters[0];
        let rest = clusters.drop_first();
        assert(clusters =~= seq![c0] + rest);
        lemma_concat_append(seq![c0], rest);
        lemma_concat_one(c0);
        if emoji_cluster(c0) {
            let lead: Seq<(bool, Seq<char>)> = if run.len() > 0 {
                seq![(false, run)]
            } else {
                Seq::empty()
            };
            let tail = pieces_from(rest, Seq::empty());
            lemma_pieces_concat(rest, Seq::empty());
            assert(Seq::<char>::empty() + concat(rest) =~= concat(rest));
            assert(piece_texts(lead + seq![(true, c0)] + tail) =~= piece_texts(lead) + seq![c0]
                + piece_texts(tail));
            lemma_concat_append(piece_texts(lead) + seq![c0], piece_texts(tail));
            lemma_concat_append(piece_texts(lead), seq![c0]);
            if run.len() > 0 {
                assert(piece_texts(lead) =~= seq![run]);
                lemma_concat_one(run);
            } else {
                assert(piece_texts(lead) =~= Seq::<Seq<char>>::empty());
                assert(run =~= Seq::<char>::empty());
            }
            assert(concat(piece_texts(lead)) == run);
            assert(run + c0 + concat(rest) =~= run + (c0 + concat(rest)));
        } else {
            lemma_pieces_concat(rest, run + c0);
            assert(run + c0 + concat(rest) =~= run + (c0 + concat(rest)));
        }
    }
}

/// Splits text into plain runs and emoji sequences; laid end to end, the
/// pieces are the text again.
pub fn pieces(text: &str) -> (r: Vec<Piece>)
    ensures
        pieces_view(r@) == pieces_of(text@),
        concat(piece_texts(pieces_view(r@))) == text@,
{
    let clusters = graphemes(text);
    proof {
        lemma_pieces_concat(grapheme_clusters(text@), Seq::empty());
        assert(Seq::<char>::empty() + text@ =~= text@);
    }
    let ghost all = grapheme_clusters(text@);
    let mut out: Vec<Piece> = Vec::new();
    let mut run: Vec<char> = Vec::new();
    let mut i: usize = 0;
    assert(all.skip(0) =~= all);
    assert(pieces_view(out@) + pieces_from(all, run@) =~= pieces_from(all, Seq::empty()));
    while i < clusters.len()
        invariant
            clusters@.map_values(|g: String| g@) == all,
            i <= clusters@.len(),
            pieces_view(out@) + pieces_from(all.skip(i as int), run@) == pieces_from(
                all,
                Seq::empty(),
            ),
        decreases clusters@.len() - i,
    {
        let cluster = chars_of(clusters[i].as_str());
        let ghost rest = all.skip(i as int);
        assert(rest[0] == cluster@);
        assert(rest.drop_first() =~= all.skip(i + 1));
        let ghost before = pieces_view(out@);
        if emoji_chars(cluster.as_slice()) {
            if run.len() > 0 {
                push_piece(&mut out, Piece::Text(from_chars(run.as_slice())));
            }
            push_piece(&mut out, Piece::Emoji(from_chars(cluster.as_slice())));
            proof {
                let lead: Seq<(bool, Seq<char>)> = if run@.len() > 0 {
                    seq![(false, run@)]
                } else {
                    Seq::empty()
                };
                assert(pieces_view(out@) =~= before + lead + seq![(true, cluster@)]);
            }
            run = Vec::new();
        } else {
            extend_chars(&mut run, cluster.as_slice());
        }
        i = i + 1;
    }
    assert(all.skip(i as int) =~= Seq::<Seq<char>>::empty());
    if run.len() > 0 {
        push_piece(&mut out, Piece::Text(from_chars(run.as_slice())));
    }
    out
}

/// The emoji pieces' texts, in order.
pub open spec fn emoji_texts(pieces: Seq<(bool, Seq<char>)>) -> Seq<Seq<char>>
    decreases pieces.len(),
{
    if pieces.len() == 0 {
        Seq::empty()
    } else if pieces[0].0 {
        seq![pieces[0].1] + emoji_texts(pieces.drop_first())
    } else {
        emoji_texts(pieces.drop_first())
    }
}

/// The clusters drawn as pictures, in order.
pub open spec fn emoji_clusters(clusters: Seq<Seq<char>>) -> Seq<Seq<char>>
    decreases clusters.len(),
{
    if clusters.len() == 0 {
        Seq::empty()
    } else if emoji_cluster(clusters[0]) {
        seq![clusters[0]] + emoji_clusters(clusters.drop_first())
    } else {
        emoji_clusters(clusters.drop_first())
    }
}

/// The shape of a split: no piece is empty, no two plain runs stand side
/// by side, and every emoji piece is a cluster drawn as a picture.
pub open spec fn well_split(pieces: Seq<(bool, Seq<char>)>) -> bool {
    &&& forall|i: int| 0 <= i < pieces.len() ==> (#[trigger] pieces[i]).1.len() > 0
    &&& forall|i: int| 0 <= i < pieces.len() - 1 ==> #[trigger] pieces[i].0 || pieces[i + 1].0
    &&& forall|i: int| 0 <= i < pieces.len() && (#[trigger] pieces[i]).0 ==> emoji_cluster(pieces[i].1)
}

proof fn lemma_emoji_texts_append(a: Seq<(bool, Seq<char>)>, b: Seq<(bool, Seq<char>)>)
    ensures
        emoji_texts(a + b) == emoji_texts(a) + emoji_texts(b),
    decreases a.len(),
{
    if a.len() == 0 {
        assert(a + b =~= b);
        assert(Seq::<Seq<char>>::empty() + emoji_texts(b) =~= emoji_texts(b));
    } else {
        assert((a + b).drop_first() =~= a.drop_first() + b);
        assert((a + b)[0] == a[0]);
        lemma_emoji_texts_append(a.drop_first(), b);
        if a[0].0 {
            assert(seq![a[0].1] + (emoji_texts(a.drop_first()) + emoji_texts(b)) =~= seq![a[0].1]
                + emoji_texts(a.drop_first()) + emoji_texts(b));
        }
    }
}

proof fn lemma_pieces_shape(clusters: Seq<Seq<char>>, run: Seq<char>)
    ensures
        well_split(pieces_from(clusters, run)),
        emoji_texts(pieces_from(clusters, run)) == emoji_clusters(clusters),
    decreases clusters.len(),
{
    let r = pieces_from(clusters, run);
    let lead: Seq<(bool, Seq<char>)> = if run.len() > 0 {
        seq![(false, run)]
    } else {
        Seq::empty()
    };
    if clusters.len() == 0 {
        assert(r == lead);
        if run.len() > 0 {
            assert(emoji_texts(lead).len() == 0) by {
                assert(lead.drop_first() =~= Seq::<(bool, Seq<char>)>::empty());
                assert(emoji_texts(lead.drop_first()).len() == 0);
                assert(!lead[0].0);
            }
        }
        assert(emoji_texts(r) =~= emoji_clusters(clusters));
    } else {
        let c0 = clusters[0];
        let rest = clusters.drop_first();
        if emoji_cluster(c0) {
            let tail = pieces_from(rest, Seq::empty());
            lemma_pieces_shape(rest, Seq::empty());
            let head = lead + seq![(true, c0)];
            assert(r == head + tail);
            assert forall|i: int| 0 <= i < r.len() implies (#[trigger] r[i]).1.len() > 0 by {
                if i >= head.len() {
                    assert(r[i] == tail[i - head.len()]);
                }
            }
            assert forall|i: int| 0 <= i < r.len() - 1 implies #[trigger] r[i].0 || r[i + 1].0 by {
                if i >= head.len() {
                    assert(r[i] == tail[i - head.len()]);
                    assert(r[i + 1] == tail[i + 1 - head.len()]);
                } else if i == head.len() - 1 {
                    assert(r[i] == (true, c0));
                } else {
                    assert(r[i + 1] == (true, c0));
                }
            }
            assert forall|i: int| 0 <= i < r.len() && (#[trigger] r[i]).0 implies emoji_cluster(
                r[i].1,
            ) by {
                if i >= head.len() {
                    assert(r[i] == tail[i - head.len()]);
                } else if i < head.len() - 1 {
                    assert(r[i] == (false, run));
                }
            }
            lemma_emoji_texts_append(head, tail);
            lemma_emoji_texts_append(lead, seq![(true, c0)]);
            let one: Seq<(bool, Seq<char>)> = seq![(true, c0)];
            assert(one.drop_first() =~= Seq::<(bool, Seq<char>)>::empty());
            assert(emoji_texts(one.drop_first()).len() == 0);
            assert(one[0] == (true, c0));
            assert(emoji_texts(one) =~= seq![c0]);
            if run.len() > 0 {
                assert(lead.drop_first() =~= Seq::<(bool, Seq<char>)>::empty());
                assert(emoji_texts(lead.drop_first()).len() == 0);
                assert(!lead[0].0);
            }
            assert(emoji_texts(lead) =~= Seq::<Seq<char>>::empty());
            assert(emoji_texts(r) =~= emoji_clusters(clusters));
        } else {
            lemma_pieces_shape(rest, run + c0);
            assert(emoji_texts(r) =~= emoji_clusters(clusters));
        }
    }
}

/// How `pieces` splits a text: no piece is empty, no two plain runs stand
/// side by side, and the emoji pieces are exactly the text's clusters that
/// are drawn as pictures, one piece each, in order (so every other
/// cluster lies in a plain run).
pub proof fn pieces_are_well_split(text: Seq<char>)
    ensures
        well_split(pieces_of(text)),
        emoji_texts(pieces_of(text)) == emoji_clusters(grapheme_clusters(text)),
{
    lemma_pieces_shape(grapheme_clusters(text), Seq::empty());
}

/// Whether every character of a run is white space, so that `trim` leaves
/// nothing of it.
pub open spec fn blank(run: Seq<char>) -> bool {
    forall|i: int| 0 <= i < run.len() ==> #[trigger] is_white_space(run[i])
}

/// How many emoji pieces there are, if every text piece is blank.
pub open spec fn emoji_count(pieces: Seq<(bool, Seq<char>)>) -> Option<nat>
    decreases pieces.len(),
{
    if pieces.len() == 0 {
        Some(0)
    } else {
        match emoji_count(pieces.drop_last()) {
            None => None,
            Some(n) => if pieces.last().0 {
                Some(n + 1)
            } else if blank(pieces.last().1) {
                Some(n)
            } else {
                None
            },
        }
    }
}

/// How many emoji a text is, when it is nothing but emoji (and spaces).
pub open spec fn emoji_only_count(text: Seq<char>) -> Option<nat> {
    match emoji_count(pieces_of(text)) {
        Some(n) if n > 0 => Some(n),
        _ => None,
    }
}

fn is_blank(run: &str) -> (r: bool)
    ensures
        r == blank(run@),
{
    let chars = chars_of(run);
    let mut i: usize = 0;
    while i < chars.len()
        invariant
            chars@ == run@,
            i <= chars@.len(),
            forall|j: int| 0 <= j < i ==> #[trigger] is_white_space(chars@[j]),
        decreases chars@.len() - i,
    {
        if !is_whitespace(chars[i]) {
            return false;
        }
        i = i + 1;
    }
    true
}

/// How many emoji a text is, when it is nothing but emoji (and spaces).
pub fn only_emoji(text: &str) -> (r: Option<usize>)
    ensures
        r matches Some(n) ==> emoji_only_count(text@) == Some(n as nat),
        r is None ==> emoji_only_count(text@) is None,
{
    let all = pieces(text);
    let ghost view = pieces_view(all@);
    let mut count: usize = 0;
    let mut i: usize = 0;
    while i < all.len()
        invariant
            view == pieces_view(all@),
            view == pieces_of(text@),
            i <= all@.len(),
            count <= i,
            emoji_count(view.take(i as int)) == Some(count as nat),
        decreases all@.len() - i,
    {
        assert(view.take(i + 1).drop_last() =~= view.take(i as int));
        assert(view.take(i + 1).last() == piece_view(all@[i as int]));
        match &all[i] {
            Piece::Emoji(_) => {
                count = count + 1;
            },
            Piece::Text(run) => {
                if !is_blank(run.as_str()) {
                    proof {
                        lemma_emoji_count_none_extends(view, i as int + 1);
                    }
                    return None;
                }
            },
        }
        i = i + 1;
    }
    assert(view.take(i as int) =~= view);
    if count > 0 {
        Some(count)
    } else {
        None
    }
}

proof fn lemma_emoji_count_none_extends(pieces: Seq<(bool, Seq<char>)>, k: int)
    requires
        0 <= k <= pieces.len(),
        emoji_count(pieces.take(k)) is None,
    ensures
        emoji_count(pieces) is None,
    decreases pieces.len() - k,
{
    if k < pieces.len() {
        assert(pieces.take(k + 1).drop_last() =~= pieces.take(k));
        lemma_emoji_count_none_extends(pieces, k + 1);
    } else {
        assert(pieces.take(k) =~= pieces);
    }
}

/// What a layout gets for a text when emoji are painted as pictures: each
/// emoji sequence becomes one placeholder.
pub open spec fn routed(pieces: Seq<(bool, Seq<char>)>) -> Seq<char>
    decreases pieces.len(),
{
    if pieces.len() == 0 {
        Seq::empty()
    } else {
        routed(pieces.drop_last()) + if pieces.last().0 {
            seq![PLACEHOLDER]
        } else {
            pieces.last().1
        }
    }
}

/// The emoji sequences the placeholders stand for, in order.
pub open spec fn placed(pieces: Seq<(bool, Seq<char>)>) -> Seq<Seq<char>>
    decreases pieces.len(),
{
    if pieces.len() == 0 {
        Seq::empty()
    } else {
        placed(pieces.drop_last()) + if pieces.last().0 {
            seq![pieces.last().1]
        } else {
            Seq::empty()
        }
    }
}

proof fn lemma_count_append(a: Seq<char>, b: Seq<char>)
    ensures
        placeholder_count(a + b) == placeholder_count(a) + placeholder_count(b),
    decreases b.len(),
{
    if b.len() == 0 {
        assert(a + b =~= a);
    } else {
        assert((a + b).drop_last() =~= a + b.drop_last());
        lemma_count_append(a, b.drop_last());
    }
}

proof fn lemma_count_plain(s: Seq<char>)
    requires
        !s.contains(PLACEHOLDER),
    ensures
        placeholder_count(s) == 0,
    decreases s.len(),
{
    if s.len() > 0 {
        assert(!s.drop_last().contains(PLACEHOLDER)) by {
            if s.drop_last().contains(PLACEHOLDER) {
                let k = choose|k: int| 0 <= k < s.len() - 1 && s.drop_last()[k] == PLACEHOLDER;
                assert(s[k] == PLACEHOLDER);
            }
        }
        assert(s.last() != PLACEHOLDER) by {
            if s.last() == PLACEHOLDER {
                assert(s[s.len() - 1] == PLACEHOLDER);
            }
        }
        lemma_count_plain(s.drop_last());
    }
}

/// A character missing from parts laid end to end is missing from each.
proof fn lemma_parts_lack(parts: Seq<Seq<char>>, c: char, k: int)
    requires
        !concat(parts).contains(c),
        0 <= k < parts.len(),
    ensures
        !parts[k].contains(c),
    decreases parts.len(),
{
    let head = concat(parts.drop_last());
    if k == parts.len() - 1 {
        if parts[k].contains(c) {
            let j = choose|j: int| 0 <= j < parts[k].len() && parts[k][j] == c;
            assert(concat(parts)[head.len() + j] == c);
        }
    } else {
        assert(!head.contains(c)) by {
            if head.contains(c) {
                let j = choose|j: int| 0 <= j < head.len() && head[j] == c;
                assert(concat(parts)[j] == c);
            }
        }
        assert(parts.drop_last()[k] == parts[k]);
        lemma_parts_lack(parts.drop_last(), c, k);
    }
}

/// With no placeholder in the plain runs, the placeholders of a routed text
/// are as many as the sequences placed.
proof fn lemma_routed_count(pieces: Seq<(bool, Seq<char>)>)
    requires
        forall|k: int| 0 <= k < pieces.len() && !(#[trigger] pieces[k]).0 ==> !pieces[k].1.contains(
            PLACEHOLDER,
        ),
    ensures
        placeholder_count(routed(pieces)) == placed(pieces).len(),
    decreases pieces.len(),
{
    if pieces.len() > 0 {
        let last = pieces.last();
        assert(pieces[pieces.len() - 1] == last);
        assert forall|k: int|
            0 <= k < pieces.drop_last().len() && !(#[trigger] pieces.drop_last()[k]).0 implies !pieces.drop_last()[k].1.contains(
            PLACEHOLDER,
        ) by {
            assert(pieces.drop_last()[k] == pieces[k]);
        }
        lemma_routed_count(pieces.drop_last());
        if last.0 {
            lemma_count_append(routed(pieces.drop_last()), seq![PLACEHOLDER]);
            let one = seq![PLACEHOLDER];
            assert(one.drop_last() =~= Seq::<char>::empty());
            assert(placeholder_count(one.drop_last()) == 0);
            assert(placeholder_count(one) == 1);
            assert(placed(pieces).len() == placed(pieces.drop_last()).len() + 1);
        } else {
            lemma_count_append(routed(pieces.drop_last()), last.1);
            lemma_count_plain(last.1);
            assert(placed(pieces) =~= placed(pieces.drop_last()));
        }
    }
}

/// Appends text for a layout to `out`, routing each emoji sequence through
/// one placeholder and remembering in `placements` which sequence it
/// stands for; without a colour emoji font (`available` false) the text
/// goes in as it is. Gives back how many characters went in. With no
/// placeholder character in the text itself, the placeholders line up with
/// the placements.
pub fn append(out: &mut String, placements: &mut Vec<String>, text: &str, available: bool) -> (n: usize)
    ensures
        !available ==> final(out)@ == old(out)@ + text@ && final(placements)@ == old(placements)@,
        available ==> final(out)@ == old(out)@ + routed(pieces_of(text@)) && final(placements)@.map_values(
            |s: String| s@,
        ) == old(placements)@.map_values(|s: String| s@) + placed(pieces_of(text@)),
        n == final(out)@.len() - old(out)@.len(),
        available && !text@.contains(PLACEHOLDER) ==> placeholder_count(
            final(out)@.skip(old(out)@.len() as int),
        ) == final(placements)@.len() - old(placements)@.len(),
{
    let before = out.as_str().unicode_len();
    if !available {
        crate::text::push_str(out, text);
        let after = out.as_str().unicode_len();
        return after - before;
    }
    let all = pieces(text);
    let ghost view = pieces_view(all@);
    let ghost start = out@;
    let ghost placed_before = placements@.map_values(|s: String| s@);
    let mut i: usize = 0;
    assert(view.take(0) =~= Seq::<(bool, Seq<char>)>::empty());
    assert(start + Seq::<char>::empty() =~= start);
    assert(placed_before + Seq::<Seq<char>>::empty() =~= placed_before);
    while i < all.len()
        invariant
            view == pieces_view(all@),
            view == pieces_of(text@),
            i <= all@.len(),
            out@ == start + routed(view.take(i as int)),
            placements@.map_values(|s: String| s@) == placed_before + placed(view.take(i as int)),
        decreases all@.len() - i,
    {
        assert(view.take(i + 1).drop_last() =~= view.take(i as int));
        assert(view.take(i + 1).last() == piece_view(all@[i as int]));
        let ghost out_before = out@;
        let ghost placed_now = placements@.map_values(|s: String| s@);
        match &all[i] {
            Piece::Text(run) => {
                crate::text::push_str(out, run.as_str());
                assert(start + routed(view.take(i + 1)) =~= out_before + run@);
                assert(placed(view.take(i + 1)) =~= placed(view.take(i as int)) + Seq::<
                    Seq<char>,
                >::empty());
                assert(placements@.map_values(|s: String| s@) =~= placed_before + placed(
                    view.take(i + 1),
                ));
            },
            Piece::Emoji(cluster) => {
                crate::text::push_char(out, PLACEHOLDER);
                placements.push(cluster.clone());
                assert(start + routed(view.take(i + 1)) =~= out_before.push(PLACEHOLDER));
                assert(placements@.map_values(|s: String| s@) =~= placed_now.push(
                    placements@[placements@.len() - 1]@,
                ));
                assert(placements@[placements@.len() - 1]@ == cluster@);
                assert(placements@.map_values(|s: String| s@) =~= placed_before + placed(
                    view.take(i + 1),
                ));
            },
        }
        i = i + 1;
    }
    assert(view.take(i as int) =~= view);
    proof {
        assert(out@.skip(start.len() as int) =~= routed(view));
        if !text@.contains(PLACEHOLDER) {
            assert forall|k: int| 0 <= k < view.len() && !(#[trigger] view[k]).0 implies !view[k].1.contains(
                PLACEHOLDER,
            ) by {
                assert(piece_texts(view)[k] == view[k].1);
                lemma_parts_lack(piece_texts(view), PLACEHOLDER, k);
            }
            lemma_routed_count(view);
        }
        assert(placements@.map_values(|s: String| s@).len() == placements@.len());
        assert(placed_before.len() == old(placements)@.len());
    }
    let after = out.as_str().unicode_len();
    after - before
}

/// The characters Unicode's emoji data (version 16.0) marks
/// Emoji_Presentation: shown as pictures by default.
pub open spec fn emoji_presentation(c: char) -> bool {
    ('\u{231A}' <= c && c <= '\u{231B}') || ('\u{23E9}' <= c && c <= '\u{23EC}') || c == '\u{23F0}'
    || c == '\u{23F3}' || ('\u{25FD}' <= c && c <= '\u{25FE}') || ('\u{2614}' <= c && c <= '\u{2615}')
    || ('\u{2648}' <= c && c <= '\u{2653}') || c == '\u{267F}' || c == '\u{2693}'
    || c == '\u{26A1}' || ('\u{26AA}' <= c && c <= '\u{26AB}') || ('\u{26BD}' <= c && c <= '\u{26BE}')
    || ('\u{26C4}' <= c && c <= '\u{26C5}') || c == '\u{26CE}' || c == '\u{26D4}'
    || c == '\u{26EA}' || ('\u{26F2}' <= c && c <= '\u{26F3}') || c == '\u{26F5}'
    || c == '\u{26FA}' || c == '\u{26FD}' || c == '\u{2705}'
    || ('\u{270A}' <= c && c <= '\u{270B}') || c == '\u{2728}' || c == '\u{274C}'
    || c == '\u{274E}' || ('\u{2753}' <= c && c <= '\u{2755}') || c == '\u{2757}'
    || ('\u{2795}' <= c && c <= '\u{2797}') || c == '\u{27B0}' || c == '\u{27BF}'
    || ('\u{2B1B}' <= c && c <= '\u{2B1C}') || c == '\u{2B50}' || c == '\u{2B55}'
    || c == '\u{1F004}' || c == '\u{1F0CF}' || c == '\u{1F18E}'
    || ('\u{1F191}' <= c && c <= '\u{1F19A}') || ('\u{1F1E6}' <= c && c <= '\u{1F1FF}') || c == '\u{1F201}'
    || c == '\u{1F21A}' || c == '\u{1F22F}' || ('\u{1F232}' <= c && c <= '\u{1F236}')
    || ('\u{1F238}' <= c && c <= '\u{1F23A}') || ('\u{1F250}' <= c && c <= '\u{1F251}') || ('\u{1F300}' <= c && c <= '\u{1F320}')
    || ('\u{1F32D}' <= c && c <= '\u{1F335}') || ('\u{1F337}' <= c && c <= '\u{1F37C}') || ('\u{1F37E}' <= c && c <= '\u{1F393}')
    || ('\u{1F3A0}' <= c && c <= '\u{1F3CA}') || ('\u{1F3CF}' <= c && c <= '\u{1F3D3}') || ('\u{1F3E0}' <= c && c <= '\u{1F3F0}')
    || c == '\u{1F3F4}' || ('\u{1F3F8}' <= c && c <= '\u{1F43E}') || c == '\u{1F440}'
    || ('\u{1F442}' <= c && c <= '\u{1F4FC}') || ('\u{1F4FF}' <= c && c <= '\u{1F53D}') || ('\u{1F54B}' <= c && c <= '\u{1F54E}')
    || ('\u{1F550}' <= c && c <= '\u{1F567}') || c == '\u{1F57A}' || ('\u{1F595}' <= c && c <= '\u{1F596}')
    || c == '\u{1F5A4}' || ('\u{1F5FB}' <= c && c <= '\u{1F64F}') || ('\u{1F680}' <= c && c <= '\u{1F6C5}')
    || c == '\u{1F6CC}' || ('\u{1F6D0}' <= c && c <= '\u{1F6D2}') || ('\u{1F6D5}' <= c && c <= '\u{1F6D7}')
    || ('\u{1F6DC}' <= c && c <= '\u{1F6DF}') || ('\u{1F6EB}' <= c && c <= '\u{1F6EC}') || ('\u{1F6F4}' <= c && c <= '\u{1F6FC}')
    || ('\u{1F7E0}' <= c && c <= '\u{1F7EB}') || c == '\u{1F7F0}' || ('\u{1F90C}' <= c && c <= '\u{1F93A}')
    || ('\u{1F93C}' <= c && c <= '\u{1F945}') || ('\u{1F947}' <= c && c <= '\u{1F9FF}') || ('\u{1FA70}' <= c && c <= '\u{1FA7C}')
    || ('\u{1FA80}' <= c && c <= '\u{1FA89}') || ('\u{1FA8F}' <= c && c <= '\u{1FAC6}') || ('\u{1FACE}' <= c && c <= '\u{1FADC}')
    || ('\u{1FADF}' <= c && c <= '\u{1FAE9}') || ('\u{1FAF0}' <= c && c <= '\u{1FAF8}')
}

/// Every character that Unicode shows as a picture by default is an emoji
/// as a cluster of its own: a check mark, sparkles, a high-voltage sign,
/// every face and flag letter.
pub proof fn default_pictures_are_emoji(c: char)
    requires
        emoji_presentation(c),
    ensures
        emoji_cluster(seq![c]),
{
    assert(seq![c][0] == c);
    assert(presentation(c));
}

/// Below the pictographs' plane, exactly the characters Unicode shows as
/// pictures by default count as such on their own; in the plane of
/// pictographs, the letters and ideographs Unicode shows as text unless
/// asked (Ⓐ-style blood types and two squared ideographs) do not.
pub proof fn default_pictures_follow_unicode(c: char)
    ensures
        c < '\u{1F000}' ==> (presentation(c) <==> emoji_presentation(c)),
        c == '\u{1F170}' || c == '\u{1F171}' || c == '\u{1F17E}' || c == '\u{1F17F}' || c
            == '\u{1F202}' || c == '\u{1F237}' ==> !presentation(c) && !emoji_presentation(c),
{
}

} // verus!
