//! Right-to-left scripts: which letters read right to left, which marks
//! ride along with them in a run, and where the runs lie in a laid-out row.
//!
//! A text layout that shapes each right-to-left word on its own shows its
//! letters reversed. Reversing each visible run of right-to-left glyphs
//! again puts them back in logical order; the layout's text is unchanged,
//! so selection and copy keep the original string.

use vstd::prelude::*;

verus! {

/// Strong right-to-left characters: those Unicode 14.0 assigns the bidi
/// class R (Hebrew and other right-to-left scripts) or AL (Arabic letters).
/// Marks (class NSM) and Arabic-Indic digits (class AN) are not among them.
pub open spec fn right_to_left(c: char) -> bool {
    c == '\u{5BE}' || c == '\u{5C0}' || c == '\u{5C3}' || c == '\u{5C6}'
    || ('\u{5D0}' <= c && c <= '\u{5EA}') || ('\u{5EF}' <= c && c <= '\u{5F4}')
    || c == '\u{608}' || c == '\u{60B}' || c == '\u{60D}' || ('\u{61B}' <= c && c <= '\u{64A}')
    || ('\u{66D}' <= c && c <= '\u{66F}') || ('\u{671}' <= c && c <= '\u{6D5}')
    || ('\u{6E5}' <= c && c <= '\u{6E6}') || ('\u{6EE}' <= c && c <= '\u{6EF}')
    || ('\u{6FA}' <= c && c <= '\u{70D}') || ('\u{70F}' <= c && c <= '\u{710}')
    || ('\u{712}' <= c && c <= '\u{72F}') || ('\u{74D}' <= c && c <= '\u{7A5}')
    || c == '\u{7B1}' || ('\u{7C0}' <= c && c <= '\u{7EA}')
    || ('\u{7F4}' <= c && c <= '\u{7F5}') || c == '\u{7FA}'
    || ('\u{7FE}' <= c && c <= '\u{815}') || c == '\u{81A}' || c == '\u{824}' || c == '\u{828}'
    || ('\u{830}' <= c && c <= '\u{83E}') || ('\u{840}' <= c && c <= '\u{858}')
    || c == '\u{85E}' || ('\u{860}' <= c && c <= '\u{86A}')
    || ('\u{870}' <= c && c <= '\u{88E}') || ('\u{8A0}' <= c && c <= '\u{8C9}')
    || c == '\u{200F}' || c == '\u{FB1D}' || ('\u{FB1F}' <= c && c <= '\u{FB28}')
    || ('\u{FB2A}' <= c && c <= '\u{FB36}') || ('\u{FB38}' <= c && c <= '\u{FB3C}')
    || c == '\u{FB3E}' || ('\u{FB40}' <= c && c <= '\u{FB41}')
    || ('\u{FB43}' <= c && c <= '\u{FB44}') || ('\u{FB46}' <= c && c <= '\u{FBC2}')
    || ('\u{FBD3}' <= c && c <= '\u{FD3D}') || ('\u{FD50}' <= c && c <= '\u{FD8F}')
    || ('\u{FD92}' <= c && c <= '\u{FDC7}') || ('\u{FDF0}' <= c && c <= '\u{FDFC}')
    || ('\u{FE70}' <= c && c <= '\u{FE74}') || ('\u{FE76}' <= c && c <= '\u{FEFC}')
    || ('\u{10800}' <= c && c <= '\u{10805}') || c == '\u{10808}'
    || ('\u{1080A}' <= c && c <= '\u{10835}') || ('\u{10837}' <= c && c <= '\u{10838}')
    || c == '\u{1083C}' || ('\u{1083F}' <= c && c <= '\u{10855}')
    || ('\u{10857}' <= c && c <= '\u{1089E}') || ('\u{108A7}' <= c && c <= '\u{108AF}')
    || ('\u{108E0}' <= c && c <= '\u{108F2}') || ('\u{108F4}' <= c && c <= '\u{108F5}')
    || ('\u{108FB}' <= c && c <= '\u{1091B}') || ('\u{10920}' <= c && c <= '\u{10939}')
    || c == '\u{1093F}' || ('\u{10980}' <= c && c <= '\u{109B7}')
    || ('\u{109BC}' <= c && c <= '\u{109CF}') || ('\u{109D2}' <= c && c <= '\u{10A00}')
    || ('\u{10A10}' <= c && c <= '\u{10A13}') || ('\u{10A15}' <= c && c <= '\u{10A17}')
    || ('\u{10A19}' <= c && c <= '\u{10A35}') || ('\u{10A40}' <= c && c <= '\u{10A48}')
    || ('\u{10A50}' <= c && c <= '\u{10A58}') || ('\u{10A60}' <= c && c <= '\u{10A9F}')
    || ('\u{10AC0}' <= c && c <= '\u{10AE4}') || ('\u{10AEB}' <= c && c <= '\u{10AF6}')
    || ('\u{10B00}' <= c && c <= '\u{10B35}') || ('\u{10B40}' <= c && c <= '\u{10B55}')
    || ('\u{10B58}' <= c && c <= '\u{10B72}') || ('\u{10B78}' <= c && c <= '\u{10B91}')
    || ('\u{10B99}' <= c && c <= '\u{10B9C}') || ('\u{10BA9}' <= c && c <= '\u{10BAF}')
    || ('\u{10C00}' <= c && c <= '\u{10C48}') || ('\u{10C80}' <= c && c <= '\u{10CB2}')
    || ('\u{10CC0}' <= c && c <= '\u{10CF2}') || ('\u{10CFA}' <= c && c <= '\u{10D23}')
    || ('\u{10E80}' <= c && c <= '\u{10EA9}') || c == '\u{10EAD}'
    || ('\u{10EB0}' <= c && c <= '\u{10EB1}') || ('\u{10F00}' <= c && c <= '\u{10F27}')
    || ('\u{10F30}' <= c && c <= '\u{10F45}') || ('\u{10F51}' <= c && c <= '\u{10F59}')
    || ('\u{10F70}' <= c && c <= '\u{10F81}') || ('\u{10F86}' <= c && c <= '\u{10F89}')
    || ('\u{10FB0}' <= c && c <= '\u{10FCB}') || ('\u{10FE0}' <= c && c <= '\u{10FF6}')
    || ('\u{1E800}' <= c && c <= '\u{1E8C4}') || ('\u{1E8C7}' <= c && c <= '\u{1E8CF}')
    || ('\u{1E900}' <= c && c <= '\u{1E943}') || c == '\u{1E94B}'
    || ('\u{1E950}' <= c && c <= '\u{1E959}') || ('\u{1E95E}' <= c && c <= '\u{1E95F}')
    || ('\u{1EC71}' <= c && c <= '\u{1ECB4}') || ('\u{1ED01}' <= c && c <= '\u{1ED3D}')
    || ('\u{1EE00}' <= c && c <= '\u{1EE03}') || ('\u{1EE05}' <= c && c <= '\u{1EE1F}')
    || ('\u{1EE21}' <= c && c <= '\u{1EE22}') || c == '\u{1EE24}' || c == '\u{1EE27}'
    || ('\u{1EE29}' <= c && c <= '\u{1EE32}') || ('\u{1EE34}' <= c && c <= '\u{1EE37}')
    || c == '\u{1EE39}' || c == '\u{1EE3B}' || c == '\u{1EE42}' || c == '\u{1EE47}'
    || c == '\u{1EE49}' || c == '\u{1EE4B}' || ('\u{1EE4D}' <= c && c <= '\u{1EE4F}')
    || ('\u{1EE51}' <= c && c <= '\u{1EE52}') || c == '\u{1EE54}' || c == '\u{1EE57}'
    || c == '\u{1EE59}' || c == '\u{1EE5B}' || c == '\u{1EE5D}' || c == '\u{1EE5F}'
    || ('\u{1EE61}' <= c && c <= '\u{1EE62}') || c == '\u{1EE64}'
    || ('\u{1EE67}' <= c && c <= '\u{1EE6A}') || ('\u{1EE6C}' <= c && c <= '\u{1EE72}')
    || ('\u{1EE74}' <= c && c <= '\u{1EE77}') || ('\u{1EE79}' <= c && c <= '\u{1EE7C}')
    || c == '\u{1EE7E}' || ('\u{1EE80}' <= c && c <= '\u{1EE89}')
    || ('\u{1EE8B}' <= c && c <= '\u{1EE9B}') || ('\u{1EEA1}' <= c && c <= '\u{1EEA3}')
    || ('\u{1EEA5}' <= c && c <= '\u{1EEA9}') || ('\u{1EEAB}' <= c && c <= '\u{1EEBB}')
}

/// Hebrew points and Arabic harakat, which continue a right-to-left run.
pub open spec fn nonspacing_mark(c: char) -> bool {
    ('\u{0591}' <= c && c <= '\u{05C7}') || ('\u{064B}' <= c && c <= '\u{065F}') || c
        == '\u{0670}' || ('\u{06D6}' <= c && c <= '\u{06ED}')
}

/// Whether a character is strong right-to-left (bidi class R or AL).
pub fn is_rtl(c: char) -> (r: bool)
    ensures
        r == right_to_left(c),
{
    c == '\u{5BE}' || c == '\u{5C0}' || c == '\u{5C3}' || c == '\u{5C6}'
    || ('\u{5D0}' <= c && c <= '\u{5EA}') || ('\u{5EF}' <= c && c <= '\u{5F4}')
    || c == '\u{608}' || c == '\u{60B}' || c == '\u{60D}' || ('\u{61B}' <= c && c <= '\u{64A}')
    || ('\u{66D}' <= c && c <= '\u{66F}') || ('\u{671}' <= c && c <= '\u{6D5}')
    || ('\u{6E5}' <= c && c <= '\u{6E6}') || ('\u{6EE}' <= c && c <= '\u{6EF}')
    || ('\u{6FA}' <= c && c <= '\u{70D}') || ('\u{70F}' <= c && c <= '\u{710}')
    || ('\u{712}' <= c && c <= '\u{72F}') || ('\u{74D}' <= c && c <= '\u{7A5}')
    || c == '\u{7B1}' || ('\u{7C0}' <= c && c <= '\u{7EA}')
    || ('\u{7F4}' <= c && c <= '\u{7F5}') || c == '\u{7FA}'
    || ('\u{7FE}' <= c && c <= '\u{815}') || c == '\u{81A}' || c == '\u{824}' || c == '\u{828}'
    || ('\u{830}' <= c && c <= '\u{83E}') || ('\u{840}' <= c && c <= '\u{858}')
    || c == '\u{85E}' || ('\u{860}' <= c && c <= '\u{86A}')
    || ('\u{870}' <= c && c <= '\u{88E}') || ('\u{8A0}' <= c && c <= '\u{8C9}')
    || c == '\u{200F}' || c == '\u{FB1D}' || ('\u{FB1F}' <= c && c <= '\u{FB28}')
    || ('\u{FB2A}' <= c && c <= '\u{FB36}') || ('\u{FB38}' <= c && c <= '\u{FB3C}')
    || c == '\u{FB3E}' || ('\u{FB40}' <= c && c <= '\u{FB41}')
    || ('\u{FB43}' <= c && c <= '\u{FB44}') || ('\u{FB46}' <= c && c <= '\u{FBC2}')
    || ('\u{FBD3}' <= c && c <= '\u{FD3D}') || ('\u{FD50}' <= c && c <= '\u{FD8F}')
    || ('\u{FD92}' <= c && c <= '\u{FDC7}') || ('\u{FDF0}' <= c && c <= '\u{FDFC}')
    || ('\u{FE70}' <= c && c <= '\u{FE74}') || ('\u{FE76}' <= c && c <= '\u{FEFC}')
    || ('\u{10800}' <= c && c <= '\u{10805}') || c == '\u{10808}'
    || ('\u{1080A}' <= c && c <= '\u{10835}') || ('\u{10837}' <= c && c <= '\u{10838}')
    || c == '\u{1083C}' || ('\u{1083F}' <= c && c <= '\u{10855}')
    || ('\u{10857}' <= c && c <= '\u{1089E}') || ('\u{108A7}' <= c && c <= '\u{108AF}')
    || ('\u{108E0}' <= c && c <= '\u{108F2}') || ('\u{108F4}' <= c && c <= '\u{108F5}')
    || ('\u{108FB}' <= c && c <= '\u{1091B}') || ('\u{10920}' <= c && c <= '\u{10939}')
    || c == '\u{1093F}' || ('\u{10980}' <= c && c <= '\u{109B7}')
    || ('\u{109BC}' <= c && c <= '\u{109CF}') || ('\u{109D2}' <= c && c <= '\u{10A00}')
    || ('\u{10A10}' <= c && c <= '\u{10A13}') || ('\u{10A15}' <= c && c <= '\u{10A17}')
    || ('\u{10A19}' <= c && c <= '\u{10A35}') || ('\u{10A40}' <= c && c <= '\u{10A48}')
    || ('\u{10A50}' <= c && c <= '\u{10A58}') || ('\u{10A60}' <= c && c <= '\u{10A9F}')
    || ('\u{10AC0}' <= c && c <= '\u{10AE4}') || ('\u{10AEB}' <= c && c <= '\u{10AF6}')
    || ('\u{10B00}' <= c && c <= '\u{10B35}') || ('\u{10B40}' <= c && c <= '\u{10B55}')
    || ('\u{10B58}' <= c && c <= '\u{10B72}') || ('\u{10B78}' <= c && c <= '\u{10B91}')
    || ('\u{10B99}' <= c && c <= '\u{10B9C}') || ('\u{10BA9}' <= c && c <= '\u{10BAF}')
    || ('\u{10C00}' <= c && c <= '\u{10C48}') || ('\u{10C80}' <= c && c <= '\u{10CB2}')
    || ('\u{10CC0}' <= c && c <= '\u{10CF2}') || ('\u{10CFA}' <= c && c <= '\u{10D23}')
    || ('\u{10E80}' <= c && c <= '\u{10EA9}') || c == '\u{10EAD}'
    || ('\u{10EB0}' <= c && c <= '\u{10EB1}') || ('\u{10F00}' <= c && c <= '\u{10F27}')
    || ('\u{10F30}' <= c && c <= '\u{10F45}') || ('\u{10F51}' <= c && c <= '\u{10F59}')
    || ('\u{10F70}' <= c && c <= '\u{10F81}') || ('\u{10F86}' <= c && c <= '\u{10F89}')
    || ('\u{10FB0}' <= c && c <= '\u{10FCB}') || ('\u{10FE0}' <= c && c <= '\u{10FF6}')
    || ('\u{1E800}' <= c && c <= '\u{1E8C4}') || ('\u{1E8C7}' <= c && c <= '\u{1E8CF}')
    || ('\u{1E900}' <= c && c <= '\u{1E943}') || c == '\u{1E94B}'
    || ('\u{1E950}' <= c && c <= '\u{1E959}') || ('\u{1E95E}' <= c && c <= '\u{1E95F}')
    || ('\u{1EC71}' <= c && c <= '\u{1ECB4}') || ('\u{1ED01}' <= c && c <= '\u{1ED3D}')
    || ('\u{1EE00}' <= c && c <= '\u{1EE03}') || ('\u{1EE05}' <= c && c <= '\u{1EE1F}')
    || ('\u{1EE21}' <= c && c <= '\u{1EE22}') || c == '\u{1EE24}' || c == '\u{1EE27}'
    || ('\u{1EE29}' <= c && c <= '\u{1EE32}') || ('\u{1EE34}' <= c && c <= '\u{1EE37}')
    || c == '\u{1EE39}' || c == '\u{1EE3B}' || c == '\u{1EE42}' || c == '\u{1EE47}'
    || c == '\u{1EE49}' || c == '\u{1EE4B}' || ('\u{1EE4D}' <= c && c <= '\u{1EE4F}')
    || ('\u{1EE51}' <= c && c <= '\u{1EE52}') || c == '\u{1EE54}' || c == '\u{1EE57}'
    || c == '\u{1EE59}' || c == '\u{1EE5B}' || c == '\u{1EE5D}' || c == '\u{1EE5F}'
    || ('\u{1EE61}' <= c && c <= '\u{1EE62}') || c == '\u{1EE64}'
    || ('\u{1EE67}' <= c && c <= '\u{1EE6A}') || ('\u{1EE6C}' <= c && c <= '\u{1EE72}')
    || ('\u{1EE74}' <= c && c <= '\u{1EE77}') || ('\u{1EE79}' <= c && c <= '\u{1EE7C}')
    || c == '\u{1EE7E}' || ('\u{1EE80}' <= c && c <= '\u{1EE89}')
    || ('\u{1EE8B}' <= c && c <= '\u{1EE9B}') || ('\u{1EEA1}' <= c && c <= '\u{1EEA3}')
    || ('\u{1EEA5}' <= c && c <= '\u{1EEA9}') || ('\u{1EEAB}' <= c && c <= '\u{1EEBB}')
}

/// Hebrew points and Arabic harakat.
pub fn is_nonspacing_mark(c: char) -> (r: bool)
    ensures
        r == nonspacing_mark(c),
{
    ('\u{0591}' <= c && c <= '\u{05C7}') || ('\u{064B}' <= c && c <= '\u{065F}') || c
        == '\u{0670}' || ('\u{06D6}' <= c && c <= '\u{06ED}')
}

/// A glyph that starts a run: a right-to-left letter that takes up room.
/// Each glyph is its character and whether it is visible (has a width).
pub open spec fn starts_run(glyph: (char, bool)) -> bool {
    glyph.1 && right_to_left(glyph.0)
}

/// A glyph that carries a run on: visible, and a right-to-left letter or a
/// mark that rides along.
pub open spec fn continues_run(glyph: (char, bool)) -> bool {
    glyph.1 && (right_to_left(glyph.0) || nonspacing_mark(glyph.0))
}

/// Where a run that reaches position `i` ends: at the first glyph from `i`
/// on that does not carry it, or at the end of the row.
pub open spec fn run_end(glyphs: Seq<(char, bool)>, i: int) -> int
    decreases glyphs.len() - i,
{
    if 0 <= i < glyphs.len() && continues_run(glyphs[i]) {
        run_end(glyphs, i + 1)
    } else {
        i
    }
}

/// The right-to-left runs of a row from position `i` on, as start and end
/// (exclusive) positions, left to right.
pub open spec fn runs_from(glyphs: Seq<(char, bool)>, i: int) -> Seq<(int, int)>
    decreases glyphs.len() - i, 0int,
{
    if i < 0 || i >= glyphs.len() {
        Seq::empty()
    } else if starts_run(glyphs[i]) {
        let end = run_end(glyphs, i + 1);
        if i < end <= glyphs.len() {
            seq![(i, end)] + runs_from(glyphs, end)
        } else {
            Seq::empty()
        }
    } else {
        runs_from(glyphs, i + 1)
    }
}

proof fn lemma_run_end(glyphs: Seq<(char, bool)>, i: int)
    requires
        0 <= i <= glyphs.len(),
    ensures
        i <= run_end(glyphs, i) <= glyphs.len(),
    decreases glyphs.len() - i,
{
    if i < glyphs.len() && continues_run(glyphs[i]) {
        lemma_run_end(glyphs, i + 1);
    }
}

/// The runs of a row whose glyphs are to be reversed to read in logical
/// order: each starts at a visible right-to-left letter and takes in the
/// visible right-to-left letters and marks that follow it.
pub fn rtl_runs(glyphs: &[(char, bool)]) -> (r: Vec<(usize, usize)>)
    ensures
        r@.len() == runs_from(glyphs@, 0).len(),
        forall|k: int|
            0 <= k < r@.len() ==> (#[trigger] r@[k]).0 as int == runs_from(glyphs@, 0)[k].0
                && r@[k].1 as int == runs_from(glyphs@, 0)[k].1,
{
    let mut runs: Vec<(usize, usize)> = Vec::new();
    let ghost mut done: Seq<(int, int)> = Seq::empty();
    let mut index: usize = 0;
    while index < glyphs.len()
        invariant
            index <= glyphs@.len(),
            done + runs_from(glyphs@, index as int) == runs_from(glyphs@, 0),
            runs@.len() == done.len(),
            forall|k: int|
                0 <= k < runs@.len() ==> (#[trigger] runs@[k]).0 as int == done[k].0
                    && runs@[k].1 as int == done[k].1,
        decreases glyphs@.len() - index,
    {
        let (c, visible) = glyphs[index];
        if visible && is_rtl(c) {
            let start = index;
            index = index + 1;
            proof {
                lemma_run_end(glyphs@, index as int);
            }
            while index < glyphs.len() && glyphs[index].1 && (is_rtl(glyphs[index].0)
                || is_nonspacing_mark(glyphs[index].0))
                invariant
                    start < index <= glyphs@.len(),
                    run_end(glyphs@, index as int) == run_end(glyphs@, start + 1),
                decreases glyphs@.len() - index,
            {
                index = index + 1;
            }
            proof {
                let rest = runs_from(glyphs@, index as int);
                assert(runs_from(glyphs@, start as int) == seq![(start as int, index as int)]
                    + rest);
                assert(done + runs_from(glyphs@, start as int) == done.push(
                    (start as int, index as int),
                ) + rest);
                done = done.push((start as int, index as int));
            }
            runs.push((start, index));
        } else {
            index = index + 1;
        }
    }
    proof {
        assert(done + Seq::<(int, int)>::empty() =~= done);
    }
    runs
}

/// The characters Unicode 14.0 assigns the bidi class AL (Arabic letter):
/// the Arabic, Syriac, Thaana and related letters and their presentation
/// forms, from its character database.
pub open spec fn bidi_class_al(c: char) -> bool {
    c == '\u{608}' || c == '\u{60B}' || c == '\u{60D}'
    || ('\u{61B}' <= c && c <= '\u{64A}') || ('\u{66D}' <= c && c <= '\u{66F}') || ('\u{671}' <= c && c <= '\u{6D5}')
    || ('\u{6E5}' <= c && c <= '\u{6E6}') || ('\u{6EE}' <= c && c <= '\u{6EF}') || ('\u{6FA}' <= c && c <= '\u{70D}')
    || ('\u{70F}' <= c && c <= '\u{710}') || ('\u{712}' <= c && c <= '\u{72F}') || ('\u{74D}' <= c && c <= '\u{7A5}')
    || c == '\u{7B1}' || ('\u{860}' <= c && c <= '\u{86A}') || ('\u{870}' <= c && c <= '\u{88E}')
    || ('\u{8A0}' <= c && c <= '\u{8C9}') || ('\u{FB50}' <= c && c <= '\u{FBC2}') || ('\u{FBD3}' <= c && c <= '\u{FD3D}')
    || ('\u{FD50}' <= c && c <= '\u{FD8F}') || ('\u{FD92}' <= c && c <= '\u{FDC7}') || ('\u{FDF0}' <= c && c <= '\u{FDFC}')
    || ('\u{FE70}' <= c && c <= '\u{FE74}') || ('\u{FE76}' <= c && c <= '\u{FEFC}') || ('\u{10D00}' <= c && c <= '\u{10D23}')
    || ('\u{10F30}' <= c && c <= '\u{10F45}') || ('\u{10F51}' <= c && c <= '\u{10F59}') || ('\u{1EC71}' <= c && c <= '\u{1ECB4}')
    || ('\u{1ED01}' <= c && c <= '\u{1ED3D}') || ('\u{1EE00}' <= c && c <= '\u{1EE03}') || ('\u{1EE05}' <= c && c <= '\u{1EE1F}')
    || ('\u{1EE21}' <= c && c <= '\u{1EE22}') || c == '\u{1EE24}' || c == '\u{1EE27}'
    || ('\u{1EE29}' <= c && c <= '\u{1EE32}') || ('\u{1EE34}' <= c && c <= '\u{1EE37}') || c == '\u{1EE39}'
    || c == '\u{1EE3B}' || c == '\u{1EE42}' || c == '\u{1EE47}'
    || c == '\u{1EE49}' || c == '\u{1EE4B}' || ('\u{1EE4D}' <= c && c <= '\u{1EE4F}')
    || ('\u{1EE51}' <= c && c <= '\u{1EE52}') || c == '\u{1EE54}' || c == '\u{1EE57}'
    || c == '\u{1EE59}' || c == '\u{1EE5B}' || c == '\u{1EE5D}'
    || c == '\u{1EE5F}' || ('\u{1EE61}' <= c && c <= '\u{1EE62}') || c == '\u{1EE64}'
    || ('\u{1EE67}' <= c && c <= '\u{1EE6A}') || ('\u{1EE6C}' <= c && c <= '\u{1EE72}') || ('\u{1EE74}' <= c && c <= '\u{1EE77}')
    || ('\u{1EE79}' <= c && c <= '\u{1EE7C}') || c == '\u{1EE7E}' || ('\u{1EE80}' <= c && c <= '\u{1EE89}')
    || ('\u{1EE8B}' <= c && c <= '\u{1EE9B}') || ('\u{1EEA1}' <= c && c <= '\u{1EEA3}') || ('\u{1EEA5}' <= c && c <= '\u{1EEA9}')
    || ('\u{1EEAB}' <= c && c <= '\u{1EEBB}')
}

/// The characters Unicode 14.0 assigns the bidi class R (strong
/// right-to-left): Hebrew, NKo, Samaritan, Mandaic and the historic
/// right-to-left scripts, and the right-to-left mark.
pub open spec fn bidi_class_r(c: char) -> bool {
    c == '\u{5BE}' || c == '\u{5C0}' || c == '\u{5C3}'
    || c == '\u{5C6}' || ('\u{5D0}' <= c && c <= '\u{5EA}') || ('\u{5EF}' <= c && c <= '\u{5F4}')
    || ('\u{7C0}' <= c && c <= '\u{7EA}') || ('\u{7F4}' <= c && c <= '\u{7F5}') || c == '\u{7FA}'
    || ('\u{7FE}' <= c && c <= '\u{815}') || c == '\u{81A}' || c == '\u{824}'
    || c == '\u{828}' || ('\u{830}' <= c && c <= '\u{83E}') || ('\u{840}' <= c && c <= '\u{858}')
    || c == '\u{85E}' || c == '\u{200F}' || c == '\u{FB1D}'
    || ('\u{FB1F}' <= c && c <= '\u{FB28}') || ('\u{FB2A}' <= c && c <= '\u{FB36}') || ('\u{FB38}' <= c && c <= '\u{FB3C}')
    || c == '\u{FB3E}' || ('\u{FB40}' <= c && c <= '\u{FB41}') || ('\u{FB43}' <= c && c <= '\u{FB44}')
    || ('\u{FB46}' <= c && c <= '\u{FB4F}') || ('\u{10800}' <= c && c <= '\u{10805}') || c == '\u{10808}'
    || ('\u{1080A}' <= c && c <= '\u{10835}') || ('\u{10837}' <= c && c <= '\u{10838}') || c == '\u{1083C}'
    || ('\u{1083F}' <= c && c <= '\u{10855}') || ('\u{10857}' <= c && c <= '\u{1089E}') || ('\u{108A7}' <= c && c <= '\u{108AF}')
    || ('\u{108E0}' <= c && c <= '\u{108F2}') || ('\u{108F4}' <= c && c <= '\u{108F5}') || ('\u{108FB}' <= c && c <= '\u{1091B}')
    || ('\u{10920}' <= c && c <= '\u{10939}') || c == '\u{1093F}' || ('\u{10980}' <= c && c <= '\u{109B7}')
    || ('\u{109BC}' <= c && c <= '\u{109CF}') || ('\u{109D2}' <= c && c <= '\u{10A00}') || ('\u{10A10}' <= c && c <= '\u{10A13}')
    || ('\u{10A15}' <= c && c <= '\u{10A17}') || ('\u{10A19}' <= c && c <= '\u{10A35}') || ('\u{10A40}' <= c && c <= '\u{10A48}')
    || ('\u{10A50}' <= c && c <= '\u{10A58}') || ('\u{10A60}' <= c && c <= '\u{10A9F}') || ('\u{10AC0}' <= c && c <= '\u{10AE4}')
    || ('\u{10AEB}' <= c && c <= '\u{10AF6}') || ('\u{10B00}' <= c && c <= '\u{10B35}') || ('\u{10B40}' <= c && c <= '\u{10B55}')
    || ('\u{10B58}' <= c && c <= '\u{10B72}') || ('\u{10B78}' <= c && c <= '\u{10B91}') || ('\u{10B99}' <= c && c <= '\u{10B9C}')
    || ('\u{10BA9}' <= c && c <= '\u{10BAF}') || ('\u{10C00}' <= c && c <= '\u{10C48}') || ('\u{10C80}' <= c && c <= '\u{10CB2}')
    || ('\u{10CC0}' <= c && c <= '\u{10CF2}') || ('\u{10CFA}' <= c && c <= '\u{10CFF}') || ('\u{10E80}' <= c && c <= '\u{10EA9}')
    || c == '\u{10EAD}' || ('\u{10EB0}' <= c && c <= '\u{10EB1}') || ('\u{10F00}' <= c && c <= '\u{10F27}')
    || ('\u{10F70}' <= c && c <= '\u{10F81}') || ('\u{10F86}' <= c && c <= '\u{10F89}') || ('\u{10FB0}' <= c && c <= '\u{10FCB}')
    || ('\u{10FE0}' <= c && c <= '\u{10FF6}') || ('\u{1E800}' <= c && c <= '\u{1E8C4}') || ('\u{1E8C7}' <= c && c <= '\u{1E8CF}')
    || ('\u{1E900}' <= c && c <= '\u{1E943}') || c == '\u{1E94B}' || ('\u{1E950}' <= c && c <= '\u{1E959}')
    || ('\u{1E95E}' <= c && c <= '\u{1E95F}')
}

/// A character counts as right-to-left exactly when Unicode gives it the
/// bidi class R or AL: every Arabic, Persian or Urdu letter and every
/// Hebrew letter does, and no mark, digit or neutral does.
pub proof fn right_to_left_means_classes_r_and_al(c: char)
    ensures
        right_to_left(c) <==> bidi_class_r(c) || bidi_class_al(c),
{
}

} // verus!
