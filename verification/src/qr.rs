//! The pairing QR code, as a square of dark and light modules.

use vstd::prelude::*;

verus! {

/// The quiet zone the QR specification asks for, in modules.
pub const QUIET: usize = 4;

/// The QR code `qrcode::QrCode::new` builds for some bytes: its width in
/// modules and whether each module, row by row, is dark.
pub uninterp spec fn qr_code(data: Seq<u8>) -> Option<(usize, Seq<bool>)>;

/// `qrcode::QrCode::new` (medium error correction, the smallest version
/// that fits), read out as the width and the modules. The code is the one
/// named for the bytes; the crate only picks versions 1 to 40, whose width
/// is 17 plus four per version, and its canvas holds width × width modules.
/// The outer corners of the three finder patterns are dark, as the canvas
/// draws them and no mask touches them. For which data the encoder
/// succeeds is left unsaid: it rests on its segment optimiser and the
/// checks along its way, not on a bound its source states.
#[verifier::external_body]
fn qr_modules(data: &[u8]) -> (r: Option<(usize, Vec<bool>)>)
    ensures
        r matches Some((width, dark)) ==> qr_code(data@) == Some((width, dark@)),
        r is None ==> qr_code(data@) is None,
        r matches Some((width, dark)) ==> 21 <= width <= 177 && (width - 17) % 4 == 0
            && dark@.len() == width * width,
        r matches Some((width, dark)) ==> dark@[0] && dark@[width - 1] && dark@[(width - 1) * width],
{
    let code = qrcode::QrCode::new(data).ok()?;
    let dark = code.to_colors().into_iter().map(|color| color == qrcode::Color::Dark).collect();
    Some((code.width(), dark))
}

/// A QR code ready to paint.
#[derive(Clone, Debug, PartialEq)]
pub struct Qr {
    pub width: usize,
    /// Row by row, whether each module is dark.
    pub dark: Vec<bool>,
}

impl Qr {
    /// Whether the module at column `x` of row `y` is dark.
    pub open spec fn dark_at(self, x: int, y: int) -> bool {
        self.dark@[y * self.width + x]
    }

    pub open spec fn wf(self) -> bool {
        21 <= self.width <= 177 && self.dark@.len() == self.width * self.width
    }

    /// The code for a linking string, or `None` when it does not fit.
    pub fn encode(text: &str) -> (r: Option<Self>)
        ensures
            r matches Some(qr) ==> qr.wf() && qr_code(vstd::utf8::encode_utf8(text@)) == Some(
                (qr.width, qr.dark@),
            ),
            r matches Some(qr) ==> qr.dark_at(0, 0) && qr.dark_at(qr.width - 1, 0) && qr.dark_at(
                0,
                qr.width - 1,
            ),
            r is None ==> qr_code(vstd::utf8::encode_utf8(text@)) is None,
    {
        match qr_modules(text.as_bytes()) {
            Some((width, dark)) => Some(Qr { width, dark }),
            None => None,
        }
    }

    /// How many modules a side takes with the quiet zone around it.
    pub fn total_width(&self) -> (r: usize)
        requires
            self.wf(),
        ensures
            r == self.width + 2 * QUIET,
    {
        self.width + 2 * QUIET
    }

    /// Whether the module at column `x` of row `y` is dark.
    pub fn is_dark(&self, x: usize, y: usize) -> (r: bool)
        requires
            self.wf(),
            x < self.width,
            y < self.width,
        ensures
            r == self.dark_at(x as int, y as int),
    {
        let width = self.width;
        assert(y * width + x < width * width && width * width <= 177 * 177) by (nonlinear_arith)
            requires
                x < width,
                y < width,
                width <= 177,
        ;
        self.dark[y * self.width + x]
    }

    #[verifier::loop_isolation(false)]
    /// The dark stretches of row `y`, as (first column, column after the
    /// last) pairs from left to right: what the painter fills.
    pub fn dark_runs(&self, y: usize) -> (r: Vec<(usize, usize)>)
        requires
            self.wf(),
            y < self.width,
        ensures
            forall|k: int|
                0 <= k < r@.len() ==> {
                    let (start, end) = #[trigger] r@[k];
                    &&& start < end <= self.width
                    &&& forall|x: int|
                        start <= x < end ==> #[trigger] self.dark_at(x, y as int)
                    &&& (start > 0 ==> !self.dark_at(start - 1, y as int))
                    &&& (end < self.width ==> !self.dark_at(end as int, y as int))
                },
            forall|k: int| 0 <= k < r@.len() - 1 ==> r@[k].1 < r@[k + 1].0,
            forall|x: int|
                0 <= x < self.width && #[trigger] self.dark_at(x, y as int) ==> exists|k: int|
                    0 <= k < r@.len() && r@[k].0 <= x < #[trigger] r@[k].1,
    {
        let mut runs: Vec<(usize, usize)> = Vec::new();
        let mut x: usize = 0;
        while x < self.width
            invariant
                self.wf(),
                y < self.width,
                x <= self.width,
                forall|k: int|
                    0 <= k < runs@.len() ==> {
                        let (start, end) = #[trigger] runs@[k];
                        &&& start < end <= x
                        &&& forall|i: int|
                            start <= i < end ==> #[trigger] self.dark_at(i, y as int)
                        &&& (start > 0 ==> !self.dark_at(start - 1, y as int))
                        &&& (end < self.width ==> !self.dark_at(end as int, y as int))
                    },
                forall|k: int| 0 <= k < runs@.len() - 1 ==> runs@[k].1 < runs@[k + 1].0,
                runs@.len() > 0 ==> runs@.last().1 <= x,
                runs@.len() > 0 && runs@.last().1 == x && x < self.width ==> !self.dark_at(
                    x as int,
                    y as int,
                ),
                forall|i: int|
                    0 <= i < x && #[trigger] self.dark_at(i, y as int) ==> exists|k: int|
                        0 <= k < runs@.len() && runs@[k].0 <= i < #[trigger] runs@[k].1,
            decreases self.width - x,
        {
            if !self.is_dark(x, y) {
                x = x + 1;
                continue;
            }
            let start = x;
            while x < self.width && self.is_dark(x, y)
                invariant
                    self.wf(),
                    y < self.width,
                    start <= x <= self.width,
                    forall|i: int| start <= i < x ==> #[trigger] self.dark_at(i, y as int),
                decreases self.width - x,
            {
                x = x + 1;
            }
            let ghost before = runs@;
            runs.push((start, x));
            assert forall|i: int|
                0 <= i < x && #[trigger] self.dark_at(i, y as int) implies exists|k: int|
                0 <= k < runs@.len() && runs@[k].0 <= i < #[trigger] runs@[k].1 by {
                if i < start {
                    let k = choose|k: int| 0 <= k < before.len() && before[k].0 <= i < #[trigger] before[k].1;
                    assert(runs@[k] == before[k]);
                    assert(runs@[k].0 <= i < runs@[k].1);
                } else {
                    let last = runs@.len() - 1;
                    assert(runs@[last] == (start, x));
                    assert(forall|j: int| start <= j < x ==> #[trigger] self.dark_at(j, y as int));
                    assert(runs@[last].0 <= i < runs@[last].1);
                }
            }
        }
        runs
    }
}

} // verus!
