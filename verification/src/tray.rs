//! The status-notifier tray item: its commands, and its icon in the byte
//! order the tray protocol wants.

use vstd::prelude::*;

verus! {

#[derive(Clone, Copy, Debug, PartialEq, Eq)]
pub enum TrayCommand {
    Show,
    ShowHide,
    Quit,
}

/// RGBA pixels rewritten as ARGB32 in network byte order; a trailing
/// partial pixel is dropped.
pub open spec fn argb_of(rgba: Seq<u8>) -> Seq<u8>
    decreases rgba.len(),
{
    if rgba.len() < 4 {
        Seq::empty()
    } else {
        seq![rgba[3], rgba[0], rgba[1], rgba[2]] + argb_of(rgba.skip(4))
    }
}

/// The icon's pixels as the tray protocol wants them.
pub fn argb_pixels(rgba: &[u8]) -> (r: Vec<u8>)
    ensures
        r@ == argb_of(rgba@),
{
    let mut data: Vec<u8> = Vec::new();
    let mut i: usize = 0;
    assert(rgba@.skip(0) =~= rgba@);
    while rgba.len() - i >= 4
        invariant
            i <= rgba@.len(),
            rgba@.len() == rgba.len(),
            data@ + argb_of(rgba@.skip(i as int)) == argb_of(rgba@),
        decreases rgba@.len() - i,
    {
        let ghost rest = rgba@.skip(i as int);
        assert(rest.skip(4) =~= rgba@.skip(i + 4));
        let ghost before = data@;
        data.push(rgba[i + 3]);
        data.push(rgba[i]);
        data.push(rgba[i + 1]);
        data.push(rgba[i + 2]);
        assert(data@ =~= before + seq![rest[3], rest[0], rest[1], rest[2]]);
        i = i + 4;
    }
    assert(argb_of(rgba@.skip(i as int)) =~= Seq::<u8>::empty());
    assert(data@ + Seq::<u8>::empty() =~= data@);
    data
}

} // verus!
