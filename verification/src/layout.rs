//! Screen regions and the vertical percentage split that assigns each
//! component its region.
//!
//! The component regions are computed from a 10/40/50 vertical split of the
//! terminal size, once at startup and again on every `Resize` action.

use vstd::prelude::*;
use vstd::arithmetic::div_mod::{lemma_div_pos_is_pos, lemma_fundamental_div_mod};

verus! {

/// A rectangular screen region.
#[derive(Clone, Copy, Debug, PartialEq, Eq, Structural)]
pub struct Rect {
    pub x: u16,
    pub y: u16,
    pub width: u16,
    pub height: u16,
}

/// `p` percent of `h`, rounded down.
pub open spec fn pct(h: int, p: int) -> int {
    h * p / 100
}

/// The three regions of the 10/40/50 vertical split of `area`: stacked top
/// to bottom, full width, with the last taking what the rounding leaves.
pub open spec fn split3_rects(area: Rect) -> Seq<Rect> {
    let h0 = pct(area.height as int, 10);
    let h1 = pct(area.height as int, 40);
    seq![
        Rect { x: area.x, y: area.y, width: area.width, height: h0 as u16 },
        Rect { x: area.x, y: (area.y + h0) as u16, width: area.width, height: h1 as u16 },
        Rect {
            x: area.x,
            y: (area.y + h0 + h1) as u16,
            width: area.width,
            height: (area.height - h0 - h1) as u16,
        },
    ]
}

/// The rounded percentages fit: each part is non-negative and the first
/// two together never exceed the whole.
pub proof fn lemma_split3_fits(h: int)
    requires
        0 <= h,
    ensures
        0 <= pct(h, 10) <= h,
        0 <= pct(h, 40) <= h,
        pct(h, 10) + pct(h, 40) <= h,
{
    lemma_div_pos_is_pos(h * 10, 100);
    lemma_div_pos_is_pos(h * 40, 100);
    lemma_fundamental_div_mod(h * 10, 100);
    lemma_fundamental_div_mod(h * 40, 100);
}

/// Splits `area` vertically into the 10/40/50 regions, top to bottom.
pub fn split_vertical(area: Rect) -> (r: Vec<Rect>)
    requires
        area.y as int + area.height as int <= 65535,
    ensures
        r@ == split3_rects(area),
        r@.len() == 3,
        r@[0].height as int == pct(area.height as int, 10),
        r@[1].height as int == pct(area.height as int, 40),
        r@[0].height as int + r@[1].height as int + r@[2].height as int == area.height as int,
{
    proof {
        lemma_split3_fits(area.height as int);
    }
    let hh: u32 = area.height as u32;
    let h0: u16 = (hh * 10 / 100) as u16;
    let h1: u16 = (hh * 40 / 100) as u16;
    let h2: u16 = area.height - h0 - h1;
    let mut r: Vec<Rect> = Vec::new();
    r.push(Rect { x: area.x, y: area.y, width: area.width, height: h0 });
    r.push(Rect { x: area.x, y: area.y + h0, width: area.width, height: h1 });
    r.push(Rect { x: area.x, y: area.y + h0 + h1, width: area.width, height: h2 });
    proof {
        assert(r@ =~= split3_rects(area));
    }
    r
}

} // verus!
