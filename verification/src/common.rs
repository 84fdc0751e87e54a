//! What both engines share: the two sub-iterations, the connectivity numbers
//! of a ring of eight neighbours, and the direct deletion rule.
//!
//! The neighbours are always named `p2` to `p9` and listed clockwise from the
//! north: `p2` = north, `p3` = north-east, `p4` = east, `p5` = south-east,
//! `p6` = south, `p7` = south-west, `p8` = west, `p9` = north-west.

use vstd::prelude::*;

verus! {

/// Which of the two alternating sub-iterations of a thinning pass is running.
#[derive(Clone, Copy, Debug, PartialEq, Eq, Structural)]
pub enum SubIter {
    First,
    Second,
}

impl SubIter {
    /// The sub-iteration that follows this one.
    pub open spec fn other(self) -> SubIter {
        match self {
            SubIter::First => SubIter::Second,
            SubIter::Second => SubIter::First,
        }
    }
}

/// 1 for a foreground pixel, 0 for a background pixel.
pub open spec fn bit(p: bool) -> int {
    if p {
        1
    } else {
        0
    }
}

/// 1 where a walk steps from background `a` to foreground `b`, else 0.
pub open spec fn rise(a: bool, b: bool) -> int {
    if !a && b {
        1
    } else {
        0
    }
}

/// The neighbour count: how many of the eight neighbours are foreground.
pub open spec fn neighbor_count(
    p2: bool,
    p3: bool,
    p4: bool,
    p5: bool,
    p6: bool,
    p7: bool,
    p8: bool,
    p9: bool,
) -> int {
    bit(p2) + bit(p3) + bit(p4) + bit(p5) + bit(p6) + bit(p7) + bit(p8) + bit(p9)
}

/// The crossing number: how many steps from background to foreground the
/// closed walk `p2`, `p3`, ..., `p9`, `p2` makes. This is the number of maximal
/// runs of foreground around the ring, but for a ring that is all foreground,
/// where it is 0.
pub open spec fn crossing_number(
    p2: bool,
    p3: bool,
    p4: bool,
    p5: bool,
    p6: bool,
    p7: bool,
    p8: bool,
    p9: bool,
) -> int {
    rise(p2, p3) + rise(p3, p4) + rise(p4, p5) + rise(p5, p6) + rise(p6, p7) + rise(p7, p8)
        + rise(p8, p9) + rise(p9, p2)
}

/// The corner condition of a sub-iteration. The first one spares a pixel whose
/// north, east and south neighbours, or east, south and west neighbours, are
/// all foreground; the second one does so for north, east and west, and for
/// north, south and west.
pub open spec fn corners_clear(mode: SubIter, p2: bool, p4: bool, p6: bool, p8: bool) -> bool {
    match mode {
        SubIter::First => !(p2 && p4 && p6) && !(p4 && p6 && p8),
        SubIter::Second => !(p2 && p4 && p8) && !(p2 && p6 && p8),
    }
}

/// The direct deletion rule: a foreground pixel with these neighbours is
/// deleted in sub-iteration `mode` if and only if it has two to six foreground
/// neighbours, one crossing, and clear corners.
pub open spec fn standard_rule(
    mode: SubIter,
    p2: bool,
    p3: bool,
    p4: bool,
    p5: bool,
    p6: bool,
    p7: bool,
    p8: bool,
    p9: bool,
) -> bool {
    &&& 2 <= neighbor_count(p2, p3, p4, p5, p6, p7, p8, p9) <= 6
    &&& crossing_number(p2, p3, p4, p5, p6, p7, p8, p9) == 1
    &&& corners_clear(mode, p2, p4, p6, p8)
}

/// The crossing number and the neighbour count of a ring of neighbours, in
/// this order.
pub fn calculate_ap_and_bp(
    p2: bool,
    p3: bool,
    p4: bool,
    p5: bool,
    p6: bool,
    p7: bool,
    p8: bool,
    p9: bool,
) -> (numbers: (usize, usize))
    ensures
        numbers.0 == crossing_number(p2, p3, p4, p5, p6, p7, p8, p9),
        numbers.1 == neighbor_count(p2, p3, p4, p5, p6, p7, p8, p9),
{
    let mut b_p: usize = 0;
    if p2 {
        b_p = b_p + 1;
    }
    if p3 {
        b_p = b_p + 1;
    }
    if p4 {
        b_p = b_p + 1;
    }
    if p5 {
        b_p = b_p + 1;
    }
    if p6 {
        b_p = b_p + 1;
    }
    if p7 {
        b_p = b_p + 1;
    }
    if p8 {
        b_p = b_p + 1;
    }
    if p9 {
        b_p = b_p + 1;
    }
    // Once around the ring, and from p9 back to p2.
    let mut a_p: usize = 0;
    if !p2 && p3 {
        a_p = a_p + 1;
    }
    if !p3 && p4 {
        a_p = a_p + 1;
    }
    if !p4 && p5 {
        a_p = a_p + 1;
    }
    if !p5 && p6 {
        a_p = a_p + 1;
    }
    if !p6 && p7 {
        a_p = a_p + 1;
    }
    if !p7 && p8 {
        a_p = a_p + 1;
    }
    if !p8 && p9 {
        a_p = a_p + 1;
    }
    if !p9 && p2 {
        a_p = a_p + 1;
    }
    (a_p, b_p)
}

} // verus!
