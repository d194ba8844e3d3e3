//! The fixed 16-entry palette mapping color indices to true-color triples.
//! It is a presentation-time lookup table only; the framebuffer itself
//! stores indices, never colors.

use vstd::prelude::*;

verus! {

/// The red/green/blue triple assigned to each of the 16 color indices.
pub open spec fn palette_spec(i: int) -> (u8, u8, u8) {
    if i == 0 {
        (0, 0, 0)
    } else if i == 1 {
        (29, 43, 83)
    } else if i == 2 {
        (126, 37, 83)
    } else if i == 3 {
        (0, 135, 81)
    } else if i == 4 {
        (171, 82, 54)
    } else if i == 5 {
        (95, 87, 79)
    } else if i == 6 {
        (194, 195, 199)
    } else if i == 7 {
        (255, 241, 232)
    } else if i == 8 {
        (255, 0, 77)
    } else if i == 9 {
        (255, 163, 0)
    } else if i == 10 {
        (255, 236, 39)
    } else if i == 11 {
        (0, 228, 54)
    } else if i == 12 {
        (41, 173, 255)
    } else if i == 13 {
        (131, 118, 156)
    } else if i == 14 {
        (255, 119, 168)
    } else {
        (255, 204, 170)
    }
}

/// Look up the true-color triple for a palette index. Indices outside the
/// palette are a caller-contract violation and are excluded up front.
pub fn palette_rgb(i: u8) -> (c: (u8, u8, u8))
    requires
        i < 16,
    ensures
        c == palette_spec(i as int),
{
    match i {
        0 => (0, 0, 0),
        1 => (29, 43, 83),
        2 => (126, 37, 83),
        3 => (0, 135, 81),
        4 => (171, 82, 54),
        5 => (95, 87, 79),
        6 => (194, 195, 199),
        7 => (255, 241, 232),
        8 => (255, 0, 77),
        9 => (255, 163, 0),
        10 => (255, 236, 39),
        11 => (0, 228, 54),
        12 => (41, 173, 255),
        13 => (131, 118, 156),
        14 => (255, 119, 168),
        _ => (255, 204, 170),
    }
}

} // verus!
