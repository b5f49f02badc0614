use vstd::prelude::*;
use crate::model::{Cell, MAX_INTENSITY};

verus! {

/// The colour ramp: the colour pair used for each brightness.
pub open spec fn color_ramp() -> Seq<i16> {
    seq![1, 2, 2, 3, 3, 3, 4, 4, 4, 4, 4, 5, 3, 6]
}

/// The colour pair that shows a cell of brightness `intensity`.
pub fn color_of(intensity: u8) -> (r: i16)
    requires
        intensity <= MAX_INTENSITY,
    ensures
        r == color_ramp()[intensity as int],
{
    let ramp: Vec<i16> = vec![1, 2, 2, 3, 3, 3, 4, 4, 4, 4, 4, 5, 3, 6];
    assert(ramp@ =~= color_ramp());
    ramp[intensity as usize]
}

/// The character code that shows a cell: its glyph, or a space when it has none.
pub fn glyph_code(c: Cell) -> (r: u8)
    ensures
        r == match c.glyph {
            Some(g) => g,
            None => 32u8,
        },
{
    match c.glyph {
        Some(g) => g,
        None => 32,
    }
}

} // verus!
