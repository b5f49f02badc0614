use rand::Rng;
use vstd::prelude::*;
use crate::model::{Cell, CellRoll, Drip, Grid, Spawn, PRINTABLE_CHARACTERS};
use crate::sim::{drips_in_grid, lemma_drips_descend, lemma_glyphs_permanent, spawns_in_grid, step, step_cells, step_drips};

verus! {

/// Relies on rand::Rng::gen_range on rand::thread_rng: a value in
/// `lo..=hi`; it panics on an empty range, which `requires` leaves out.
#[verifier::external_body]
fn gen_inclusive(lo: usize, hi: usize) -> (r: usize)
    requires
        lo <= hi,
    ensures
        lo <= r <= hi,
{
    rand::thread_rng().gen_range(lo..=hi)
}

/// A random number in `1..=n`.
pub fn rnd(n: usize) -> (r: usize)
    requires
        n >= 1,
    ensures
        1 <= r <= n,
{
    gen_inclusive(1, n)
}

/// A random head kind: `true` for a bright drip.
pub fn rnd_bin() -> (r: bool) {
    rnd(2) == 2
}

/// Whether `g` is a glyph that a blank cell can be given.
pub open spec fn is_glyph(g: u8) -> bool {
    34 <= g <= 33 + PRINTABLE_CHARACTERS
}

/// A random glyph.
pub fn rnd_char() -> (r: u8)
    ensures
        is_glyph(r),
{
    (33 + rnd(PRINTABLE_CHARACTERS as usize)) as u8
}

/// A random percent roll in `1..=100`.
fn rnd_percent() -> (r: u32)
    ensures
        1 <= r <= 100,
{
    rnd(100) as u32
}

/// Draws a spawn position and head kind for each of `n` slots of a `w` by
/// `h` grid.
pub fn draw_spawns(n: usize, w: usize, h: usize) -> (r: Vec<Spawn>)
    requires
        w >= 1,
        h >= 1,
    ensures
        r@.len() == n,
        spawns_in_grid(r@, w as int, h as int),
{
    let mut r: Vec<Spawn> = Vec::new();
    let mut i: usize = 0;
    while i < n
        invariant
            i <= n,
            w >= 1,
            h >= 1,
            r@.len() == i,
            spawns_in_grid(r@, w as int, h as int),
        decreases n - i,
    {
        let x = rnd(w) - 1;
        let y = rnd(h) - 1;
        let bright = rnd_bin();
        r.push(Spawn { x, y, bright });
        i += 1;
    }
    r
}

/// Draws the two percent rolls and the glyph for each of `n` cells.
pub fn draw_rolls(n: usize) -> (r: Vec<CellRoll>)
    ensures
        r@.len() == n,
        forall|i: int|
            0 <= i < n ==> 1 <= (#[trigger] r@[i]).change <= 100 && 1 <= r@[i].dim <= 100
                && is_glyph(r@[i].glyph),
{
    let mut r: Vec<CellRoll> = Vec::new();
    let mut i: usize = 0;
    while i < n
        invariant
            i <= n,
            r@.len() == i,
            forall|k: int|
                0 <= k < i ==> 1 <= (#[trigger] r@[k]).change <= 100 && 1 <= r@[k].dim <= 100
                    && is_glyph(r@[k].glyph),
        decreases n - i,
    {
        let change = rnd_percent();
        let glyph = rnd_char();
        let dim = rnd_percent();
        r.push(CellRoll { change, dim, glyph });
        i += 1;
    }
    r
}

/// One frame with fresh random draws: the spawn gate is rolled once, then
/// the frame runs as `step` says with the values drawn. Whatever was drawn,
/// the grid stays well formed, glyphs once given stay, and each live drip
/// moves down exactly one row.
pub fn matrix_update(drips: &mut Vec<Drip>, grid: &mut Grid)
    requires
        old(grid).wf(),
        drips_in_grid(old(drips)@, old(grid).width as int, old(grid).height as int),
    ensures
        final(grid).wf(),
        final(grid).width == old(grid).width,
        final(grid).height == old(grid).height,
        drips_in_grid(final(drips)@, old(grid).width as int, old(grid).height as int),
        forall|i: int|
            0 <= i < old(grid).cells@.len() && (#[trigger] old(grid).cells@[i]).glyph.is_some()
                ==> final(grid).cells@[i].glyph == old(grid).cells@[i].glyph,
        final(drips)@.len() == old(drips)@.len(),
        forall|i: int|
            0 <= i < old(drips)@.len() && (#[trigger] old(drips)@[i]).live ==> {
                &&& final(drips)@[i].y == old(drips)@[i].y + 1
                &&& final(drips)@[i].x == old(drips)@[i].x
                &&& final(drips)@[i].bright == old(drips)@[i].bright
                &&& final(drips)@[i].live == (old(drips)@[i].y + 1 < old(grid).height)
            },
        exists|gate: u32, ss: Seq<Spawn>, rs: Seq<CellRoll>|
            {
                &&& ss.len() == old(drips)@.len()
                &&& spawns_in_grid(ss, old(grid).width as int, old(grid).height as int)
                &&& 1 <= gate <= 100
                &&& rs.len() == old(grid).cells@.len()
                &&& forall|i: int| 0 <= i < rs.len() ==> is_glyph((#[trigger] rs[i]).glyph)
                &&& final(drips)@ == step_drips(old(drips)@, old(grid).height as int, gate, ss)
                &&& final(grid).cells@ == #[trigger] step_cells(
                    old(grid).cells@,
                    old(grid).height as int,
                    old(drips)@,
                    gate,
                    ss,
                    rs,
                )
            },
{
    let gate = rnd_percent();
    let spawns = draw_spawns(drips.len(), grid.width, grid.height);
    let rolls = draw_rolls(grid.cells.len());
    let ghost d0 = drips@;
    let ghost c0 = grid.cells@;
    proof {
        lemma_glyphs_permanent(c0, grid.width as int, grid.height as int, d0, gate, spawns@, rolls@);
        lemma_drips_descend(grid.width as int, grid.height as int, d0, gate, spawns@);
    }
    step(drips, grid, gate, &spawns, &rolls);
    assert(grid.cells@ == step_cells(c0, grid.height as int, d0, gate, spawns@, rolls@));
}

} // verus!
