use vstd::prelude::*;
use crate::model::{Cell, CellRoll, Drip, Grid, Spawn, intensities_bounded, lemma_index_in_grid};
use crate::model::{MAX_INTENSITY, MIN_INTENSITY, PROB_CHANGE, PROB_DIM, PROB_DRIP_SPAWN};

verus! {

/// Brightness that a live drip gives the cell under its head.
pub open spec fn stamp_value(d: Drip) -> u8 {
    if d.bright { MAX_INTENSITY } else { MIN_INTENSITY }
}

/// The cells after drip `d` has lit the cell under its head (a grid of height `h`).
pub open spec fn stamp(cells: Seq<Cell>, h: int, d: Drip) -> Seq<Cell> {
    if d.live {
        let i = d.x * h + d.y;
        cells.update(i, Cell { glyph: cells[i].glyph, intensity: stamp_value(d) })
    } else {
        cells
    }
}

/// The cells after every drip of `ds`, in order, has lit its cell.
pub open spec fn stamp_all(cells: Seq<Cell>, h: int, ds: Seq<Drip>) -> Seq<Cell>
    decreases ds.len(),
{
    if ds.len() == 0 {
        cells
    } else {
        stamp(stamp_all(cells, h, ds.drop_last()), h, ds.last())
    }
}

/// A drip after one tick: a live one moves down a row and dies on leaving the grid.
pub open spec fn advanced(d: Drip, h: int) -> Drip {
    if d.live {
        Drip { x: d.x, y: (d.y + 1) as usize, live: d.y + 1 < h, bright: d.bright }
    } else {
        d
    }
}

pub open spec fn advanced_all(ds: Seq<Drip>, h: int) -> Seq<Drip> {
    Seq::new(ds.len(), |i: int| advanced(ds[i], h))
}

/// A slot after a spawn pass: a dead one comes alive where `s` says.
pub open spec fn respawned(d: Drip, s: Spawn) -> Drip {
    if d.live {
        d
    } else {
        Drip { x: s.x, y: s.y, live: true, bright: s.bright }
    }
}

pub open spec fn respawned_all(ds: Seq<Drip>, ss: Seq<Spawn>) -> Seq<Drip> {
    Seq::new(ds.len(), |i: int| respawned(ds[i], ss[i]))
}

/// Whether a percent roll opens the spawn gate.
pub open spec fn gate_opens(gate: u32) -> bool {
    gate < PROB_DRIP_SPAWN
}

/// The pool after the spawn gate was rolled.
pub open spec fn gated(ds: Seq<Drip>, gate: u32, ss: Seq<Spawn>) -> Seq<Drip> {
    if gate_opens(gate) { respawned_all(ds, ss) } else { ds }
}

/// A cell after one fade pass with the values `r` drawn for it.
pub open spec fn faded(c: Cell, r: CellRoll) -> Cell {
    Cell {
        glyph: if r.change < PROB_CHANGE && c.glyph.is_none() { Some(r.glyph) } else { c.glyph },
        intensity: if r.dim < PROB_DIM && c.intensity > 0 {
            (c.intensity - 1) as u8
        } else {
            c.intensity
        },
    }
}

pub open spec fn faded_all(cells: Seq<Cell>, rs: Seq<CellRoll>) -> Seq<Cell> {
    Seq::new(cells.len(), |i: int| faded(cells[i], rs[i]))
}

/// The pool after one frame.
pub open spec fn step_drips(ds: Seq<Drip>, h: int, gate: u32, ss: Seq<Spawn>) -> Seq<Drip> {
    advanced_all(gated(ds, gate, ss), h)
}

/// The cells after one frame.
pub open spec fn step_cells(
    cells: Seq<Cell>,
    h: int,
    ds: Seq<Drip>,
    gate: u32,
    ss: Seq<Spawn>,
    rs: Seq<CellRoll>,
) -> Seq<Cell> {
    faded_all(stamp_all(cells, h, gated(ds, gate, ss)), rs)
}

/// Every live drip of `ds` is inside a `w` by `h` grid.
pub open spec fn drips_in_grid(ds: Seq<Drip>, w: int, h: int) -> bool {
    forall|i: int| 0 <= i < ds.len() && (#[trigger] ds[i]).live ==> ds[i].x < w && ds[i].y < h
}

/// Every spawn of `ss` is inside a `w` by `h` grid.
pub open spec fn spawns_in_grid(ss: Seq<Spawn>, w: int, h: int) -> bool {
    forall|i: int| 0 <= i < ss.len() ==> (#[trigger] ss[i]).x < w && ss[i].y < h
}

proof fn lemma_stamp_all_len(cells: Seq<Cell>, w: int, h: int, ds: Seq<Drip>)
    requires
        w >= 1,
        h >= 1,
        cells.len() == w * h,
        drips_in_grid(ds, w, h),
        intensities_bounded(cells),
    ensures
        stamp_all(cells, h, ds).len() == cells.len(),
        intensities_bounded(stamp_all(cells, h, ds)),
        forall|i: int| 0 <= i < cells.len() ==> (#[trigger] stamp_all(cells, h, ds)[i]).glyph
            == cells[i].glyph,
    decreases ds.len(),
{
    if ds.len() > 0 {
        let p = ds.drop_last();
        assert forall|i: int| 0 <= i < p.len() && (#[trigger] p[i]).live implies p[i].x < w
            && p[i].y < h by {
            assert(p[i] == ds[i]);
        }
        lemma_stamp_all_len(cells, w, h, p);
        let d = ds.last();
        assert(ds[ds.len() - 1] == d);
        if d.live {
            lemma_index_in_grid(d.x as int, d.y as int, w, h);
        }
        let q = stamp_all(cells, h, p);
        assert forall|i: int| 0 <= i < cells.len() implies (#[trigger] stamp_all(
            cells,
            h,
            ds,
        )[i]).glyph == cells[i].glyph by {
            assert(q[i].glyph == cells[i].glyph);
        }
    }
}

proof fn lemma_stamp_all_dead(cells: Seq<Cell>, h: int, ds: Seq<Drip>)
    requires
        forall|i: int| 0 <= i < ds.len() ==> !(#[trigger] ds[i]).live,
    ensures
        stamp_all(cells, h, ds) == cells,
    decreases ds.len(),
{
    if ds.len() > 0 {
        let p = ds.drop_last();
        assert forall|i: int| 0 <= i < p.len() implies !(#[trigger] p[i]).live by {
            assert(p[i] == ds[i]);
        }
        lemma_stamp_all_dead(cells, h, p);
        assert(!ds[ds.len() - 1].live);
    }
}

proof fn lemma_gated_in_grid(ds: Seq<Drip>, w: int, h: int, gate: u32, ss: Seq<Spawn>)
    requires
        drips_in_grid(ds, w, h),
        spawns_in_grid(ss, w, h),
        ss.len() == ds.len(),
    ensures
        gated(ds, gate, ss).len() == ds.len(),
        drips_in_grid(gated(ds, gate, ss), w, h),
{
    let g = gated(ds, gate, ss);
    assert forall|i: int| 0 <= i < g.len() && (#[trigger] g[i]).live implies g[i].x < w && g[i].y
        < h by {
        if gate_opens(gate) {
            assert(g[i] == respawned(ds[i], ss[i]));
        }
    }
}

/// Runs every live drip one tick: it lights the cell under its head (to
/// `MAX_INTENSITY` when bright, else `MIN_INTENSITY`, leaving the glyph as it
/// was), then moves down one row and dies when it leaves the grid. Dead
/// slots are left alone.
pub fn update_drips(drips: &mut Vec<Drip>, grid: &mut Grid)
    requires
        old(grid).wf(),
        drips_in_grid(old(drips)@, old(grid).width as int, old(grid).height as int),
    ensures
        final(grid).wf(),
        final(grid).width == old(grid).width,
        final(grid).height == old(grid).height,
        final(grid).cells@ == stamp_all(old(grid).cells@, old(grid).height as int, old(drips)@),
        final(drips)@ == advanced_all(old(drips)@, old(grid).height as int),
        drips_in_grid(final(drips)@, old(grid).width as int, old(grid).height as int),
{
    let ghost ds0 = drips@;
    let ghost cells0 = grid.cells@;
    let ghost w = grid.width as int;
    let ghost h = grid.height as int;
    let n: usize = drips.len();
    let mut i: usize = 0;
    while i < n
        invariant
            i <= n,
            n == ds0.len(),
            drips@.len() == n,
            grid.wf(),
            grid.width == w,
            grid.height == h,
            drips_in_grid(ds0, w, h),
            cells0.len() == w * h,
            forall|k: int| 0 <= k < i ==> #[trigger] drips@[k] == advanced(ds0[k], h),
            forall|k: int| i <= k < n ==> #[trigger] drips@[k] == ds0[k],
            grid.cells@ == stamp_all(cells0, h, ds0.subrange(0, i as int)),
        decreases n - i,
    {
        let d = drips[i];
        let ghost pre = grid.cells@;
        assert(ds0.subrange(0, i as int + 1).drop_last() =~= ds0.subrange(0, i as int));
        assert(ds0.subrange(0, i as int + 1).last() == d);
        if d.live {
            proof {
                lemma_index_in_grid(d.x as int, d.y as int, w, h);
            }
            let idx: usize = d.x * grid.height + d.y;
            let c = grid.cells[idx];
            let v: u8 = if d.bright { MAX_INTENSITY } else { MIN_INTENSITY };
            grid.cells.set(idx, Cell { glyph: c.glyph, intensity: v });
            let ny: usize = d.y + 1;
            drips.set(i, Drip { x: d.x, y: ny, live: ny < grid.height, bright: d.bright });
            assert(intensities_bounded(grid.cells@)) by {
                assert forall|k: int| 0 <= k < grid.cells@.len() implies (
                #[trigger] grid.cells@[k]).intensity <= MAX_INTENSITY by {
                    if k != idx {
                        assert(grid.cells@[k] == pre[k]);
                    }
                }
            }
        }
        i += 1;
    }
    assert(ds0.subrange(0, n as int) =~= ds0);
    assert(drips@ =~= advanced_all(ds0, h));
}

/// The spawn pass: every dead slot comes alive at the position and with the
/// head kind drawn for it; live slots are left alone.
pub fn add_drips(drips: &mut Vec<Drip>, spawns: &Vec<Spawn>)
    requires
        spawns@.len() == old(drips)@.len(),
    ensures
        final(drips)@ == respawned_all(old(drips)@, spawns@),
{
    let ghost ds0 = drips@;
    let n: usize = drips.len();
    let mut i: usize = 0;
    while i < n
        invariant
            i <= n,
            n == ds0.len(),
            spawns@.len() == n,
            drips@.len() == n,
            forall|k: int| 0 <= k < i ==> #[trigger] drips@[k] == respawned(ds0[k], spawns@[k]),
            forall|k: int| i <= k < n ==> #[trigger] drips@[k] == ds0[k],
        decreases n - i,
    {
        if !drips[i].live {
            let s = spawns[i];
            drips.set(i, Drip { x: s.x, y: s.y, live: true, bright: s.bright });
        }
        i += 1;
    }
    assert(drips@ =~= respawned_all(ds0, spawns@));
}

/// The fade pass: each blank cell is given the glyph drawn for it when its
/// change roll is under `PROB_CHANGE`; each cell dims by one, down to zero,
/// when its dim roll is under `PROB_DIM`.
pub fn fade_n_change_matrix(grid: &mut Grid, rolls: &Vec<CellRoll>)
    requires
        old(grid).wf(),
        rolls@.len() == old(grid).cells@.len(),
    ensures
        final(grid).wf(),
        final(grid).width == old(grid).width,
        final(grid).height == old(grid).height,
        final(grid).cells@ == faded_all(old(grid).cells@, rolls@),
{
    let ghost cells0 = grid.cells@;
    let n: usize = grid.cells.len();
    let mut i: usize = 0;
    while i < n
        invariant
            i <= n,
            n == cells0.len(),
            rolls@.len() == n,
            grid.cells@.len() == n,
            grid.width == old(grid).width,
            grid.height == old(grid).height,
            grid.width * grid.height == n,
            grid.width >= 1,
            grid.height >= 1,
            grid.width * grid.height <= usize::MAX,
            intensities_bounded(cells0),
            forall|k: int| 0 <= k < i ==> #[trigger] grid.cells@[k] == faded(cells0[k], rolls@[k]),
            forall|k: int| i <= k < n ==> #[trigger] grid.cells@[k] == cells0[k],
        decreases n - i,
    {
        let c = grid.cells[i];
        let r = rolls[i];
        let glyph = if r.change < PROB_CHANGE && c.glyph.is_none() { Some(r.glyph) } else { c.glyph };
        let intensity: u8 = if r.dim < PROB_DIM && c.intensity > 0 {
            c.intensity - 1
        } else {
            c.intensity
        };
        grid.cells.set(i, Cell { glyph, intensity });
        i += 1;
    }
    assert(grid.cells@ =~= faded_all(cells0, rolls@));
    assert(intensities_bounded(grid.cells@)) by {
        assert forall|k: int| 0 <= k < grid.cells@.len() implies (
        #[trigger] grid.cells@[k]).intensity <= MAX_INTENSITY by {
            assert(grid.cells@[k] == faded(cells0[k], rolls@[k]));
        }
    }
}

/// Runs a whole frame. When `gate` opens the spawn gate, each dead slot
/// comes alive at its entry of `spawns`. Next every live drip lights its
/// cell and moves down. Last every cell fades and may get a glyph, as its
/// entry of `rolls` says.
pub fn step(
    drips: &mut Vec<Drip>,
    grid: &mut Grid,
    gate: u32,
    spawns: &Vec<Spawn>,
    rolls: &Vec<CellRoll>,
)
    requires
        old(grid).wf(),
        drips_in_grid(old(drips)@, old(grid).width as int, old(grid).height as int),
        spawns@.len() == old(drips)@.len(),
        spawns_in_grid(spawns@, old(grid).width as int, old(grid).height as int),
        rolls@.len() == old(grid).cells@.len(),
    ensures
        final(grid).wf(),
        final(grid).width == old(grid).width,
        final(grid).height == old(grid).height,
        drips_in_grid(final(drips)@, old(grid).width as int, old(grid).height as int),
        final(drips)@ == step_drips(old(drips)@, old(grid).height as int, gate, spawns@),
        final(grid).cells@ == step_cells(
            old(grid).cells@,
            old(grid).height as int,
            old(drips)@,
            gate,
            spawns@,
            rolls@,
        ),
{
    proof {
        lemma_gated_in_grid(drips@, grid.width as int, grid.height as int, gate, spawns@);
    }
    if gate < PROB_DRIP_SPAWN {
        add_drips(drips, spawns);
    }
    update_drips(drips, grid);
    fade_n_change_matrix(grid, rolls);
}

/// Once a cell has a glyph, a frame never changes or clears it.
pub proof fn lemma_glyphs_permanent(
    cells: Seq<Cell>,
    w: int,
    h: int,
    ds: Seq<Drip>,
    gate: u32,
    ss: Seq<Spawn>,
    rs: Seq<CellRoll>,
)
    requires
        w >= 1,
        h >= 1,
        cells.len() == w * h,
        intensities_bounded(cells),
        drips_in_grid(ds, w, h),
        spawns_in_grid(ss, w, h),
        ss.len() == ds.len(),
        rs.len() == cells.len(),
    ensures
        forall|i: int|
            0 <= i < cells.len() && (#[trigger] cells[i]).glyph.is_some() ==> step_cells(
                cells,
                h,
                ds,
                gate,
                ss,
                rs,
            )[i].glyph == cells[i].glyph,
{
    lemma_gated_in_grid(ds, w, h, gate, ss);
    lemma_stamp_all_len(cells, w, h, gated(ds, gate, ss));
    let st = stamp_all(cells, h, gated(ds, gate, ss));
    assert forall|i: int| 0 <= i < cells.len() && (#[trigger] cells[i]).glyph.is_some() implies step_cells(
        cells,
        h,
        ds,
        gate,
        ss,
        rs,
    )[i].glyph == cells[i].glyph by {
        assert(st[i].glyph == cells[i].glyph);
    }
}

/// Every cell stays within `0..=MAX_INTENSITY` across a frame.
pub proof fn lemma_intensities_stay_bounded(
    cells: Seq<Cell>,
    w: int,
    h: int,
    ds: Seq<Drip>,
    gate: u32,
    ss: Seq<Spawn>,
    rs: Seq<CellRoll>,
)
    requires
        w >= 1,
        h >= 1,
        cells.len() == w * h,
        intensities_bounded(cells),
        drips_in_grid(ds, w, h),
        spawns_in_grid(ss, w, h),
        ss.len() == ds.len(),
        rs.len() == cells.len(),
    ensures
        step_cells(cells, h, ds, gate, ss, rs).len() == cells.len(),
        intensities_bounded(step_cells(cells, h, ds, gate, ss, rs)),
{
    lemma_gated_in_grid(ds, w, h, gate, ss);
    lemma_stamp_all_len(cells, w, h, gated(ds, gate, ss));
    let st = stamp_all(cells, h, gated(ds, gate, ss));
    let r = step_cells(cells, h, ds, gate, ss, rs);
    assert forall|i: int| 0 <= i < r.len() implies (#[trigger] r[i]).intensity <= MAX_INTENSITY by {
        assert(st[i].intensity <= MAX_INTENSITY);
    }
}

/// In a frame a live drip keeps its column and head kind and moves down
/// exactly one row, dying exactly when that row is past the bottom; a dead
/// slot is left as it was unless the spawn gate opens.
pub proof fn lemma_drips_descend(w: int, h: int, ds: Seq<Drip>, gate: u32, ss: Seq<Spawn>)
    requires
        h <= usize::MAX,
        drips_in_grid(ds, w, h),
        ss.len() == ds.len(),
    ensures
        step_drips(ds, h, gate, ss).len() == ds.len(),
        forall|i: int|
            0 <= i < ds.len() && (#[trigger] ds[i]).live ==> {
                let e = step_drips(ds, h, gate, ss)[i];
                &&& e.y == ds[i].y + 1
                &&& e.x == ds[i].x
                &&& e.bright == ds[i].bright
                &&& e.live == (ds[i].y + 1 < h)
            },
        forall|i: int|
            0 <= i < ds.len() && !(#[trigger] ds[i]).live && !gate_opens(gate) ==> step_drips(
                ds,
                h,
                gate,
                ss,
            )[i] == ds[i],
{
}

/// A frame is a function of the state and the values drawn for it: the same
/// pool, cells and draws always give the same next pool and cells.
pub proof fn lemma_step_deterministic(
    cells1: Seq<Cell>,
    cells2: Seq<Cell>,
    h: int,
    ds1: Seq<Drip>,
    ds2: Seq<Drip>,
    gate: u32,
    ss: Seq<Spawn>,
    rs: Seq<CellRoll>,
)
    requires
        cells1 == cells2,
        ds1 == ds2,
    ensures
        step_drips(ds1, h, gate, ss) == step_drips(ds2, h, gate, ss),
        step_cells(cells1, h, ds1, gate, ss, rs) == step_cells(cells2, h, ds2, gate, ss, rs),
{
}

/// With every slot dead and the spawn gate closed, a frame leaves every slot
/// dead and no cell brighter than it was.
pub proof fn lemma_closed_gate_only_fades(
    cells: Seq<Cell>,
    h: int,
    ds: Seq<Drip>,
    gate: u32,
    ss: Seq<Spawn>,
    rs: Seq<CellRoll>,
)
    requires
        forall|i: int| 0 <= i < ds.len() ==> !(#[trigger] ds[i]).live,
        !gate_opens(gate),
        rs.len() == cells.len(),
    ensures
        step_drips(ds, h, gate, ss) == ds,
        step_cells(cells, h, ds, gate, ss, rs).len() == cells.len(),
        forall|i: int|
            0 <= i < cells.len() ==> (#[trigger] step_cells(cells, h, ds, gate, ss, rs)[i]).intensity
                <= cells[i].intensity,
{
    lemma_stamp_all_dead(cells, h, ds);
    assert(step_drips(ds, h, gate, ss) =~= ds);
}

} // verus!
