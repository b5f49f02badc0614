use vstd::prelude::*;

verus! {

/// Chance, in percent, that the spawn gate opens in a frame.
pub const PROB_DRIP_SPAWN: u32 = 65;
/// Chance, in percent, that a cell dims by one in a frame.
pub const PROB_DIM: u32 = 55;
/// Chance, in percent, that a blank cell is given a glyph in a frame.
pub const PROB_CHANGE: u32 = 95;
/// Number of glyphs that a blank cell can be given.
pub const PRINTABLE_CHARACTERS: u8 = 92;
/// Width of the standard grid.
pub const MAXX: usize = 160;
/// Height of the standard grid.
pub const MAXY: usize = 50;
/// Brightness of a cell under the head of a bright drip.
pub const MAX_INTENSITY: u8 = 13;
/// Brightness of a cell under the head of a dim drip.
pub const MIN_INTENSITY: u8 = 4;
/// Number of drip slots in the standard pool.
pub const NUM_DRIPS: usize = 250;

/// One grid position: an optional glyph and a brightness.
#[derive(Clone, Copy, Debug, PartialEq, Eq, Structural)]
pub struct Cell {
    pub glyph: Option<u8>,
    pub intensity: u8,
}

/// One slot of the drip pool.
#[derive(Clone, Copy, Debug, PartialEq, Eq, Structural)]
pub struct Drip {
    pub x: usize,
    pub y: usize,
    pub live: bool,
    pub bright: bool,
}

/// The values drawn for one slot when the spawn gate opens.
#[derive(Clone, Copy, Debug, PartialEq, Eq, Structural)]
pub struct Spawn {
    pub x: usize,
    pub y: usize,
    pub bright: bool,
}

/// The values drawn for one cell by the fade pass: two percent rolls in
/// `1..=100` and the glyph that a blank cell would be given.
#[derive(Clone, Copy, Debug, PartialEq, Eq, Structural)]
pub struct CellRoll {
    pub change: u32,
    pub dim: u32,
    pub glyph: u8,
}

/// A `width` by `height` grid of cells, stored column by column: the cell at
/// `(x, y)` is `cells[x * height + y]`.
pub struct Grid {
    pub width: usize,
    pub height: usize,
    pub cells: Vec<Cell>,
}

impl Cell {
    /// A blank, dark cell.
    pub fn blank() -> (r: Cell)
        ensures
            r.glyph.is_none(),
            r.intensity == 0,
    {
        Cell { glyph: None, intensity: 0 }
    }
}

impl Drip {
    /// A dead slot.
    pub fn dead() -> (r: Drip)
        ensures
            !r.live,
            r.x == 0 && r.y == 0 && !r.bright,
    {
        Drip { x: 0, y: 0, live: false, bright: false }
    }
}

/// Every cell of `cells` is at most `MAX_INTENSITY`.
pub open spec fn intensities_bounded(cells: Seq<Cell>) -> bool {
    forall|i: int| 0 <= i < cells.len() ==> (#[trigger] cells[i]).intensity <= MAX_INTENSITY
}

/// A position inside a `w` by `h` grid has its cell inside the column-major store.
pub proof fn lemma_index_in_grid(x: int, y: int, w: int, h: int)
    requires
        0 <= x < w,
        0 <= y < h,
    ensures
        0 <= x * h + y < w * h,
{
    assert(x * h + y < w * h) by (nonlinear_arith)
        requires 0 <= x < w, 0 <= y < h;
    assert(0 <= x * h) by (nonlinear_arith)
        requires 0 <= x, 0 <= h;
}

impl Grid {
    /// The grid is non-empty, holds `width * height` cells, and every cell's
    /// brightness is within bounds.
    pub open spec fn wf(&self) -> bool {
        &&& self.width >= 1
        &&& self.height >= 1
        &&& self.width * self.height <= usize::MAX
        &&& self.cells@.len() == self.width * self.height
        &&& intensities_bounded(self.cells@)
    }

    /// Position of the cell `(x, y)` in `cells`.
    pub open spec fn index_of(&self, x: int, y: int) -> int {
        x * self.height + y
    }

    /// The cell at `(x, y)`.
    pub open spec fn cell_at(&self, x: int, y: int) -> Cell {
        self.cells@[self.index_of(x, y)]
    }

    /// A blank, dark grid of the given size.
    pub fn new(width: usize, height: usize) -> (r: Grid)
        requires
            width >= 1,
            height >= 1,
            width * height <= usize::MAX,
        ensures
            r.wf(),
            r.width == width,
            r.height == height,
            forall|i: int| 0 <= i < r.cells@.len() ==> #[trigger] r.cells@[i] == Cell::blank_spec(),
    {
        let n: usize = width * height;
        let mut cells: Vec<Cell> = Vec::new();
        let mut i: usize = 0;
        while i < n
            invariant
                i <= n,
                cells@.len() == i,
                forall|k: int| 0 <= k < i ==> #[trigger] cells@[k] == Cell::blank_spec(),
            decreases n - i,
        {
            cells.push(Cell::blank());
            i += 1;
        }
        Grid { width, height, cells }
    }

    /// The cell at `(x, y)`.
    pub fn get(&self, x: usize, y: usize) -> (r: Cell)
        requires
            self.wf(),
            x < self.width,
            y < self.height,
        ensures
            r == self.cell_at(x as int, y as int),
    {
        proof { lemma_index_in_grid(x as int, y as int, self.width as int, self.height as int); }
        self.cells[x * self.height + y]
    }
}

/// A pool of `n` dead slots.
pub fn new_drips(n: usize) -> (r: Vec<Drip>)
    ensures
        r@.len() == n,
        forall|i: int| 0 <= i < n ==> !(#[trigger] r@[i]).live,
{
    let mut r: Vec<Drip> = Vec::new();
    let mut i: usize = 0;
    while i < n
        invariant
            i <= n,
            r@.len() == i,
            forall|k: int| 0 <= k < i ==> !(#[trigger] r@[k]).live,
        decreases n - i,
    {
        r.push(Drip::dead());
        i += 1;
    }
    r
}

impl Cell {
    /// The blank, dark cell.
    pub open spec fn blank_spec() -> Cell {
        Cell { glyph: None, intensity: 0 }
    }
}

} // verus!
