//! A "digital rain" simulation: a grid of cells that hold a glyph and a
//! brightness, a pool of falling drips that light the cells they pass, and
//! a per-frame fade that dims cells and gives blank cells a glyph.

pub mod model;
pub mod sim;
pub mod random;
pub mod render;

pub use model::{Cell, CellRoll, Drip, Grid, Spawn};
pub use model::{MAXX, MAXY, NUM_DRIPS, MAX_INTENSITY, MIN_INTENSITY};
pub use model::{PROB_DRIP_SPAWN, PROB_DIM, PROB_CHANGE, PRINTABLE_CHARACTERS};
pub use model::new_drips;
pub use sim::{add_drips, update_drips, fade_n_change_matrix, step};
pub use random::{rnd, rnd_bin, rnd_char, draw_spawns, draw_rolls, matrix_update};
pub use render::{color_of, glyph_code};
