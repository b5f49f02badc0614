use matrix_rain::{
    add_drips, color_of, draw_rolls, draw_spawns, fade_n_change_matrix, glyph_code, matrix_update,
    new_drips, rnd, rnd_bin, rnd_char, step, update_drips, Cell, CellRoll, Drip, Grid, Spawn,
    MAXX, MAXY, MAX_INTENSITY, MIN_INTENSITY, NUM_DRIPS,
};

fn live(x: usize, y: usize, bright: bool) -> Drip {
    Drip { x, y, live: true, bright }
}

fn quiet_rolls(n: usize) -> Vec<CellRoll> {
    vec![CellRoll { change: 100, dim: 100, glyph: b'a' }; n]
}

#[test]
fn bright_drip_lights_cell_and_dies_at_bottom() {
    let mut grid = Grid::new(3, 3);
    let mut drips = vec![live(1, 0, true)];
    update_drips(&mut drips, &mut grid);
    assert_eq!(grid.get(1, 0).intensity, MAX_INTENSITY);
    assert_eq!(drips[0].y, 1);
    assert!(drips[0].live);
    update_drips(&mut drips, &mut grid);
    assert_eq!(drips[0].y, 2);
    assert!(drips[0].live);
    update_drips(&mut drips, &mut grid);
    assert_eq!(drips[0].y, 3);
    assert!(!drips[0].live);
    assert_eq!(grid.get(1, 2).intensity, MAX_INTENSITY);
}

#[test]
fn dim_drip_stamps_min_intensity_and_keeps_glyph() {
    let mut grid = Grid::new(2, 2);
    grid.cells[1] = Cell { glyph: Some(b'x'), intensity: 12 };
    let mut drips = vec![live(0, 1, false)];
    update_drips(&mut drips, &mut grid);
    assert_eq!(grid.get(0, 1), Cell { glyph: Some(b'x'), intensity: MIN_INTENSITY });
}

#[test]
fn drip_on_last_row_dies_after_one_step() {
    let mut grid = Grid::new(4, 5);
    let mut drips = vec![live(2, 4, true)];
    update_drips(&mut drips, &mut grid);
    assert!(!drips[0].live);
    assert_eq!(drips[0].y, 5);
    assert_eq!(grid.get(2, 4).intensity, MAX_INTENSITY);
}

#[test]
fn dead_drips_are_left_alone_by_advance() {
    let mut grid = Grid::new(2, 2);
    let mut drips = vec![Drip::dead()];
    update_drips(&mut drips, &mut grid);
    assert_eq!(drips[0], Drip::dead());
    assert!(grid.cells.iter().all(|c| c.intensity == 0));
}

#[test]
fn forced_change_gives_glyph_and_no_dim_keeps_intensity() {
    let mut grid = Grid::new(1, 1);
    let g = rnd_char();
    let rolls = vec![CellRoll { change: 1, dim: 100, glyph: g }];
    fade_n_change_matrix(&mut grid, &rolls);
    let c = grid.get(0, 0);
    assert_eq!(c.glyph, Some(g));
    assert!(g >= 34 && g <= 125);
    assert_eq!(c.intensity, 0);
}

#[test]
fn fade_dims_by_one_and_saturates_at_zero() {
    let mut grid = Grid::new(2, 1);
    grid.cells[0] = Cell { glyph: Some(b'q'), intensity: 7 };
    let rolls = vec![
        CellRoll { change: 1, dim: 54, glyph: b'z' },
        CellRoll { change: 95, dim: 1, glyph: b'z' },
    ];
    fade_n_change_matrix(&mut grid, &rolls);
    assert_eq!(grid.cells[0], Cell { glyph: Some(b'q'), intensity: 6 });
    assert_eq!(grid.cells[1], Cell { glyph: None, intensity: 0 });
}

#[test]
fn closed_gate_never_spawns_and_only_fades() {
    let mut grid = Grid::new(3, 3);
    for (i, c) in grid.cells.iter_mut().enumerate() {
        c.intensity = (i as u8) % (MAX_INTENSITY + 1);
    }
    let mut drips = new_drips(4);
    for _ in 0..20 {
        let before: Vec<u8> = grid.cells.iter().map(|c| c.intensity).collect();
        let spawns = draw_spawns(drips.len(), 3, 3);
        let rolls = draw_rolls(grid.cells.len());
        step(&mut drips, &mut grid, 100, &spawns, &rolls);
        assert!(drips.iter().all(|d| !d.live));
        for (c, b) in grid.cells.iter().zip(before.iter()) {
            assert!(c.intensity <= *b);
        }
    }
}

#[test]
fn open_gate_respawns_every_dead_slot_only() {
    let mut drips = vec![Drip::dead(), live(1, 1, false), Drip::dead()];
    let spawns = vec![
        Spawn { x: 0, y: 2, bright: true },
        Spawn { x: 2, y: 0, bright: true },
        Spawn { x: 1, y: 1, bright: false },
    ];
    add_drips(&mut drips, &spawns);
    assert_eq!(drips[0], live(0, 2, true));
    assert_eq!(drips[1], live(1, 1, false));
    assert_eq!(drips[2], live(1, 1, false));
}

#[test]
fn step_spawns_before_advancing() {
    let mut grid = Grid::new(3, 3);
    let mut drips = new_drips(1);
    let spawns = vec![Spawn { x: 1, y: 0, bright: true }];
    step(&mut drips, &mut grid, 1, &spawns, &quiet_rolls(9));
    assert_eq!(grid.get(1, 0).intensity, MAX_INTENSITY);
    assert_eq!(drips[0], live(1, 1, true));
}

#[test]
fn same_draws_give_same_frames() {
    let mut g1 = Grid::new(5, 4);
    let mut g2 = Grid::new(5, 4);
    let mut d1 = new_drips(6);
    let mut d2 = new_drips(6);
    for _ in 0..15 {
        let gate = rnd(100) as u32;
        let spawns = draw_spawns(6, 5, 4);
        let rolls = draw_rolls(20);
        step(&mut d1, &mut g1, gate, &spawns, &rolls);
        step(&mut d2, &mut g2, gate, &spawns, &rolls);
        assert_eq!(d1, d2);
        assert_eq!(g1.cells, g2.cells);
    }
}

#[test]
fn random_frames_keep_invariants() {
    let mut grid = Grid::new(MAXX, MAXY);
    let mut drips = new_drips(NUM_DRIPS);
    for _ in 0..30 {
        let before = grid.cells.clone();
        let old_drips = drips.clone();
        matrix_update(&mut drips, &mut grid);
        for (c, b) in grid.cells.iter().zip(before.iter()) {
            assert!(c.intensity <= MAX_INTENSITY);
            if b.glyph.is_some() {
                assert_eq!(c.glyph, b.glyph);
            }
        }
        for (d, o) in drips.iter().zip(old_drips.iter()) {
            if o.live {
                assert_eq!(d.y, o.y + 1);
                assert_eq!(d.x, o.x);
                assert_eq!(d.live, o.y + 1 < MAXY);
            }
            if d.live {
                assert!(d.x < MAXX && d.y < MAXY);
            }
        }
    }
}

#[test]
fn random_helpers_stay_in_range() {
    for _ in 0..200 {
        let r = rnd(7);
        assert!(r >= 1 && r <= 7);
        let c = rnd_char();
        assert!(c >= 34 && c <= 125);
        let _ = rnd_bin();
    }
    assert_eq!(rnd(1), 1);
}

#[test]
fn colour_ramp_and_glyphs() {
    assert_eq!(color_of(0), 1);
    assert_eq!(color_of(MIN_INTENSITY), 3);
    assert_eq!(color_of(11), 5);
    assert_eq!(color_of(12), 3);
    assert_eq!(color_of(MAX_INTENSITY), 6);
    assert_eq!(glyph_code(Cell::blank()), b' ');
    assert_eq!(glyph_code(Cell { glyph: Some(b'K'), intensity: 3 }), b'K');
}
