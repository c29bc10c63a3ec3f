use fixedbitset::FixedBitSet;
use wasm_game_of_life::{
    Cell, Universe, UniverseError, ALIVE_GLYPH, DEAD_GLYPH, DEFAULT_HEIGHT, DEFAULT_WIDTH,
};

type Bytes = Universe<Vec<Cell>>;

/// A `w` by `h` seed with the given (row, column) cells alive.
fn pattern(w: u32, h: u32, live: &[(u32, u32)]) -> Vec<bool> {
    let mut seed = vec![false; (w * h) as usize];
    for &(r, c) in live {
        seed[(r * w + c) as usize] = true;
    }
    seed
}

fn unpack(blocks: &[u32], n: usize) -> Vec<bool> {
    (0..n).map(|i| blocks[i / 32] & (1 << (i % 32)) != 0).collect()
}

fn alive_cells(u: &Bytes) -> Vec<bool> {
    u.cells().iter().map(|c| *c == Cell::Alive).collect()
}

fn bits(u: &Universe) -> Vec<bool> {
    unpack(u.cells(), (u.width() * u.height()) as usize)
}

#[test]
fn new_has_width_times_height_cells() {
    let seed: Vec<bool> = (0..35).map(|i| i % 3 == 0).collect();
    let b: Bytes = Universe::new(7, 5, &seed).unwrap();
    assert_eq!(b.cells().len(), 35);
    let p: Universe = Universe::new(7, 5, &seed).unwrap();
    assert_eq!(p.cells().len(), 2);
    assert_eq!(bits(&p), seed);
    assert_eq!(alive_cells(&b), seed);
}

#[test]
fn new_keeps_dimensions() {
    let u: Universe = Universe::new(13, 2, &[]).unwrap();
    assert_eq!(u.width(), 13);
    assert_eq!(u.height(), 2);
    let d: Universe = Universe::with_default_size(&[true]);
    assert_eq!(d.width(), DEFAULT_WIDTH);
    assert_eq!(d.height(), DEFAULT_HEIGHT);
    assert_eq!((d.width(), d.height()), (64, 64));
    assert_eq!(d.cells().len(), 128);
    assert!(d.is_alive(0, 0));
    assert!(!d.is_alive(0, 1));
}

#[test]
fn zero_dimension_is_rejected() {
    let a: Result<Universe, UniverseError> = Universe::new(0, 5, &[]);
    assert!(matches!(a, Err(UniverseError::InvalidDimensions)));
    let b: Result<Bytes, UniverseError> = Universe::new(5, 0, &[]);
    assert!(matches!(b, Err(UniverseError::InvalidDimensions)));
}

#[test]
fn seed_past_its_end_is_dead() {
    let u: Bytes = Universe::new(3, 2, &[true, true]).unwrap();
    assert_eq!(alive_cells(&u), vec![true, true, false, false, false, false]);
}

#[test]
fn neighbor_count_wraps_around_edges() {
    // Corners of a 4x4 torus are neighbours of each other.
    let seed = pattern(4, 4, &[(0, 3), (3, 0), (3, 3)]);
    let u: Universe = Universe::new(4, 4, &seed).unwrap();
    assert_eq!(u.live_neighbor_count(0, 0), 3);
    assert_eq!(u.live_neighbor_count(1, 1), 0);
    let full: Bytes = Universe::new(3, 3, &vec![true; 9]).unwrap();
    assert_eq!(full.live_neighbor_count(1, 1), 8);
}

#[test]
fn neighbor_count_is_invariant_under_translation() {
    let live = [(0, 0), (0, 1), (2, 4), (4, 4), (3, 2)];
    let moved: Vec<(u32, u32)> = live.iter().map(|&(r, c)| ((r + 1) % 5, (c + 1) % 6)).collect();
    let a: Universe = Universe::new(6, 5, &pattern(6, 5, &live)).unwrap();
    let b: Universe = Universe::new(6, 5, &pattern(6, 5, &moved)).unwrap();
    for r in 0..5 {
        for c in 0..6 {
            assert_eq!(
                a.live_neighbor_count(r, c),
                b.live_neighbor_count((r + 1) % 5, (c + 1) % 6)
            );
        }
    }
}

#[test]
fn empty_grid_stays_empty() {
    let mut u: Universe = Universe::new(8, 6, &[]).unwrap();
    u.tick();
    assert!(bits(&u).iter().all(|b| !b));
    assert_eq!(u.width(), 8);
    assert_eq!(u.height(), 6);
}

#[test]
fn lone_cell_dies() {
    let mut u: Universe = Universe::new(5, 5, &pattern(5, 5, &[(2, 2)])).unwrap();
    u.tick();
    assert!(bits(&u).iter().all(|b| !b));
    let mut e: Bytes = Universe::new(2, 2, &pattern(2, 2, &[(0, 1)])).unwrap();
    e.tick();
    assert!(alive_cells(&e).iter().all(|b| !b));
}

#[test]
fn block_is_a_fixed_point() {
    let seed = pattern(6, 6, &[(2, 2), (2, 3), (3, 2), (3, 3)]);
    let mut u: Universe = Universe::new(6, 6, &seed).unwrap();
    u.tick();
    assert_eq!(bits(&u), seed);
    let mut b: Bytes = Universe::new(6, 6, &seed).unwrap();
    b.tick();
    assert_eq!(alive_cells(&b), seed);
}

#[test]
fn blinker_has_period_two() {
    let horizontal = pattern(5, 5, &[(2, 1), (2, 2), (2, 3)]);
    let vertical = pattern(5, 5, &[(1, 2), (2, 2), (3, 2)]);
    let mut u: Universe = Universe::new(5, 5, &horizontal).unwrap();
    u.tick();
    assert_eq!(bits(&u), vertical);
    u.tick();
    assert_eq!(bits(&u), horizontal);
}

#[test]
fn reproduction_and_overpopulation() {
    // (1,0) is dead with three live neighbours: born.
    // (1,3) is alive with four live neighbours: dies.
    let seed = pattern(7, 7, &[(0, 0), (0, 1), (2, 0), (1, 3), (0, 2), (0, 4), (2, 2), (2, 4)]);
    let mut u: Bytes = Universe::new(7, 7, &seed).unwrap();
    assert_eq!(u.live_neighbor_count(1, 3), 4);
    assert_eq!(u.live_neighbor_count(1, 0), 3);
    u.tick();
    assert!(u.is_alive(1, 0));
    assert!(!u.is_alive(1, 3));
}

#[test]
fn render_shows_rows_of_glyphs() {
    let u: Universe = Universe::new(3, 2, &[true, false, false, false, true, true]).unwrap();
    assert_eq!(DEAD_GLYPH, '\u{25FB}');
    assert_eq!(ALIVE_GLYPH, '\u{25FC}');
    assert_eq!(u.render(), "\u{25FC}\u{25FB}\u{25FB}\n\u{25FB}\u{25FC}\u{25FC}\n");
    let text = u.render();
    let lines: Vec<&str> = text.split_terminator('\n').collect();
    assert_eq!(lines.len(), 2);
    assert!(lines.iter().all(|l| l.chars().count() == 3));
}

#[test]
fn stores_agree_after_identical_steps() {
    let seed: Vec<bool> = (0..(37 * 11)).map(|i| (i * 7 + i / 5) % 3 == 0).collect();
    let mut packed: Universe = Universe::new(37, 11, &seed).unwrap();
    let mut bytes: Bytes = Universe::new(37, 11, &seed).unwrap();
    for _ in 0..6 {
        assert_eq!(bits(&packed), alive_cells(&bytes));
        assert_eq!(packed.render(), bytes.render());
        packed.tick();
        bytes.tick();
    }
    assert_eq!(bits(&packed), alive_cells(&bytes));
}

#[test]
fn packed_export_sets_low_bits_first() {
    let u: Universe = Universe::new(40, 1, &pattern(40, 1, &[(0, 0), (0, 33)])).unwrap();
    assert_eq!(u.cells(), &[1u32, 2u32][..]);
    let reference = {
        let mut s = FixedBitSet::with_capacity(40);
        s.insert(0);
        s.insert(33);
        s
    };
    assert_eq!(u.cells(), reference.as_slice());
}
