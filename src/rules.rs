use vstd::prelude::*;

verus! {

/// 1 for a live cell, 0 for a dead one.
pub open spec fn count_of(alive: bool) -> nat {
    if alive {
        1
    } else {
        0
    }
}

/// The cell at (`row`, `col`) of a row-major `w`-wide, `h`-high grid, both
/// coordinates taken modulo the grid's size: the grid has no edges.
pub open spec fn cell_at(cells: Seq<bool>, w: nat, h: nat, row: int, col: int) -> bool {
    cells[(row % (h as int)) * (w as int) + col % (w as int)]
}

/// How many of the eight cells around (`row`, `col`) are alive.
pub open spec fn neighbors(cells: Seq<bool>, w: nat, h: nat, row: int, col: int) -> nat {
    count_of(cell_at(cells, w, h, row - 1, col - 1)) + count_of(
        cell_at(cells, w, h, row - 1, col),
    ) + count_of(cell_at(cells, w, h, row - 1, col + 1)) + count_of(
        cell_at(cells, w, h, row, col - 1),
    ) + count_of(cell_at(cells, w, h, row, col + 1)) + count_of(
        cell_at(cells, w, h, row + 1, col - 1),
    ) + count_of(cell_at(cells, w, h, row + 1, col)) + count_of(
        cell_at(cells, w, h, row + 1, col + 1),
    )
}

/// The standard rule: a cell is alive in the next generation iff it has
/// exactly three live neighbours, or it is alive and has exactly two.
pub open spec fn next_state(alive: bool, live_neighbors: nat) -> bool {
    live_neighbors == 3 || (alive && live_neighbors == 2)
}

/// The generation after `cells` on a `w`-wide, `h`-high torus, every cell
/// computed from the current generation only.
pub open spec fn next_gen(cells: Seq<bool>, w: nat, h: nat) -> Seq<bool> {
    Seq::new(
        cells.len(),
        |i: int|
            next_state(cells[i], neighbors(cells, w, h, i / (w as int), i % (w as int))),
    )
}

/// The grid after `n` generations.
pub open spec fn generation(cells: Seq<bool>, w: nat, h: nat, n: nat) -> Seq<bool>
    decreases n,
{
    if n == 0 {
        cells
    } else {
        next_gen(generation(cells, w, h, (n - 1) as nat), w, h)
    }
}

/// The first `n` draws of a seed as cells: cells past the seed's end are dead.
pub open spec fn seeded(seed: Seq<bool>, n: nat) -> Seq<bool> {
    Seq::new(n, |i: int| i < seed.len() && seed[i])
}

/// The glyph for a dead cell.
pub const DEAD_GLYPH: char = '\u{25FB}';

/// The glyph for a live cell.
pub const ALIVE_GLYPH: char = '\u{25FC}';

/// The glyph that shows a cell.
pub open spec fn glyph(alive: bool) -> char {
    if alive {
        ALIVE_GLYPH
    } else {
        DEAD_GLYPH
    }
}

/// The text form of a grid: one line per row, one glyph per cell, each line
/// ended by a newline.
pub open spec fn render_text(cells: Seq<bool>, w: nat, h: nat) -> Seq<char> {
    Seq::new(
        h * (w + 1),
        |k: int|
            {
                let line = (w + 1) as int;
                if k % line == w {
                    '\n'
                } else {
                    glyph(cells[(k / line) * (w as int) + k % line])
                }
            },
    )
}

} // verus!
