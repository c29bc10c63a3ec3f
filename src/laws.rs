use crate::rules::{cell_at, generation, neighbors, next_gen, seeded};
use crate::storage::{block_bit, unpack_bits, Cell};
use crate::universe::{valid_dimensions, Universe};
use fixedbitset::FixedBitSet;
use vstd::arithmetic::div_mod::{
    lemma_add_mod_noop, lemma_fundamental_div_mod, lemma_fundamental_div_mod_converse,
    lemma_mod_add_multiples_vanish, lemma_mod_bound, lemma_mod_self_0, lemma_mod_twice,
    lemma_small_mod,
};
use vstd::prelude::*;

verus! {

/// The grid moved `dr` rows down and `dc` columns right, wrapping at the
/// edges: the cell at (r, c) afterwards is the one at (r - dr, c - dc) before.
pub open spec fn translate(cells: Seq<bool>, w: nat, h: nat, dr: int, dc: int) -> Seq<bool> {
    Seq::new(
        cells.len(),
        |i: int| cell_at(cells, w, h, i / (w as int) - dr, i % (w as int) - dc),
    )
}

/// The grid whose only live cell is the one at index `p`.
pub open spec fn lone_cell(n: nat, p: int) -> Seq<bool> {
    Seq::new(n, |i: int| i == p)
}

/// Every wrapped coordinate lands inside the grid.
proof fn lemma_wrapped_index(w: nat, h: nat, row: int, col: int)
    requires
        w > 0,
        h > 0,
    ensures
        0 <= (row % (h as int)) * (w as int) + col % (w as int) < w * h,
        (((row % (h as int)) * (w as int) + col % (w as int)) / (w as int)) == row % (h as int),
        (((row % (h as int)) * (w as int) + col % (w as int)) % (w as int)) == col % (w as int),
{
    let r = row % (h as int);
    let c = col % (w as int);
    lemma_mod_bound(row, h as int);
    lemma_mod_bound(col, w as int);
    assert(0 <= r * (w as int) + c < w * h) by (nonlinear_arith)
        requires
            0 <= r < h,
            0 <= c < w,
    ;
    lemma_fundamental_div_mod_converse(r * (w as int) + c, w as int, r, c);
}

/// Moving a coordinate by `d` and wrapping commutes with wrapping first.
proof fn lemma_wrap_shift(x: int, d: int, m: int)
    requires
        m > 0,
    ensures
        (x % m - d) % m == (x - d) % m,
{
    lemma_add_mod_noop(x, -d, m);
    lemma_add_mod_noop(x % m, -d, m);
    lemma_mod_twice(x, m);
}

/// Reading a translated grid at any coordinate reads the original grid at the
/// coordinate moved back.
proof fn lemma_translated_cell(cells: Seq<bool>, w: nat, h: nat, dr: int, dc: int, row: int, col: int)
    requires
        w > 0,
        h > 0,
        cells.len() == w * h,
    ensures
        cell_at(translate(cells, w, h, dr, dc), w, h, row, col) == cell_at(cells, w, h, row - dr, col - dc),
{
    lemma_wrapped_index(w, h, row, col);
    lemma_wrap_shift(row, dr, h as int);
    lemma_wrap_shift(col, dc, w as int);
}

/// Neighbour counting commutes with toroidal translation: moving every cell by
/// (`dr`, `dc`) and counting around the moved position gives the count around
/// the original one.
pub proof fn lemma_neighbors_translation(
    cells: Seq<bool>,
    w: nat,
    h: nat,
    dr: int,
    dc: int,
    row: int,
    col: int,
)
    requires
        w > 0,
        h > 0,
        cells.len() == w * h,
    ensures
        neighbors(translate(cells, w, h, dr, dc), w, h, row + dr, col + dc) == neighbors(
            cells,
            w,
            h,
            row,
            col,
        ),
{
    let r = row + dr;
    let c = col + dc;
    lemma_translated_cell(cells, w, h, dr, dc, r - 1, c - 1);
    lemma_translated_cell(cells, w, h, dr, dc, r - 1, c);
    lemma_translated_cell(cells, w, h, dr, dc, r - 1, c + 1);
    lemma_translated_cell(cells, w, h, dr, dc, r, c - 1);
    lemma_translated_cell(cells, w, h, dr, dc, r, c + 1);
    lemma_translated_cell(cells, w, h, dr, dc, r + 1, c - 1);
    lemma_translated_cell(cells, w, h, dr, dc, r + 1, c);
    lemma_translated_cell(cells, w, h, dr, dc, r + 1, c + 1);
}

/// A grid with no live cell stays without one.
pub proof fn lemma_empty_stays_empty(w: nat, h: nat)
    requires
        w > 0,
        h > 0,
    ensures
        next_gen(Seq::new(w * h, |i: int| false), w, h) == Seq::new(w * h, |i: int| false),
{
    let empty = Seq::new(w * h, |i: int| false);
    assert forall|i: int| 0 <= i < w * h implies #[trigger] next_gen(empty, w, h)[i] == false by {
        let row = i / (w as int);
        let col = i % (w as int);
        lemma_wrapped_index(w, h, row - 1, col - 1);
        lemma_wrapped_index(w, h, row - 1, col);
        lemma_wrapped_index(w, h, row - 1, col + 1);
        lemma_wrapped_index(w, h, row, col - 1);
        lemma_wrapped_index(w, h, row, col + 1);
        lemma_wrapped_index(w, h, row + 1, col - 1);
        lemma_wrapped_index(w, h, row + 1, col);
        lemma_wrapped_index(w, h, row + 1, col + 1);
    }
    assert(next_gen(empty, w, h) =~= empty);
}

/// On a cycle of at least two positions, a step either way leaves `x`.
proof fn lemma_step_moves(x: int, m: int)
    requires
        0 <= x < m,
        m >= 2,
    ensures
        x % m == x,
        (x - 1) % m != x,
        (x + 1) % m != x,
{
    lemma_small_mod(x as nat, m as nat);
    if x >= 1 {
        lemma_small_mod((x - 1) as nat, m as nat);
    } else {
        lemma_mod_add_multiples_vanish(-1, m);
        lemma_small_mod((m - 1) as nat, m as nat);
    }
    if x + 1 < m {
        lemma_small_mod((x + 1) as nat, m as nat);
    } else {
        lemma_mod_self_0(m);
    }
}

/// A cell of a grid with one live cell, at index `p`, is alive iff its
/// wrapped coordinates are those of `p`.
proof fn lemma_lone_cell_at(w: nat, h: nat, p: int, row: int, col: int)
    requires
        w > 0,
        h > 0,
        0 <= p < w * h,
    ensures
        cell_at(lone_cell(w * h, p), w, h, row, col) == (row % (h as int) == p / (w as int) && col
            % (w as int) == p % (w as int)),
{
    lemma_wrapped_index(w, h, row, col);
    lemma_fundamental_div_mod(p, w as int);
    let q = p / (w as int);
    assert(q * (w as int) == (w as int) * q) by (nonlinear_arith);
}

/// With at least two rows and two columns, a single live cell has no live
/// neighbour and no dead cell has three: one generation later nothing lives.
pub proof fn lemma_lone_cell_dies(w: nat, h: nat, p: int)
    requires
        w >= 2,
        h >= 2,
        0 <= p < w * h,
    ensures
        next_gen(lone_cell(w * h, p), w, h) == Seq::new(w * h, |i: int| false),
{
    let cells = lone_cell(w * h, p);
    assert forall|i: int| 0 <= i < w * h implies #[trigger] next_gen(cells, w, h)[i] == false by {
        let row = i / (w as int);
        let col = i % (w as int);
        lemma_fundamental_div_mod(i, w as int);
        assert(0 <= row < h) by (nonlinear_arith)
            requires
                0 <= i < w * h,
                w > 0,
                row == i / (w as int),
        ;
        lemma_mod_bound(i, w as int);
        lemma_step_moves(row, h as int);
        lemma_step_moves(col, w as int);
        lemma_lone_cell_at(w, h, p, row - 1, col - 1);
        lemma_lone_cell_at(w, h, p, row - 1, col);
        lemma_lone_cell_at(w, h, p, row - 1, col + 1);
        lemma_lone_cell_at(w, h, p, row, col - 1);
        lemma_lone_cell_at(w, h, p, row, col + 1);
        lemma_lone_cell_at(w, h, p, row + 1, col - 1);
        lemma_lone_cell_at(w, h, p, row + 1, col);
        lemma_lone_cell_at(w, h, p, row + 1, col + 1);
        lemma_lone_cell_at(w, h, p, row, col);
        assert(row * (w as int) + col == i) by (nonlinear_arith)
            requires
                i == (w as int) * row + col,
        ;
        lemma_mod_twice(i, w as int);
        assert(cells[i] == cell_at(cells, w, h, row, col));
    }
    assert(next_gen(cells, w, h) =~= Seq::new(w * h, |i: int| false));
}

/// The two stores describe the same cells. A bit-packed universe and a
/// byte-per-cell universe of the same size, seeded alike and advanced the same
/// number of generations, hold the same grid; the blocks that the first
/// exports, unpacked bit by bit, then say of every cell what the second's
/// cells say.
pub proof fn lemma_stores_agree(
    packed: Universe<FixedBitSet>,
    bytes: Universe<Vec<Cell>>,
    seed: Seq<bool>,
    n: nat,
    blocks: Seq<u32>,
    cells: Seq<Cell>,
)
    requires
        packed.wf(),
        bytes.wf(),
        packed.spec_width() == bytes.spec_width(),
        packed.spec_height() == bytes.spec_height(),
        packed.grid() == generation(
            seeded(seed, packed.spec_width() * packed.spec_height()),
            packed.spec_width(),
            packed.spec_height(),
            n,
        ),
        bytes.grid() == generation(
            seeded(seed, bytes.spec_width() * bytes.spec_height()),
            bytes.spec_width(),
            bytes.spec_height(),
            n,
        ),
        unpack_bits(blocks, packed.grid().len()) == packed.grid(),
        cells.len() == bytes.grid().len(),
        forall|i: int| 0 <= i < cells.len() ==> (#[trigger] cells[i]).is_alive() == bytes.grid()[i],
    ensures
        packed.grid() == bytes.grid(),
        cells.len() == packed.grid().len(),
        forall|i: int|
            0 <= i < cells.len() ==> block_bit(blocks[i / 32], (i % 32) as nat) == (
            #[trigger] cells[i]).is_alive(),
{
    let len = packed.grid().len();
    assert forall|i: int| 0 <= i < cells.len() implies block_bit(blocks[i / 32], (i % 32) as nat)
        == (#[trigger] cells[i]).is_alive() by {
        assert(unpack_bits(blocks, len)[i] == block_bit(blocks[i / 32], (i % 32) as nat));
    }
}

} // verus!
