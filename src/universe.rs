use crate::rules::{
    count_of, glyph, neighbors, next_gen, next_state, render_text, seeded, ALIVE_GLYPH, DEAD_GLYPH,
};
use crate::storage::{bitset_blocks, blocks_for, unpack_bits, Cell, CellStore};
use fixedbitset::FixedBitSet;
use vstd::arithmetic::div_mod::{
    lemma_fundamental_div_mod_converse, lemma_mod_add_multiples_vanish, lemma_small_mod,
};
use vstd::prelude::*;

verus! {

/// The width of a universe built without explicit dimensions.
pub const DEFAULT_WIDTH: u32 = 64;

/// The height of a universe built without explicit dimensions.
pub const DEFAULT_HEIGHT: u32 = 64;

/// Why a universe could not be built.
#[derive(Clone, Copy, Debug, PartialEq, Eq, Structural)]
pub enum UniverseError {
    /// A dimension is zero, or the grid has more cells than an index can
    /// address.
    InvalidDimensions,
}

/// A `width` by `height` toroidal grid of cells, stored row-major in `S`.
pub struct Universe<S = FixedBitSet> {
    width: u32,
    height: u32,
    cells: S,
}

/// Whether a `width` by `height` grid can be built: both positive, and
/// every linear index fits a `usize`.
pub open spec fn valid_dimensions(width: nat, height: nat) -> bool {
    width > 0 && height > 0 && width * height <= usize::MAX
}

impl<S: CellStore> Universe<S> {
    /// The grid's width.
    pub closed spec fn spec_width(&self) -> nat {
        self.width as nat
    }

    /// The grid's height.
    pub closed spec fn spec_height(&self) -> nat {
        self.height as nat
    }

    /// The cells' liveness, row-major.
    pub closed spec fn grid(&self) -> Seq<bool> {
        self.cells.flags()
    }

    /// The universe's invariant: valid dimensions and exactly
    /// `width * height` cells.
    pub open spec fn wf(&self) -> bool {
        valid_dimensions(self.spec_width(), self.spec_height()) && self.grid().len()
            == self.spec_width() * self.spec_height()
    }

    /// The linear index of (`row`, `column`).
    fn get_index(&self, row: u32, column: u32) -> (r: usize)
        requires
            self.wf(),
            row < self.spec_height(),
            column < self.spec_width(),
        ensures
            r == row * self.spec_width() + column,
            r < self.grid().len(),
    {
        let w = self.width as usize;
        let h = self.height as usize;
        proof {
            assert(row * w + column < h * w) by (nonlinear_arith)
                requires
                    row < h,
                    column < w,
            ;
        }
        row as usize * w + column as usize
    }

    /// 1 if the cell at (`row`, `column`) is alive, else 0.
    fn count_at(&self, row: u32, column: u32) -> (r: u8)
        requires
            self.wf(),
            row < self.spec_height(),
            column < self.spec_width(),
        ensures
            r == count_of(self.grid()[row * self.spec_width() + column]),
    {
        let idx = self.get_index(row, column);
        if self.cells.alive_at(idx) {
            1
        } else {
            0
        }
    }

    /// How many of the eight cells around (`row`, `column`) are alive, the
    /// grid wrapping around at every edge.
    pub fn live_neighbor_count(&self, row: u32, column: u32) -> (r: u8)
        requires
            self.wf(),
            row < self.spec_height(),
            column < self.spec_width(),
        ensures
            r == neighbors(self.grid(), self.spec_width(), self.spec_height(), row as int, column as int),
            r <= 8,
    {
        let h = self.height;
        let w = self.width;
        // One row up is `height - 1` rows down: unsigned arithmetic, no edge cases.
        let up = wrap(row, h - 1, h);
        let down = wrap(row, 1, h);
        let left = wrap(column, w - 1, w);
        let right = wrap(column, 1, w);
        proof {
            lemma_mod_add_multiples_vanish(row - 1, h as int);
            lemma_mod_add_multiples_vanish(column - 1, w as int);
            lemma_small_mod(row as nat, h as nat);
            lemma_small_mod(column as nat, w as nat);
        }
        let mut count: u8 = 0;
        count = count + self.count_at(up, left);
        count = count + self.count_at(up, column);
        count = count + self.count_at(up, right);
        count = count + self.count_at(row, left);
        count = count + self.count_at(row, right);
        count = count + self.count_at(down, left);
        count = count + self.count_at(down, column);
        count = count + self.count_at(down, right);
        count
    }

    /// Advances one generation: every cell takes its next state, computed
    /// from the current generation alone into a second store that then
    /// replaces the first.
    pub fn tick(&mut self)
        requires
            old(self).wf(),
        ensures
            final(self).wf(),
            final(self).spec_width() == old(self).spec_width(),
            final(self).spec_height() == old(self).spec_height(),
            final(self).grid() == next_gen(
                old(self).grid(),
                old(self).spec_width(),
                old(self).spec_height(),
            ),
    {
        let ghost cur = self.grid();
        let ghost w = self.spec_width();
        let ghost h = self.spec_height();
        let ghost target = next_gen(cur, w, h);
        let mut next = self.cells.duplicate();
        let mut row: u32 = 0;
        while row < self.height
            invariant
                self.wf(),
                self.grid() == cur,
                target == next_gen(cur, w, h),
                self.spec_width() == w,
                self.spec_height() == h,
                row <= h,
                next.flags().len() == cur.len(),
                forall|i: int| 0 <= i < row * w ==> next.flags()[i] == target[i],
            decreases h - row,
        {
            let mut col: u32 = 0;
            while col < self.width
                invariant
                    self.wf(),
                    self.grid() == cur,
                    target == next_gen(cur, w, h),
                    self.spec_width() == w,
                    self.spec_height() == h,
                    row < h,
                    col <= w,
                    next.flags().len() == cur.len(),
                    forall|i: int| 0 <= i < row * w + col ==> next.flags()[i] == target[i],
                decreases w - col,
            {
                let idx = self.get_index(row, col);
                let cell = self.cells.alive_at(idx);
                let live_neighbors = self.live_neighbor_count(row, col);
                let alive = live_neighbors == 3 || (cell && live_neighbors == 2);
                proof {
                    lemma_fundamental_div_mod_converse(idx as int, w as int, row as int, col as int);
                    assert(alive == next_state(cur[idx as int], live_neighbors as nat));
                }
                next.put_alive(idx, alive);
                col = col + 1;
            }
            proof {
                assert(row * w + w == (row + 1) * w) by (nonlinear_arith);
            }
            row = row + 1;
        }
        proof {
            assert(row * w == cur.len()) by (nonlinear_arith)
                requires
                    row == h,
                    cur.len() == w * h,
            ;
            assert(next.flags() =~= target);
        }
        self.cells = next;
    }

    /// A `width` by `height` universe whose cell `i`, in row-major order, is
    /// alive iff `seed[i]` is `true` (cells past the seed's end are dead).
    pub fn new(width: u32, height: u32, seed: &[bool]) -> (r: Result<Self, UniverseError>)
        ensures
            r is Err <==> !valid_dimensions(width as nat, height as nat),
            r is Err ==> r == Err::<Self, UniverseError>(UniverseError::InvalidDimensions),
            r matches Ok(u) ==> {
                &&& u.wf()
                &&& u.spec_width() == width
                &&& u.spec_height() == height
                &&& u.grid() == seeded(seed@, (width * height) as nat)
            },
    {
        if width == 0 || height == 0 {
            return Err(UniverseError::InvalidDimensions);
        }
        let size = match (width as usize).checked_mul(height as usize) {
            Some(n) => n,
            None => {
                return Err(UniverseError::InvalidDimensions);
            },
        };
        let ghost target = seeded(seed@, size as nat);
        let mut cells = S::all_dead(size);
        let mut i: usize = 0;
        while i < size
            invariant
                i <= size,
                size == width * height,
                target == seeded(seed@, size as nat),
                cells.flags().len() == size,
                forall|j: int| 0 <= j < i ==> cells.flags()[j] == target[j],
                forall|j: int| i <= j < size ==> !cells.flags()[j],
            decreases size - i,
        {
            let alive = i < seed.len() && seed[i];
            assert(alive == target[i as int]);
            cells.put_alive(i, alive);
            i = i + 1;
        }
        assert(cells.flags() =~= target);
        Ok(Universe { width, height, cells })
    }

    /// A universe of the default size, seeded as by `new`.
    pub fn with_default_size(seed: &[bool]) -> (r: Self)
        ensures
            r.wf(),
            r.spec_width() == DEFAULT_WIDTH,
            r.spec_height() == DEFAULT_HEIGHT,
            r.grid() == seeded(seed@, (DEFAULT_WIDTH * DEFAULT_HEIGHT) as nat),
    {
        let size: usize = 4096;
        assert(DEFAULT_WIDTH * DEFAULT_HEIGHT == size);
        let ghost target = seeded(seed@, size as nat);
        let mut cells = S::all_dead(size);
        let mut i: usize = 0;
        while i < size
            invariant
                i <= size,
                size == DEFAULT_WIDTH * DEFAULT_HEIGHT,
                target == seeded(seed@, size as nat),
                cells.flags().len() == size,
                forall|j: int| 0 <= j < i ==> cells.flags()[j] == target[j],
            decreases size - i,
        {
            let alive = i < seed.len() && seed[i];
            assert(alive == target[i as int]);
            cells.put_alive(i, alive);
            i = i + 1;
        }
        assert(cells.flags() =~= target);
        Universe { width: DEFAULT_WIDTH, height: DEFAULT_HEIGHT, cells }
    }

    /// The grid's width.
    pub fn width(&self) -> (r: u32)
        ensures
            r == self.spec_width(),
    {
        self.width
    }

    /// The grid's height.
    pub fn height(&self) -> (r: u32)
        ensures
            r == self.spec_height(),
    {
        self.height
    }

    /// Whether the cell at (`row`, `column`) is alive.
    pub fn is_alive(&self, row: u32, column: u32) -> (r: bool)
        requires
            self.wf(),
            row < self.spec_height(),
            column < self.spec_width(),
        ensures
            r == self.grid()[row * self.spec_width() + column],
    {
        let idx = self.get_index(row, column);
        self.cells.alive_at(idx)
    }

    /// The grid as text: one line per row, one glyph per cell (`DEAD_GLYPH`
    /// or `ALIVE_GLYPH`), each line ended by a newline.
    pub fn render(&self) -> (r: String)
        requires
            self.wf(),
        ensures
            r@ == render_text(self.grid(), self.spec_width(), self.spec_height()),
    {
        let ghost cells = self.grid();
        let ghost w = self.spec_width();
        let mut out = String::new();
        let mut row: u32 = 0;
        while row < self.height
            invariant
                self.wf(),
                self.grid() == cells,
                self.spec_width() == w,
                row <= self.spec_height(),
                out@ == render_text(cells, w, row as nat),
            decreases self.spec_height() - row,
        {
            let ghost before = out@;
            let mut col: u32 = 0;
            while col < self.width
                invariant
                    self.wf(),
                    self.grid() == cells,
                    self.spec_width() == w,
                    row < self.spec_height(),
                    col <= w,
                    before == render_text(cells, w, row as nat),
                    out@ == before + Seq::new(
                        col as nat,
                        |c: int| glyph(cells[row * (w as int) + c]),
                    ),
                decreases w - col,
            {
                let symbol = if self.is_alive(row, col) {
                    ALIVE_GLYPH
                } else {
                    DEAD_GLYPH
                };
                push_char(&mut out, symbol);
                proof {
                    assert(out@ =~= before + Seq::new(
                        (col + 1) as nat,
                        |c: int| glyph(cells[row * (w as int) + c]),
                    ));
                }
                col = col + 1;
            }
            push_char(&mut out, '\n');
            proof {
                let line = (w + 1) as int;
                let next = render_text(cells, w, (row + 1) as nat);
                assert((row + 1) * line == row * line + line) by (nonlinear_arith);
                assert forall|k: int| 0 <= k < (row + 1) * line implies #[trigger] out@[k]
                    == next[k] by {
                    if k >= row * line {
                        lemma_fundamental_div_mod_converse(k, line, row as int, k - row * line);
                    }
                }
                assert(out@ =~= next);
            }
            row = row + 1;
        }
        out
    }
}

impl Universe<FixedBitSet> {
    /// The cells as 32-bit blocks: cell `i`, row-major, is bit `i % 32`
    /// (least significant first) of block `i / 32`, set iff it is alive.
    pub fn cells(&self) -> (r: &[u32])
        ensures
            r@.len() == blocks_for(self.grid().len()),
            unpack_bits(r@, self.grid().len()) == self.grid(),
    {
        bitset_blocks(&self.cells)
    }
}

impl Universe<Vec<Cell>> {
    /// The cells, one per element, row-major.
    pub fn cells(&self) -> (r: &[Cell])
        ensures
            r@.len() == self.grid().len(),
            forall|i: int| 0 <= i < r@.len() ==> (#[trigger] r@[i]).is_alive() == self.grid()[i],
    {
        self.cells.as_slice()
    }
}

/// Relies on `String::push`: appends one character.
#[verifier::external_body]
fn push_char(s: &mut String, c: char)
    ensures
        final(s)@ == old(s)@.push(c),
{
    s.push(c)
}

/// `(x + delta) % m`, computed without overflow.
fn wrap(x: u32, delta: u32, m: u32) -> (r: u32)
    requires
        m > 0,
    ensures
        r == (x + delta) % (m as int),
        r < m,
{
    ((x as u64 + delta as u64) % (m as u64)) as u32
}

} // verus!
