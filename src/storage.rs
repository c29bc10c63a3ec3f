use fixedbitset::FixedBitSet;
use vstd::prelude::*;

verus! {

/// The state of one cell when it is stored one per byte.
#[derive(Clone, Copy, Debug, PartialEq, Eq, Structural)]
pub enum Cell {
    Dead,
    Alive,
}

impl Cell {
    /// Whether the cell is alive.
    pub open spec fn is_alive(self) -> bool {
        self == Cell::Alive
    }

    /// The cell for a liveness flag.
    pub fn from_alive(alive: bool) -> (r: Cell)
        ensures
            r.is_alive() == alive,
    {
        if alive {
            Cell::Alive
        } else {
            Cell::Dead
        }
    }
}

/// Storage for a dense, fixed-length sequence of cells.
///
/// A store is seen as the sequence of liveness flags it holds; the
/// universe reads and writes cells by linear index only.
pub trait CellStore: Sized {
    /// The liveness flags held, in index order.
    spec fn flags(&self) -> Seq<bool>;

    /// A store of `len` dead cells.
    fn all_dead(len: usize) -> (r: Self)
        ensures
            r.flags() == Seq::new(len as nat, |i: int| false),
    ;

    /// Whether the cell at index `i` is alive.
    fn alive_at(&self, i: usize) -> (r: bool)
        requires
            i < self.flags().len(),
        ensures
            r == self.flags()[i as int],
    ;

    /// Makes the cell at index `i` alive or dead.
    fn put_alive(&mut self, i: usize, alive: bool)
        requires
            i < old(self).flags().len(),
        ensures
            final(self).flags() == old(self).flags().update(i as int, alive),
    ;

    /// An independent store holding the same cells.
    fn duplicate(&self) -> (r: Self)
        ensures
            r.flags() == self.flags(),
    ;
}

impl CellStore for Vec<Cell> {
    open spec fn flags(&self) -> Seq<bool> {
        self@.map_values(|c: Cell| c.is_alive())
    }

    fn all_dead(len: usize) -> (r: Self) {
        let mut v: Vec<Cell> = Vec::with_capacity(len);
        let mut k: usize = 0;
        while k < len
            invariant
                k <= len,
                v@.len() == k,
                forall|j: int| 0 <= j < k ==> v@[j] == Cell::Dead,
            decreases len - k,
        {
            v.push(Cell::Dead);
            k = k + 1;
        }
        assert(v.flags() =~= Seq::new(len as nat, |i: int| false));
        v
    }

    fn alive_at(&self, i: usize) -> (r: bool) {
        self[i] == Cell::Alive
    }

    fn put_alive(&mut self, i: usize, alive: bool) {
        self.set(i, Cell::from_alive(alive));
        assert(final(self).flags() =~= old(self).flags().update(i as int, alive));
    }

    fn duplicate(&self) -> (r: Self) {
        let r = self.clone();
        assert(r@ =~= self@);
        r
    }
}

/// Whether bit `k` of block `b` is set.
pub open spec fn block_bit(b: u32, k: nat) -> bool {
    b & (1u32 << (k as u32)) != 0u32
}

/// The first `n` bits of a sequence of 32-bit blocks, least significant bit
/// of each block first.
pub open spec fn unpack_bits(blocks: Seq<u32>, n: nat) -> Seq<bool> {
    Seq::new(n, |i: int| block_bit(blocks[i / 32], (i % 32) as nat))
}

/// The number of 32-bit blocks that hold `n` bits.
pub open spec fn blocks_for(n: nat) -> nat {
    (n + 31) / 32
}

#[verifier::external_type_specification]
#[verifier::external_body]
pub struct ExFixedBitSet(FixedBitSet);

/// The bits that a `FixedBitSet` holds, in index order; its length is the
/// set's length in bits.
pub uninterp spec fn bits_of(s: FixedBitSet) -> Seq<bool>;

/// Relies on `FixedBitSet::with_capacity`: `bits` bits, all clear.
#[verifier::external_body]
fn bitset_with_capacity(bits: usize) -> (r: FixedBitSet)
    ensures
        bits_of(r) == Seq::new(bits as nat, |i: int| false),
{
    FixedBitSet::with_capacity(bits)
}

/// Relies on `FixedBitSet::contains`: whether bit `bit` is set.
#[verifier::external_body]
fn bitset_contains(s: &FixedBitSet, bit: usize) -> (r: bool)
    requires
        bit < bits_of(*s).len(),
    ensures
        r == bits_of(*s)[bit as int],
{
    s.contains(bit)
}

/// Relies on `FixedBitSet::set`, which panics when `bit` is out of bounds
/// and otherwise sets or clears that one bit.
#[verifier::external_body]
fn bitset_set(s: &mut FixedBitSet, bit: usize, enabled: bool)
    requires
        bit < bits_of(*old(s)).len(),
    ensures
        bits_of(*final(s)) == bits_of(*old(s)).update(bit as int, enabled),
{
    s.set(bit, enabled)
}

/// Relies on `FixedBitSet`'s `Clone`: the copy holds the same bits.
#[verifier::external_body]
fn bitset_clone(s: &FixedBitSet) -> (r: FixedBitSet)
    ensures
        bits_of(r) == bits_of(*s),
{
    s.clone()
}

/// Relies on `FixedBitSet::as_slice`: the 32-bit blocks that store the bits,
/// bit `i` being bit `i % 32` of block `i / 32`.
#[verifier::external_body]
pub(crate) fn bitset_blocks(s: &FixedBitSet) -> (r: &[u32])
    ensures
        r@.len() == blocks_for(bits_of(*s).len()),
        unpack_bits(r@, bits_of(*s).len()) == bits_of(*s),
{
    s.as_slice()
}

impl CellStore for FixedBitSet {
    open spec fn flags(&self) -> Seq<bool> {
        bits_of(*self)
    }

    fn all_dead(len: usize) -> (r: Self) {
        bitset_with_capacity(len)
    }

    fn alive_at(&self, i: usize) -> (r: bool) {
        bitset_contains(self, i)
    }

    fn put_alive(&mut self, i: usize, alive: bool) {
        bitset_set(self, i, alive)
    }

    fn duplicate(&self) -> (r: Self) {
        bitset_clone(self)
    }
}

} // verus!
