//! One bit per cell of the grid, kept in a bit array of the `bitvec` crate.
use vstd::prelude::*;

use crate::common::GRID_AREA;
use rand_chacha::ChaCha8Rng;

verus! {

/// A bit array of `20 * 64` bits, exactly one per cell of the grid, in
/// row-major order of the cells.
#[verifier::external_body]
pub struct GridBits {
    bits: bitvec::array::BitArray<[u64; 20], bitvec::order::Msb0>,
}

/// The bits of a grid bit array, in row-major order of the cells.
pub uninterp spec fn bits_of(b: GridBits) -> Seq<bool>;

/// The bit sequence of the given length with every bit clear.
pub open spec fn all_clear(n: nat) -> Seq<bool> {
    Seq::new(n, |i: int| false)
}

impl GridBits {
    /// Relies on `BitArray::ZERO`: every bit is clear.
    #[verifier::external_body]
    pub(crate) fn new() -> (r: GridBits)
        ensures
            bits_of(r) == all_clear(GRID_AREA as nat),
    {
        GridBits { bits: bitvec::array::BitArray::ZERO }
    }

    /// Relies on indexing a `BitArray` by position, which panics only past
    /// its length.
    #[verifier::external_body]
    pub(crate) fn get(&self, i: usize) -> (r: bool)
        requires
            i < bits_of(*self).len(),
        ensures
            r == bits_of(*self)[i as int],
    {
        self.bits[i]
    }

    /// Relies on `BitSlice::set`: writes one bit, and panics only past the
    /// length.
    #[verifier::external_body]
    pub(crate) fn set(&mut self, i: usize, v: bool)
        requires
            i < bits_of(*old(self)).len(),
        ensures
            bits_of(*final(self)) == bits_of(*old(self)).update(i as int, v),
    {
        self.bits.set(i, v)
    }

    /// Relies on `BitOr` for `BitArray`: the bitwise or of two arrays of the
    /// same length.
    #[verifier::external_body]
    pub(crate) fn union(&self, other: &GridBits) -> (r: GridBits)
        requires
            bits_of(*self).len() == bits_of(*other).len(),
        ensures
            bits_of(r).len() == bits_of(*self).len(),
            forall|i: int|
                0 <= i < bits_of(r).len() ==> bits_of(r)[i] == (bits_of(*self)[i]
                    || bits_of(*other)[i]),
    {
        GridBits { bits: self.bits | other.bits }
    }

    /// Relies on `BitSlice::iter_zeros`, which yields the position of every
    /// clear bit, and on `IteratorRandom::choose`, which picks one of the items
    /// at random and gives `None` only when there is none.
    #[verifier::external_body]
    pub(crate) fn random_zero(&self, rng: &mut ChaCha8Rng) -> (r: Option<usize>)
        ensures
            r is None <==> forall|i: int| 0 <= i < bits_of(*self).len() ==> bits_of(*self)[i],
            r matches Some(i) ==> i < bits_of(*self).len() && !bits_of(*self)[i as int],
    {
        rand::seq::IteratorRandom::choose(self.bits.iter_zeros(), rng)
    }
}

} // verus!
