//! Picking an element out of a collection of a given size by a random index.
use vstd::prelude::*;

verus! {

/// A random value that selects one position out of any non-empty collection.
///
/// The value is spread over the whole range of `usize`; a collection of `size` elements
/// is indexed at `size * raw / 2^usize::BITS`, which keeps the choice roughly uniform.
#[derive(Clone, Copy, Debug, PartialEq, Eq, Structural)]
pub struct SampleIndex {
    pub raw: usize,
}

/// The position that `raw` selects in a collection of `size` elements.
pub open spec fn sample_position(raw: usize, size: int) -> int {
    (size * raw as int) / (usize::MAX as int + 1)
}

/// The position an index selects lies in the collection.
pub proof fn lemma_sample_position_in_range(raw: usize, size: int)
    requires
        size > 0,
    ensures
        0 <= sample_position(raw, size) < size,
{
    let m = usize::MAX as int + 1;
    let p = size * raw as int;
    assert(0 <= p < size * m) by (nonlinear_arith)
        requires
            p == size * raw as int,
            0 <= raw < m,
            size > 0,
    ;
    assert(0 <= p / m < size) by (nonlinear_arith)
        requires
            0 <= p < size * m,
            m > 0,
    ;
}

/// Every position of a collection that is not larger than the range of `usize` is
/// selected by some index.
pub proof fn lemma_sample_position_onto(size: int, j: int)
    requires
        0 <= j < size <= usize::MAX as int + 1,
    ensures
        exists|raw: usize| #[trigger] sample_position(raw, size) == j,
{
    let m = usize::MAX as int + 1;
    let a = j * m + size - 1;
    let q = a / size;
    let r = a % size;
    assert(a == size * q + r && 0 <= r < size) by (nonlinear_arith)
        requires
            q == a / size,
            r == a % size,
            size > 0,
    ;
    assert(j * m <= size * q < j * m + m) by (nonlinear_arith)
        requires
            a == size * q + r,
            0 <= r < size,
            a == j * m + size - 1,
            size <= m,
    ;
    assert(0 <= q < m) by (nonlinear_arith)
        requires
            j * m <= size * q < j * m + m,
            0 <= j < size,
            size <= m,
            j >= 0,
    ;
    assert((size * q) / m == j) by (nonlinear_arith)
        requires
            j * m <= size * q < j * m + m,
            m > 0,
    ;
    let raw = q as usize;
    assert(sample_position(raw, size) == j);
}

impl SampleIndex {
    pub fn new(raw: usize) -> (r: SampleIndex)
        ensures
            r.raw == raw,
    {
        SampleIndex { raw }
    }

    /// The position that this index selects in a collection of `size` elements.
    pub fn index(&self, size: usize) -> (r: usize)
        requires
            size > 0,
        ensures
            r == sample_position(self.raw, size as int),
            r < size,
    {
        let a: u128 = size as u128;
        let b: u128 = self.raw as u128;
        assert(a * b <= (usize::MAX as int) * (usize::MAX as int)) by (nonlinear_arith)
            requires
                a <= usize::MAX,
                b <= usize::MAX,
        ;
        assert((usize::MAX as int) * (usize::MAX as int) < u128::MAX) by (nonlinear_arith)
            requires
                usize::MAX <= u64::MAX,
        ;
        let prod: u128 = a * b;
        let d: u128 = (usize::MAX as u128) + 1;
        let q: u128 = prod / d;
        assert(q < a) by (nonlinear_arith)
            requires
                q == prod / d,
                prod == a * b,
                b < d,
                d > 0,
                a > 0,
        ;
        q as usize
    }
}

} // verus!
