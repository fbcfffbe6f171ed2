use vstd::prelude::*;

verus! {

/// Whether bit `i` of `bits` is set.
pub open spec fn bit_set(bits: u128, i: u32) -> bool {
    (bits >> i) & 1u128 == 1u128
}

/// Calls `u128::trailing_zeros`, documented as the number of trailing zero
/// bits: 128 for zero, otherwise the position of the lowest set bit.
#[verifier::external_body]
fn trailing_zeros_u128(x: u128) -> (r: u32)
    ensures
        r <= 128,
        r == 128 <==> x == 0,
        r < 128 ==> bit_set(x, r),
        forall|j: u32| j < r ==> !#[trigger] bit_set(x, j),
{
    x.trailing_zeros()
}

/// A small set of indices `0..128`, all of them in it at first.
#[derive(Clone, Copy, Debug)]
pub struct BitSet {
    bits: u128,
}

impl BitSet {
    /// Whether index `i` is in the set.
    pub closed spec fn contains(&self, i: u32) -> bool {
        i < 128 && bit_set(self.bits, i)
    }

    pub fn new() -> (r: Self)
        ensures
            forall|i: u32| i < 128 ==> #[trigger] r.contains(i),
    {
        let r = BitSet { bits: !0u128 };
        assert forall|i: u32| i < 128 implies #[trigger] r.contains(i) by {
            let b: u128 = !0u128;
            assert((b >> i) & 1u128 == 1u128) by (bit_vector)
                requires b == !0u128, i < 128;
        }
        r
    }

    /// Takes the lowest index out of the set; `None` when it is empty.
    pub fn add(&mut self) -> (r: Option<u32>)
        ensures
            match r {
                None => {
                    &&& forall|i: u32| !#[trigger] old(self).contains(i)
                    &&& *final(self) == *old(self)
                },
                Some(index) => {
                    &&& old(self).contains(index)
                    &&& forall|j: u32| j < index ==> !#[trigger] old(self).contains(j)
                    &&& forall|j: u32| #[trigger] final(self).contains(j) == (old(self).contains(j) && j != index)
                },
            },
    {
        let index: u32 = trailing_zeros_u128(self.bits);
        if index == 128 {
            proof {
                assert forall|i: u32| !#[trigger] old(self).contains(i) by {
                    let b: u128 = self.bits;
                    if i < 128 {
                        assert((b >> i) & 1u128 == 0u128) by (bit_vector)
                            requires b == 0u128;
                    }
                }
            }
            None
        } else {
            let old_bits: u128 = self.bits;
            let new_bits: u128 = old_bits & !(1u128 << index);
            self.bits = new_bits;
            proof {
                assert forall|j: u32| #[trigger] self.contains(j) == (old(self).contains(j) && j != index) by {
                    if j < 128 {
                        assert(((new_bits >> j) & 1u128 == 1u128) == (((old_bits >> j) & 1u128 == 1u128) && j != index))
                            by (bit_vector)
                            requires new_bits == old_bits & !(1u128 << index), index < 128, j < 128;
                    }
                }
            }
            Some(index)
        }
    }

    /// Meant to put `index` back; it sets every bit but `index`'s, so the set
    /// becomes every index but `index`.
    pub fn unset(&mut self, index: u32)
        requires
            index < 128,
            !old(self).contains(index),
        ensures
            forall|j: u32| #[trigger] final(self).contains(j) == (j < 128 && j != index),
    {
        let old_bits: u128 = self.bits;
        let bit: u128 = 1u128 << index;
        let new_bits: u128 = old_bits | !bit;
        self.bits = new_bits;
        proof {
            assert forall|j: u32| #[trigger] self.contains(j) == (j < 128 && j != index) by {
                if j < 128 {
                    assert(((new_bits >> j) & 1u128 == 1u128) == (j != index))
                        by (bit_vector)
                        requires
                            new_bits == old_bits | !(1u128 << index),
                            (old_bits >> index) & 1u128 != 1u128,
                            index < 128,
                            j < 128;
                }
            }
        }
    }
}

} // verus!
