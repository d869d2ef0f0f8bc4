//! Field elements: 256-bit integers, kept as 32 little-endian bytes.

use vstd::prelude::*;
use crate::bytes::{le_value, le_bytes, zeros, pow256, put_u64, same_bytes};
use crate::bytes::{lemma_le_value_of_le_bytes, lemma_le_value_zero_extend, lemma_le_value_injective};

verus! {

/// Element of a finite field of at most 256 bits.
///
/// The value is the integer that the 32 bytes stand for, least significant byte first. Whether it
/// lies below the order of a given field is a matter of the place that uses it.
#[derive(Clone, Copy, PartialEq, Eq, Hash, Debug)]
pub struct Fe256 {
    pub bytes: [u8; 32],
}

impl View for Fe256 {
    type V = Seq<u8>;

    open spec fn view(&self) -> Seq<u8> {
        self.bytes@
    }
}

impl Fe256 {
    /// The integer that the element stands for.
    pub open spec fn as_nat(&self) -> nat {
        le_value(self@)
    }

    /// The zero element.
    pub fn zero() -> (r: Self)
        ensures
            r@ == zeros(32),
            r.as_nat() == 0,
    {
        let r = Fe256 { bytes: [0u8; 32] };
        proof {
            assert(r@ =~= zeros(32));
            crate::bytes::lemma_le_value_zeros(32);
        }
        r
    }

    /// The element whose little-endian bytes are `bytes`.
    pub fn from_le_bytes(bytes: [u8; 32]) -> (r: Self)
        ensures
            r@ == bytes@,
    {
        Fe256 { bytes }
    }

    /// The 32 little-endian bytes of the element.
    pub fn to_le_bytes(&self) -> (r: [u8; 32])
        ensures
            r@ == self@,
    {
        self.bytes
    }

    /// The element that stands for `v`.
    pub fn from_u64(v: u64) -> (r: Self)
        ensures
            r.as_nat() == v,
            r@ == le_bytes(v as nat, 8) + zeros(24),
    {
        let mut low: Vec<u8> = Vec::new();
        put_u64(&mut low, v);
        assert(low@ =~= le_bytes(v as nat, 8));
        let mut bytes = [0u8; 32];
        let mut i: usize = 0;
        while i < 8
            invariant
                i <= 8,
                low@.len() == 8,
                forall|j: int| 0 <= j < i ==> bytes@[j] == low@[j],
                forall|j: int| i <= j < 32 ==> bytes@[j] == 0u8,
            decreases 8 - i,
        {
            bytes[i] = low[i];
            i = i + 1;
        }
        let r = Fe256 { bytes };
        proof {
            assert(r@ =~= le_bytes(v as nat, 8) + zeros(24));
            lemma_le_value_zero_extend(le_bytes(v as nat, 8), 24);
            assert(pow256(8) == 0x1_0000_0000_0000_0000) by {
                reveal_with_fuel(pow256, 9);
            }
            lemma_le_value_of_le_bytes(v as nat, 8);
        }
        r
    }

    /// The element that stands for `v`.
    pub fn from_u32(v: u32) -> (r: Self)
        ensures
            r.as_nat() == v,
    {
        Self::from_u64(v as u64)
    }

    /// The element that stands for `v`.
    pub fn from_u16(v: u16) -> (r: Self)
        ensures
            r.as_nat() == v,
    {
        Self::from_u64(v as u64)
    }

    /// The element that stands for `v`.
    pub fn from_u8(v: u8) -> (r: Self)
        ensures
            r.as_nat() == v,
    {
        Self::from_u64(v as u64)
    }

    /// Whether the two elements are the same.
    pub fn is(&self, other: &Fe256) -> (r: bool)
        ensures
            r == (self@ == other@),
            r == (self.as_nat() == other.as_nat()),
    {
        proof {
            if self.as_nat() == other.as_nat() {
                lemma_le_value_injective(self@, other@);
            }
        }
        same_bytes(&self.bytes, &other.bytes)
    }

    /// Whether the integer of `self` lies below that of `other`.
    pub fn is_below(&self, other: &Fe256) -> (r: bool)
        ensures
            r == (self.as_nat() < other.as_nat()),
    {
        let mut lt = false;
        let mut eq = true;
        let mut i: usize = 32;
        assert(self@.skip(32) =~= Seq::<u8>::empty());
        assert(other@.skip(32) =~= Seq::<u8>::empty());
        while i > 0
            invariant
                i <= 32,
                lt == (le_value(self@.skip(i as int)) < le_value(other@.skip(i as int))),
                eq == (le_value(self@.skip(i as int)) == le_value(other@.skip(i as int))),
            decreases i,
        {
            i = i - 1;
            let a = self.bytes[i];
            let b = other.bytes[i];
            proof {
                assert(self@.skip(i as int).drop_first() =~= self@.skip(i + 1));
                assert(other@.skip(i as int).drop_first() =~= other@.skip(i + 1));
                assert(self@.skip(i as int)[0] == a);
                assert(other@.skip(i as int)[0] == b);
            }
            if !lt {
                lt = eq && a < b;
            }
            eq = eq && a == b;
        }
        assert(self@.skip(0) =~= self@);
        assert(other@.skip(0) =~= other@);
        lt
    }
}

} // verus!
