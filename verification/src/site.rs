//! Identifiers of VM libraries and of positions in their code.

use vstd::prelude::*;
use crate::bytes::{u16_le, put_u16, put_slice, same_bytes};

verus! {

/// Identifier of a VM library: the commitment to its code, data and dependencies.
#[derive(Clone, Copy, PartialEq, Eq, PartialOrd, Ord, Hash, Debug)]
pub struct LibId {
    pub bytes: [u8; 32],
}

impl View for LibId {
    type V = Seq<u8>;

    open spec fn view(&self) -> Seq<u8> {
        self.bytes@
    }
}

impl LibId {
    /// The identifier made of `bytes`.
    pub fn from_byte_array(bytes: [u8; 32]) -> (r: Self)
        ensures
            r@ == bytes@,
    {
        LibId { bytes }
    }

    /// The 32 bytes of the identifier.
    pub fn to_byte_array(&self) -> (r: [u8; 32])
        ensures
            r@ == self@,
    {
        self.bytes
    }

    /// Whether the two identifiers are the same.
    pub fn is(&self, other: &LibId) -> (r: bool)
        ensures
            r == (self@ == other@),
    {
        same_bytes(&self.bytes, &other.bytes)
    }
}

/// A position in the code of a library: where a script starts.
#[derive(Clone, Copy, PartialEq, Eq, PartialOrd, Ord, Hash, Debug)]
pub struct LibSite {
    /// The library that holds the code.
    pub lib_id: LibId,
    /// Offset of the first instruction in the library's code segment.
    pub offset: u16,
}

impl LibSite {
    /// The site at `offset` in the library `lib_id`.
    pub fn new(lib_id: LibId, offset: u16) -> (r: Self)
        ensures
            r.lib_id == lib_id,
            r.offset == offset,
    {
        LibSite { lib_id, offset }
    }

    /// Canonical bytes: the library id, then the offset in little-endian order.
    pub open spec fn encoding(&self) -> Seq<u8> {
        self.lib_id@ + u16_le(self.offset)
    }

    /// Appends the canonical bytes to `out`.
    pub fn encode(&self, out: &mut Vec<u8>)
        ensures
            final(out)@ == old(out)@ + self.encoding(),
    {
        put_slice(out, self.lib_id.bytes.as_slice());
        put_u16(out, self.offset);
        assert(out@ =~= old(out)@ + self.encoding());
    }
}

/// Bytes kept for later use, all zero for now. A value carries nothing; its canonical bytes are
/// `LEN` zeros, and a reader of bytes takes nothing else in their place.
#[derive(Clone, Copy, PartialEq, Eq, PartialOrd, Ord, Hash, Debug, Default)]
pub struct ReservedBytes<const LEN: usize> {}

impl<const LEN: usize> ReservedBytes<LEN> {
    /// The reserved bytes.
    pub fn new() -> (r: Self) {
        ReservedBytes {  }
    }

    /// Canonical bytes: `LEN` zeros.
    pub open spec fn encoding(&self) -> Seq<u8> {
        crate::bytes::zeros(LEN as nat)
    }

    /// Appends the canonical bytes to `out`.
    pub fn encode(&self, out: &mut Vec<u8>)
        ensures
            final(out)@ == old(out)@ + self.encoding(),
    {
        let mut i: usize = 0;
        assert(out@ =~= old(out)@ + crate::bytes::zeros(0));
        while i < LEN
            invariant
                i <= LEN,
                out@ == old(out)@ + crate::bytes::zeros(i as nat),
            decreases LEN - i,
        {
            out.push(0u8);
            i = i + 1;
            assert(out@ =~= old(out)@ + crate::bytes::zeros(i as nat));
        }
    }

    /// Whether `bytes` are what stands for the reserved bytes: `LEN` zeros.
    pub fn accepts(bytes: &[u8]) -> (r: bool)
        ensures
            r == (bytes@ == Self::new_spec().encoding()),
    {
        if bytes.len() != LEN {
            return false;
        }
        let mut i: usize = 0;
        while i < LEN
            invariant
                i <= LEN,
                bytes.len() == LEN,
                forall|j: int| 0 <= j < i ==> bytes@[j] == 0u8,
            decreases LEN - i,
        {
            if bytes[i] != 0 {
                assert(crate::bytes::zeros(LEN as nat)[i as int] == 0u8);
                return false;
            }
            i = i + 1;
        }
        assert(bytes@ =~= crate::bytes::zeros(LEN as nat));
        true
    }

    /// The one value of the type.
    pub open spec fn new_spec() -> Self {
        ReservedBytes {  }
    }
}

} // verus!
