//! Identities of developers and issuers.

use vstd::prelude::*;
use vstd::string::StringSliceAdditionalSpecFns;
use crate::bytes::{put_slice, put_u16, u16_le};

verus! {

/// Whether `b` is a printable ASCII character, the space included.
pub open spec fn is_printable(b: u8) -> bool {
    0x20 <= b <= 0x7E
}

/// Whether `bytes` can be an identity: 1 to 4096 printable ASCII characters.
pub open spec fn is_identity(bytes: Seq<u8>) -> bool {
    &&& 1 <= bytes.len() <= 4096
    &&& forall|i: int| 0 <= i < bytes.len() ==> is_printable(#[trigger] bytes[i])
}

/// The identity of somebody who gave none: `ssi:anonymous`.
pub open spec fn anonymous() -> Seq<u8> {
    seq![115u8, 115u8, 105u8, 58u8, 97u8, 110u8, 111u8, 110u8, 121u8, 109u8, 111u8, 117u8, 115u8]
}

/// An ASCII printable string of 1 to 4096 characters that stands for the identity of a
/// developer or an issuer. What the string means is left to the applications.
#[derive(PartialEq, Eq, PartialOrd, Ord, Hash, Debug)]
pub struct Identity {
    text: Vec<u8>,
}

impl View for Identity {
    type V = Seq<u8>;

    closed spec fn view(&self) -> Seq<u8> {
        self.text@
    }
}

impl Clone for Identity {
    fn clone(&self) -> (r: Self)
        ensures
            r@ == self@,
    {
        proof {
            use_type_invariant(self);
        }
        let mut text: Vec<u8> = Vec::new();
        put_slice(&mut text, self.text.as_slice());
        assert(text@ =~= self.text@);
        Identity { text }
    }
}

impl Default for Identity {
    fn default() -> (r: Self)
        ensures
            r@ == anonymous(),
    {
        let text: Vec<u8> = vec![
            115u8,
            115u8,
            105u8,
            58u8,
            97u8,
            110u8,
            111u8,
            110u8,
            121u8,
            109u8,
            111u8,
            117u8,
            115u8,
        ];
        assert(text@ =~= anonymous());
        Identity { text }
    }
}

impl Identity {
    #[verifier::type_invariant]
    spec fn valid(&self) -> bool {
        is_identity(self.text@)
    }

    /// The identity that `text` spells; none where `text` is empty, longer than 4096 bytes, or
    /// holds a byte that is no printable ASCII character.
    pub fn from_bytes(text: &[u8]) -> (r: Option<Self>)
        ensures
            r is Some <==> is_identity(text@),
            r matches Some(id) ==> id@ == text@,
    {
        if text.len() < 1 || text.len() > 4096 {
            return None;
        }
        let mut i: usize = 0;
        while i < text.len()
            invariant
                i <= text.len(),
                forall|j: int| 0 <= j < i ==> is_printable(#[trigger] text@[j]),
            decreases text.len() - i,
        {
            if text[i] < 0x20 || text[i] > 0x7E {
                return None;
            }
            i = i + 1;
        }
        let mut copy: Vec<u8> = Vec::new();
        put_slice(&mut copy, text);
        assert(copy@ =~= text@);
        Some(Identity { text: copy })
    }

    /// The identity that `text` spells; see `from_bytes`.
    pub fn from_str(text: &str) -> (r: Option<Self>)
        ensures
            r is Some <==> is_identity(text.spec_bytes()),
            r matches Some(id) ==> id@ == text.spec_bytes(),
    {
        Self::from_bytes(text.as_bytes())
    }

    /// The characters of the identity.
    pub fn as_bytes(&self) -> (r: &[u8])
        ensures
            r@ == self@,
            is_identity(r@),
    {
        proof {
            use_type_invariant(self);
        }
        self.text.as_slice()
    }

    /// Whether no identity was given: see `is_anonymous`.
    pub fn is_empty(&self) -> (r: bool)
        ensures
            r == (self@ == anonymous()),
    {
        self.is_anonymous()
    }

    /// Whether the identity is that of somebody who gave none.
    pub fn is_anonymous(&self) -> (r: bool)
        ensures
            r == (self@ == anonymous()),
    {
        let anon = Identity::default();
        let a = self.text.as_slice();
        let b = anon.text.as_slice();
        if a.len() != b.len() {
            return false;
        }
        let mut i: usize = 0;
        while i < a.len()
            invariant
                i <= a.len(),
                a@.len() == b@.len(),
                a@ == self@,
                b@ == anonymous(),
                forall|j: int| 0 <= j < i ==> a@[j] == b@[j],
            decreases a.len() - i,
        {
            if a[i] != b[i] {
                return false;
            }
            i = i + 1;
        }
        assert(a@ =~= b@);
        true
    }

    /// Canonical bytes of the identity `text`: its length in two little-endian bytes, then its
    /// characters.
    pub open spec fn encoding_of(text: Seq<u8>) -> Seq<u8> {
        u16_le(text.len() as u16) + text
    }

    /// Appends the canonical bytes to `out`.
    pub fn encode(&self, out: &mut Vec<u8>)
        ensures
            final(out)@ == old(out)@ + Self::encoding_of(self@),
    {
        let s = self.as_bytes();
        put_u16(out, s.len() as u16);
        put_slice(out, s);
        assert(out@ =~= old(out)@ + Self::encoding_of(self@));
    }
}

} // verus!
