//! Textual form of identifiers.

use vstd::prelude::*;
use baid64::Baid64Display;

verus! {

/// The Baid64 text of `payload` under the human-readable identifier `hri`: what `baid64` writes
/// for a `Baid64Display` made with these settings, in its plain format.
pub uninterp spec fn baid64_text(
    hri: Seq<char>,
    payload: Seq<u8>,
    chunking: bool,
    chunk_first: usize,
    chunk_len: usize,
    prefix: bool,
    mnemonic: bool,
    embed_checksum: bool,
) -> Seq<char>;

/// How an identifier is written as text.
#[derive(Clone, Copy, PartialEq, Eq, Debug)]
pub struct TextForm {
    /// Whether the text is split into chunks by hyphens.
    pub chunking: bool,
    /// The number of characters in the first chunk.
    pub chunk_first: usize,
    /// The number of characters in each further chunk.
    pub chunk_len: usize,
    /// Whether the human-readable identifier and a colon come first.
    pub prefix: bool,
    /// Whether a mnemonic of the checksum comes last, after a hash sign.
    pub mnemonic: bool,
    /// Whether the checksum is encoded together with the payload.
    pub embed_checksum: bool,
}

impl TextForm {
    /// The text of `payload` under `hri` in this form.
    pub open spec fn text_of(&self, hri: Seq<char>, payload: Seq<u8>) -> Seq<char> {
        baid64_text(
            hri,
            payload,
            self.chunking,
            self.chunk_first,
            self.chunk_len,
            self.prefix,
            self.mnemonic,
            self.embed_checksum,
        )
    }

    /// Whether text can be written in this form for a payload of `len` bytes: there are at
    /// least four bytes, a first chunk is no longer than the payload, and chunks are not empty.
    pub open spec fn fits(&self, len: usize) -> bool {
        len >= 4 && self.chunk_first <= len && self.chunk_len > 0
    }

    /// The form in which the prefix is shown where `self` hides it, and hidden where `self`
    /// shows it.
    pub fn toggle_prefix(self) -> (r: Self)
        ensures
            r == (TextForm { prefix: !self.prefix, ..self }),
    {
        TextForm { prefix: !self.prefix, ..self }
    }

    /// The form in which the mnemonic is shown where `self` hides it, and hidden where `self`
    /// shows it.
    pub fn toggle_mnemonic(self) -> (r: Self)
        ensures
            r == (TextForm { mnemonic: !self.mnemonic, ..self }),
    {
        TextForm { mnemonic: !self.mnemonic, ..self }
    }
}

/// Calls `Baid64Display::with`, and `to_string` on what it returns. Only that the text is a
/// function of the arguments is claimed. The call wants an identifier `hri` of at most 16 bytes
/// and a payload of at least four; the text is cut into chunks where more than a first chunk's
/// characters are always there, and where chunks are not empty.
#[verifier::external_body]
pub(crate) fn baid64_string<const LEN: usize>(hri: &'static str, payload: [u8; LEN], form: TextForm) -> (r:
    String)
    requires
        hri@.len() <= 16,
        hri.is_ascii(),
        form.fits(LEN),
    ensures
        r@ == baid64_text(
            hri@,
            payload@,
            form.chunking,
            form.chunk_first,
            form.chunk_len,
            form.prefix,
            form.mnemonic,
            form.embed_checksum,
        ),
{
    Baid64Display::with(
        hri,
        payload,
        form.chunking,
        form.chunk_first,
        form.chunk_len,
        form.prefix,
        form.mnemonic,
        form.embed_checksum,
    ).to_string()
}

} // verus!
