//! The issue of a contract, and the identifier of the contract.

use vstd::prelude::*;
use vstd::string::StringSliceAdditionalSpecFns;
use crate::bytes::{i64_le, put_i64, put_slice, same_bytes, zeros};
use crate::codex::{Codex, CodexView};
use crate::commit::{tagged_hash, tagged_sha256};
use crate::operation::{Genesis, Opid};
use crate::site::ReservedBytes;
use crate::text::{baid64_string, TextForm};
use crate::util::Identity;

verus! {

/// Tag of the hash that makes a contract identifier.
pub const CONTRACT_TAG: &'static str = "urn:ubideco:sonic:contract#2024-11-16";

/// Human-readable identifier in the text of a contract identifier.
pub const CONTRACT_HRI: &'static str = "contract";

/// Unique contract identifier: the commitment to the issue of the contract.
#[derive(Clone, Copy, PartialEq, Eq, PartialOrd, Ord, Hash, Debug)]
pub struct ContractId {
    pub bytes: [u8; 32],
}

impl View for ContractId {
    type V = Seq<u8>;

    open spec fn view(&self) -> Seq<u8> {
        self.bytes@
    }
}

/// The 32 bytes `0xFF`: what stands for the contract identifier in the genesis while the
/// identifier of the contract is computed.
pub open spec fn placeholder_bytes() -> Seq<u8> {
    Seq::new(32, |i: int| 0xFFu8)
}

impl ContractId {
    /// The identifier made of `bytes`.
    pub fn from_byte_array(bytes: [u8; 32]) -> (r: Self)
        ensures
            r@ == bytes@,
    {
        ContractId { bytes }
    }

    /// The 32 bytes of the identifier.
    pub fn to_byte_array(&self) -> (r: [u8; 32])
        ensures
            r@ == self@,
    {
        self.bytes
    }

    /// The identifier that stands in for the one of a contract which is not known yet.
    pub fn placeholder() -> (r: Self)
        ensures
            r@ == placeholder_bytes(),
            r == Self::placeholder_spec(),
    {
        let r = ContractId { bytes: [0xFFu8; 32] };
        assert(r@ =~= placeholder_bytes());
        r
    }

    /// The placeholder, in specifications.
    pub open spec fn placeholder_spec() -> ContractId {
        ContractId { bytes: vstd::array::spec_array_fill_for_copy_type::<u8, 32>(0xFFu8) }
    }

    /// Whether the two identifiers are the same.
    pub fn is(&self, other: &ContractId) -> (r: bool)
        ensures
            r == (self@ == other@),
            r == (*self == *other),
    {
        let r = same_bytes(&self.bytes, &other.bytes);
        proof {
            if r {
                assert(self.bytes =~= other.bytes);
            }
        }
        r
    }

    /// How the identifier is written by default: in chunks, with the prefix, without mnemonic.
    pub open spec fn text_form_spec() -> TextForm {
        TextForm { chunking: true, chunk_first: 8, chunk_len: 7, prefix: true, mnemonic: false, embed_checksum: false }
    }

    /// How the value is written by default.
    pub fn text_form() -> (r: TextForm)
        ensures
            r == Self::text_form_spec(),
            r.fits(30),
    {
        TextForm { chunking: true, chunk_first: 8, chunk_len: 7, prefix: true, mnemonic: false, embed_checksum: false }
    }

    /// The text of the identifier in the form `form`.
    pub open spec fn text(&self, form: TextForm) -> Seq<char> {
        form.text_of(CONTRACT_HRI@, self@)
    }

    /// The identifier as text, in its default form.
    pub fn to_baid64_string(&self) -> (r: String)
        ensures
            r@ == self.text(Self::text_form_spec()),
    {
        self.to_baid64_string_as(Self::text_form())
    }

    /// The identifier as text, in the form `form`.
    pub fn to_baid64_string_as(&self, form: TextForm) -> (r: String)
        requires
            form.fits(32),
        ensures
            r@ == self.text(form),
    {
        proof {
            reveal_strlit("contract");
        }
        baid64_string(CONTRACT_HRI, self.bytes, form)
    }
}

/// Whether two byte strings are the same.
pub fn same_slice(a: &[u8], b: &[u8]) -> (r: bool)
    ensures
        r == (a@ == b@),
{
    if a.len() != b.len() {
        return false;
    }
    let mut i: usize = 0;
    while i < a.len()
        invariant
            i <= a.len(),
            a@.len() == b@.len(),
            forall|j: int| 0 <= j < i ==> a@[j] == b@[j],
        decreases a.len() - i,
    {
        if a[i] != b[i] {
            return false;
        }
        i = i + 1;
    }
    assert(a@ =~= b@);
    true
}

/// Consensus (layer 1) which is used by a contract.
#[derive(Copy, Clone, Eq, PartialEq, Ord, PartialOrd, Debug)]
pub enum Consensus {
    /// No consensus is used: the contract data are not final and depend on the external
    /// consensus between the contract parties.
    Absent,
    /// Bitcoin PoW consensus.
    Bitcoin,
    /// Liquid federation consensus.
    Liquid,
    /// Prime consensus.
    Prime,
}

impl Consensus {
    /// The byte that stands for the consensus.
    pub open spec fn tag_spec(&self) -> u8 {
        match *self {
            Consensus::Absent => 0x00,
            Consensus::Bitcoin => 0x10,
            Consensus::Liquid => 0x11,
            Consensus::Prime => 0x20,
        }
    }

    /// The lower-case name of the consensus, in ASCII.
    pub open spec fn name_spec(&self) -> Seq<u8> {
        match *self {
            Consensus::Absent => seq![110u8, 111u8, 110u8, 101u8],
            Consensus::Bitcoin => seq![98u8, 105u8, 116u8, 99u8, 111u8, 105u8, 110u8],
            Consensus::Liquid => seq![108u8, 105u8, 113u8, 117u8, 105u8, 100u8],
            Consensus::Prime => seq![112u8, 114u8, 105u8, 109u8, 101u8],
        }
    }

    /// The consensus that the lower-case name `name` stands for, if it stands for one: `none`,
    /// `bitcoin`, `liquid` or `prime`.
    pub open spec fn of_name(name: Seq<u8>) -> Option<Consensus> {
        if name == Consensus::Absent.name_spec() {
            Some(Consensus::Absent)
        } else if name == Consensus::Bitcoin.name_spec() {
            Some(Consensus::Bitcoin)
        } else if name == Consensus::Liquid.name_spec() {
            Some(Consensus::Liquid)
        } else if name == Consensus::Prime.name_spec() {
            Some(Consensus::Prime)
        } else {
            None
        }
    }

    /// The byte that stands for the consensus.
    pub fn tag(&self) -> (r: u8)
        ensures
            r == self.tag_spec(),
    {
        match *self {
            Consensus::Absent => 0x00,
            Consensus::Bitcoin => 0x10,
            Consensus::Liquid => 0x11,
            Consensus::Prime => 0x20,
        }
    }

    /// The consensus that the byte `tag` stands for, if it stands for one.
    pub fn from_tag(tag: u8) -> (r: Option<Consensus>)
        ensures
            r matches Some(c) ==> c.tag_spec() == tag,
            r is None ==> forall|c: Consensus| c.tag_spec() != tag,
    {
        if tag == 0x00 {
            Some(Consensus::Absent)
        } else if tag == 0x10 {
            Some(Consensus::Bitcoin)
        } else if tag == 0x11 {
            Some(Consensus::Liquid)
        } else if tag == 0x20 {
            Some(Consensus::Prime)
        } else {
            None
        }
    }

    /// The lower-case name of the consensus.
    pub fn name(&self) -> (r: Vec<u8>)
        ensures
            r@ == self.name_spec(),
    {
        let r = match *self {
            Consensus::Absent => vec![110u8, 111u8, 110u8, 101u8],
            Consensus::Bitcoin => vec![98u8, 105u8, 116u8, 99u8, 111u8, 105u8, 110u8],
            Consensus::Liquid => vec![108u8, 105u8, 113u8, 117u8, 105u8, 100u8],
            Consensus::Prime => vec![112u8, 114u8, 105u8, 109u8, 101u8],
        };
        assert(r@ =~= self.name_spec());
        r
    }

    /// Reads a consensus from its lower-case name. Any other text comes back as the error.
    pub fn from_str(s: &str) -> (r: Result<Consensus, String>)
        ensures
            match Self::of_name(s.spec_bytes()) {
                Some(c) => r == Ok::<Consensus, String>(c),
                None => r is Err && r->Err_0@ == s@,
            },
    {
        let bytes = s.as_bytes();
        if same_slice(bytes, Consensus::Absent.name().as_slice()) {
            Ok(Consensus::Absent)
        } else if same_slice(bytes, Consensus::Bitcoin.name().as_slice()) {
            Ok(Consensus::Bitcoin)
        } else if same_slice(bytes, Consensus::Liquid.name().as_slice()) {
            Ok(Consensus::Liquid)
        } else if same_slice(bytes, Consensus::Prime.name().as_slice()) {
            Ok(Consensus::Prime)
        } else {
            Err(s.to_owned())
        }
    }
}

/// The name of a consensus reads back as that consensus.
pub proof fn lemma_consensus_name_round_trip(c: Consensus)
    ensures
        Consensus::of_name(c.name_spec()) == Some(c),
{
    assert(Consensus::Absent.name_spec().len() == 4);
    assert(Consensus::Bitcoin.name_spec().len() == 7);
    assert(Consensus::Liquid.name_spec().len() == 6);
    assert(Consensus::Prime.name_spec().len() == 5);
}

/// Whether `b` can start the name of a type: a capital letter or a low line.
pub open spec fn is_name_start(b: u8) -> bool {
    (0x41 <= b <= 0x5A) || b == 0x5F
}

/// Whether `b` can stand in the name of a type: a letter, a digit or a low line.
pub open spec fn is_name_char(b: u8) -> bool {
    (0x41 <= b <= 0x5A) || (0x61 <= b <= 0x7A) || (0x30 <= b <= 0x39) || b == 0x5F
}

/// Whether `bytes` can be the name of a type: 1 to 100 characters, the first a capital letter
/// or a low line, the others letters, digits or low lines.
pub open spec fn is_type_name(bytes: Seq<u8>) -> bool {
    &&& 1 <= bytes.len() <= 100
    &&& is_name_start(bytes[0])
    &&& forall|i: int| 1 <= i < bytes.len() ==> is_name_char(#[trigger] bytes[i])
}

/// The name of a type: here, of a contract.
#[derive(PartialEq, Eq, PartialOrd, Ord, Hash, Debug)]
pub struct TypeName {
    text: Vec<u8>,
}

impl View for TypeName {
    type V = Seq<u8>;

    closed spec fn view(&self) -> Seq<u8> {
        self.text@
    }
}

impl Clone for TypeName {
    fn clone(&self) -> (r: Self)
        ensures
            r@ == self@,
    {
        proof {
            use_type_invariant(self);
        }
        let mut text: Vec<u8> = Vec::new();
        put_slice(&mut text, self.text.as_slice());
        assert(text@ =~= self.text@);
        TypeName { text }
    }
}

impl TypeName {
    #[verifier::type_invariant]
    spec fn valid(&self) -> bool {
        is_type_name(self.text@)
    }

    /// The name that `text` spells; none where `text` cannot be the name of a type.
    pub fn from_bytes(text: &[u8]) -> (r: Option<Self>)
        ensures
            r is Some <==> is_type_name(text@),
            r matches Some(name) ==> name@ == text@,
    {
        if text.len() < 1 || text.len() > 100 {
            return None;
        }
        let first = text[0];
        if !((0x41 <= first && first <= 0x5A) || first == 0x5F) {
            return None;
        }
        let mut i: usize = 1;
        while i < text.len()
            invariant
                1 <= i <= text.len(),
                forall|j: int| 1 <= j < i ==> is_name_char(#[trigger] text@[j]),
            decreases text.len() - i,
        {
            let b = text[i];
            if !((0x41 <= b && b <= 0x5A) || (0x61 <= b && b <= 0x7A) || (0x30 <= b && b <= 0x39) || b
                == 0x5F) {
                return None;
            }
            i = i + 1;
        }
        let mut copy: Vec<u8> = Vec::new();
        put_slice(&mut copy, text);
        assert(copy@ =~= text@);
        Some(TypeName { text: copy })
    }

    /// The name that `text` spells; see `from_bytes`.
    pub fn from_str(text: &str) -> (r: Option<Self>)
        ensures
            r is Some <==> is_type_name(text.spec_bytes()),
            r matches Some(name) ==> name@ == text.spec_bytes(),
    {
        Self::from_bytes(text.as_bytes())
    }

    /// The characters of the name.
    pub fn as_bytes(&self) -> (r: &[u8])
        ensures
            r@ == self@,
            is_type_name(r@),
    {
        proof {
            use_type_invariant(self);
        }
        self.text.as_slice()
    }
}

/// Contract name.
#[derive(PartialEq, Eq, PartialOrd, Ord, Hash, Debug)]
pub enum ContractName {
    /// The contract is unnamed.
    Unnamed,
    /// The contract has a specific name.
    Named(TypeName),
}

impl Clone for ContractName {
    fn clone(&self) -> (r: Self)
        ensures
            r@ == self@,
    {
        match self {
            ContractName::Unnamed => ContractName::Unnamed,
            ContractName::Named(name) => ContractName::Named(name.clone()),
        }
    }
}

impl View for ContractName {
    type V = Option<Seq<u8>>;

    /// The characters of the name, if the contract has one.
    open spec fn view(&self) -> Option<Seq<u8>> {
        match self {
            ContractName::Unnamed => None,
            ContractName::Named(name) => Some(name@),
        }
    }
}

/// Canonical bytes of a contract name: a zero byte for no name; else a one byte, the length of
/// the name in one byte, and its characters.
pub open spec fn contract_name_encoding(name: Option<Seq<u8>>) -> Seq<u8> {
    match name {
        None => seq![0u8],
        Some(text) => seq![1u8, text.len() as u8] + text,
    }
}

impl ContractName {
    /// Appends the canonical bytes to `out`.
    pub fn encode(&self, out: &mut Vec<u8>)
        ensures
            final(out)@ == old(out)@ + contract_name_encoding(self@),
    {
        match self {
            ContractName::Unnamed => {
                out.push(0u8);
            },
            ContractName::Named(name) => {
                let text = name.as_bytes();
                out.push(1u8);
                out.push(text.len() as u8);
                put_slice(out, text);
            },
        }
        assert(out@ =~= old(out)@ + contract_name_encoding(self@));
    }
}

/// What the metadata of a contract hold.
pub ghost struct ContractMetaView {
    pub testnet: bool,
    pub consensus: Consensus,
    pub timestamp: i64,
    pub name: Option<Seq<u8>>,
    pub issuer: Seq<u8>,
}

impl ContractMetaView {
    /// Canonical bytes: a header of fixed size, made of a byte that tells a test contract, the
    /// byte of the consensus, 14 reserved zero bytes and the timestamp; then the name and the
    /// issuer.
    pub open spec fn encoding(&self) -> Seq<u8> {
        seq![if self.testnet { 1u8 } else { 0u8 }, self.consensus.tag_spec()] + zeros(14) + i64_le(
            self.timestamp,
        ) + contract_name_encoding(self.name) + Identity::encoding_of(self.issuer)
    }
}

/// Metadata about the contract.
#[derive(PartialEq, Eq, Debug)]
pub struct ContractMeta {
    /// Indicated whether the contract is a test contract.
    pub testnet: bool,
    /// Consensus layer used by the contract.
    pub consensus: Consensus,
    /// Reserved bytes, providing alignment to the 16-byte edge.
    pub reserved: ReservedBytes<14>,
    /// Timestamp of the moment the contract is issued.
    pub timestamp: i64,
    /// A name of the contract.
    pub name: ContractName,
    /// An identity of the contract issuer.
    pub issuer: Identity,
}

impl View for ContractMeta {
    type V = ContractMetaView;

    open spec fn view(&self) -> ContractMetaView {
        ContractMetaView {
            testnet: self.testnet,
            consensus: self.consensus,
            timestamp: self.timestamp,
            name: self.name@,
            issuer: self.issuer@,
        }
    }
}

impl Clone for ContractMeta {
    fn clone(&self) -> (r: Self)
        ensures
            r@ == self@,
    {
        ContractMeta {
            testnet: self.testnet,
            consensus: self.consensus,
            reserved: self.reserved,
            timestamp: self.timestamp,
            name: self.name.clone(),
            issuer: self.issuer.clone(),
        }
    }
}

impl ContractMeta {
    /// Appends the canonical bytes to `out`.
    pub fn encode(&self, out: &mut Vec<u8>)
        ensures
            final(out)@ == old(out)@ + self@.encoding(),
    {
        out.push(if self.testnet { 1u8 } else { 0u8 });
        out.push(self.consensus.tag());
        self.reserved.encode(out);
        put_i64(out, self.timestamp);
        self.name.encode(out);
        self.issuer.encode(out);
        assert(out@ =~= old(out)@ + self@.encoding());
    }
}

/// What the identifier of a contract commits to: the version byte, the metadata, the identifier
/// of the codex, and the identifier that the genesis has as an operation under the placeholder
/// contract.
pub open spec fn contract_commitment(meta: ContractMetaView, codex_id: Seq<u8>, genesis_opid: Seq<u8>) -> Seq<
    u8,
> {
    zeros(1) + meta.encoding() + codex_id + genesis_opid
}

/// The identifier of the contract with the given metadata, codex identifier and genesis
/// identifier under the placeholder contract: the tagged hash of what it commits to.
pub open spec fn contract_id_of(meta: ContractMetaView, codex_id: Seq<u8>, genesis_opid: Seq<u8>) -> Seq<u8> {
    tagged_sha256(CONTRACT_TAG@, contract_commitment(meta, codex_id, genesis_opid))
}

/// Information on the issue of the contract.
#[derive(PartialEq, Eq, Debug)]
pub struct Issue {
    /// Version of the contract: one reserved byte.
    pub version: ReservedBytes<1>,
    /// Contract metadata.
    pub meta: ContractMeta,
    /// The codex under which the contract is issued and against which it must be validated.
    pub codex: Codex,
    /// Genesis operation.
    pub genesis: Genesis,
}

impl Issue {
    /// The issue is well formed where its codex and its genesis are.
    pub open spec fn wf(&self) -> bool {
        self.codex@.wf() && self.genesis.wf()
    }

    /// The identifier of the genesis as an operation under the placeholder contract.
    pub open spec fn placeholder_opid(&self) -> Seq<u8> {
        self.genesis.operation_view(ContractId::placeholder_spec()).opid()
    }

    /// The identifier of the contract.
    pub open spec fn contract_id_spec(&self) -> Seq<u8> {
        contract_id_of(self.meta@, self.codex@.codex_id(), self.placeholder_opid())
    }

    /// Appends to `out` what the identifier of the contract commits to.
    pub fn commit_encode(&self, out: &mut Vec<u8>)
        requires
            self.wf(),
        ensures
            final(out)@ == old(out)@ + contract_commitment(
                self.meta@,
                self.codex@.codex_id(),
                self.placeholder_opid(),
            ),
    {
        self.version.encode(out);
        self.meta.encode(out);
        let codex_id = self.codex.codex_id();
        put_slice(out, codex_id.bytes.as_slice());
        let placeholder = ContractId::placeholder();
        let opid = self.genesis.opid(placeholder);
        put_slice(out, opid.bytes.as_slice());
        assert(out@ =~= old(out)@ + contract_commitment(
            self.meta@,
            self.codex@.codex_id(),
            self.placeholder_opid(),
        ));
    }

    /// Computes contract id: a commitment to the contract issue information, which includes
    /// contract metadata, codex, and genesis operation.
    pub fn contract_id(&self) -> (r: ContractId)
        requires
            self.wf(),
        ensures
            r@ == self.contract_id_spec(),
    {
        let mut out: Vec<u8> = Vec::new();
        self.commit_encode(&mut out);
        assert(out@ =~= contract_commitment(self.meta@, self.codex@.codex_id(), self.placeholder_opid()));
        ContractId { bytes: tagged_hash(CONTRACT_TAG, out.as_slice()) }
    }

    /// Computes the operation id of the genesis operation: the id that the genesis has as an
    /// operation under the contract of the issue.
    pub fn genesis_opid(&self) -> (r: Opid)
        requires
            self.wf(),
        ensures
            exists|id: ContractId|
                id@ == self.contract_id_spec() && r@ == #[trigger] self.genesis.operation_view(id).opid(),
    {
        let id = self.contract_id();
        self.genesis.opid(id)
    }
}

/// Two issues with the same metadata, whose codices have one identifier and whose geneses have
/// one identifier under the placeholder contract, have the same contract identifier.
pub proof fn lemma_contract_id_by_parts(a: Issue, b: Issue)
    requires
        a.meta@ == b.meta@,
        a.codex@.codex_id() == b.codex@.codex_id(),
        a.placeholder_opid() == b.placeholder_opid(),
    ensures
        a.contract_id_spec() == b.contract_id_spec(),
{
}

} // verus!
