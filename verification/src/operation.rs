//! Operations and the addresses of the memory cells that they define.

use vstd::prelude::*;
use crate::bytes::{u16_le, put_u16, put_slice, same_bytes, zeros};
use crate::codex::CodexId;
use crate::commit::{leaf_views, merkle_leaf_hash, merkle_leaf_sha256, merkle_root, merklize, tagged_hash, tagged_sha256};
use crate::fe::Fe256;
use crate::issue::ContractId;
use crate::site::ReservedBytes;
use crate::state::{StateCell, StateData, StateDataView, StateValue};
use crate::text::{baid64_string, TextForm};

verus! {

/// Identifier of a contract method call.
pub type CallId = u16;

/// Tag of the hash that makes an operation identifier.
pub const OPID_TAG: &'static str = "urn:ubideco:ultrasonic:operation#2024-11-14";

/// Human-readable identifier in the text of an operation identifier.
pub const OPID_HRI: &'static str = "usop";

/// Unique operation identifier: the commitment to all the data of the operation.
#[derive(Clone, Copy, PartialEq, Eq, PartialOrd, Ord, Hash, Debug)]
pub struct Opid {
    pub bytes: [u8; 32],
}

impl View for Opid {
    type V = Seq<u8>;

    open spec fn view(&self) -> Seq<u8> {
        self.bytes@
    }
}

/// A slice did not have the length of the array that it was to fill.
#[derive(Clone, Copy, PartialEq, Eq, Debug)]
pub struct FromSliceError {
    /// Expected slice length.
    pub expected: usize,
    /// Actual slice length.
    pub actual: usize,
}

impl Opid {
    /// The identifier made of `bytes`.
    pub fn from_byte_array(bytes: [u8; 32]) -> (r: Self)
        ensures
            r@ == bytes@,
    {
        Opid { bytes }
    }

    /// The 32 bytes of the identifier.
    pub fn to_byte_array(&self) -> (r: [u8; 32])
        ensures
            r@ == self@,
    {
        self.bytes
    }

    /// The identifier made of the bytes of `slice`. Fails if their number is not 32.
    pub fn copy_from_slice(slice: &[u8]) -> (r: Result<Self, FromSliceError>)
        ensures
            slice@.len() == 32 ==> r is Ok && r->Ok_0@ == slice@,
            slice@.len() != 32 ==> r == Err::<Self, FromSliceError>(
                FromSliceError { expected: 32, actual: slice@.len() as usize },
            ),
    {
        let len = slice.len();
        if len != 32 {
            return Err(FromSliceError { expected: 32, actual: len });
        }
        let mut bytes = [0u8; 32];
        let mut i: usize = 0;
        while i < 32
            invariant
                i <= 32,
                slice@.len() == 32,
                forall|j: int| 0 <= j < i ==> bytes@[j] == slice@[j],
            decreases 32 - i,
        {
            bytes[i] = slice[i];
            i = i + 1;
        }
        assert(bytes@ =~= slice@);
        Ok(Opid { bytes })
    }

    /// Whether the two identifiers are the same.
    pub fn is(&self, other: &Opid) -> (r: bool)
        ensures
            r == (self@ == other@),
            r == (*self == *other),
    {
        let r = same_bytes(&self.bytes, &other.bytes);
        proof {
            if r {
                assert(self.bytes =~= other.bytes);
            }
        }
        r
    }

    /// How the identifier is written by default: in one piece, without prefix and mnemonic.
    pub open spec fn text_form_spec() -> TextForm {
        TextForm { chunking: false, chunk_first: 8, chunk_len: 7, prefix: false, mnemonic: false, embed_checksum: false }
    }

    /// How the value is written by default.
    pub fn text_form() -> (r: TextForm)
        ensures
            r == Self::text_form_spec(),
            r.fits(30),
    {
        TextForm { chunking: false, chunk_first: 8, chunk_len: 7, prefix: false, mnemonic: false, embed_checksum: false }
    }

    /// The text of the identifier in the form `form`.
    pub open spec fn text(&self, form: TextForm) -> Seq<char> {
        form.text_of(OPID_HRI@, self@)
    }

    /// The identifier as text, in its default form.
    pub fn to_baid64_string(&self) -> (r: String)
        ensures
            r@ == self.text(Self::text_form_spec()),
    {
        self.to_baid64_string_as(Self::text_form())
    }

    /// The identifier as text, in the form `form`.
    pub fn to_baid64_string_as(&self, form: TextForm) -> (r: String)
        requires
            form.fits(32),
        ensures
            r@ == self.text(form),
    {
        proof {
            reveal_strlit("usop");
        }
        baid64_string(OPID_HRI, self.bytes, form)
    }
}

/// Address of a memory cell: an output of the operation that defines the cell.
#[derive(Clone, Copy, PartialEq, Eq, PartialOrd, Ord, Hash, Debug)]
pub struct CellAddr {
    /// Identifier of the operation that defines the memory cell.
    pub opid: Opid,
    /// Index of the operation output that defines the cell. Whether it counts the destructible
    /// or the immutable outputs follows from where the address is used.
    pub pos: u16,
}

impl CellAddr {
    /// Construct a memory cell address from an operation id and output number.
    pub fn new(opid: Opid, pos: u16) -> (r: Self)
        ensures
            r == (CellAddr { opid, pos }),
    {
        CellAddr { opid, pos }
    }

    /// Canonical bytes: the operation identifier, then the position in little-endian order.
    pub open spec fn encoding(&self) -> Seq<u8> {
        self.opid@ + u16_le(self.pos)
    }

    /// The address as a leaf of a Merkle tree: the tagged hash of its canonical bytes.
    pub open spec fn leaf(&self) -> Seq<u8> {
        merkle_leaf_sha256(self.encoding())
    }

    /// Appends the canonical bytes to `out`.
    pub fn encode(&self, out: &mut Vec<u8>)
        ensures
            final(out)@ == old(out)@ + self.encoding(),
    {
        put_slice(out, self.opid.bytes.as_slice());
        put_u16(out, self.pos);
        assert(out@ =~= old(out)@ + self.encoding());
    }

    /// The 34 canonical bytes of the address.
    pub fn to_bytes(&self) -> (r: [u8; 34])
        ensures
            r@ == self.encoding(),
    {
        let mut out: Vec<u8> = Vec::new();
        self.encode(&mut out);
        let mut bytes = [0u8; 34];
        let mut i: usize = 0;
        while i < 34
            invariant
                i <= 34,
                out@.len() == 34,
                forall|j: int| 0 <= j < i ==> bytes@[j] == out@[j],
            decreases 34 - i,
        {
            bytes[i] = out[i];
            i = i + 1;
        }
        assert(out@ =~= self.encoding());
        assert(bytes@ =~= out@);
        bytes
    }

    /// The address whose 34 canonical bytes are `value`.
    pub fn from_bytes(value: [u8; 34]) -> (r: Self)
        ensures
            r.encoding() == value@,
    {
        let mut bytes = [0u8; 32];
        let mut i: usize = 0;
        while i < 32
            invariant
                i <= 32,
                forall|j: int| 0 <= j < i ==> bytes@[j] == value@[j],
            decreases 32 - i,
        {
            bytes[i] = value[i];
            i = i + 1;
        }
        let lo = value[32];
        let hi = value[33];
        let pos: u16 = (lo as u16) | ((hi as u16) << 8);
        assert(pos % 256 == lo && pos / 256 == hi) by (bit_vector)
            requires
                pos == (lo as u16) | ((hi as u16) << 8),
        ;
        let r = CellAddr { opid: Opid { bytes }, pos };
        assert(r.encoding() =~= value@);
        r
    }
}

/// Canonical bytes tell addresses apart.
pub proof fn lemma_cell_addr_encoding_injective(a: CellAddr, b: CellAddr)
    requires
        a.encoding() == b.encoding(),
    ensures
        a == b,
{
    assert(a.opid@ =~= a.encoding().take(32));
    assert(b.opid@ =~= b.encoding().take(32));
    assert(a.opid.bytes =~= b.opid.bytes);
    assert(u16_le(a.pos) =~= a.encoding().skip(32));
    assert(u16_le(b.pos) =~= b.encoding().skip(32));
    assert(u16_le(a.pos)[0] == u16_le(b.pos)[0]);
    assert(u16_le(a.pos)[1] == u16_le(b.pos)[1]);
}

/// Operation input for a destructible (read-once) state: the address of the memory cell, and a
/// witness that serves the access conditions of the cell.
#[derive(Clone, Copy, PartialEq, Eq, Hash, Debug)]
pub struct Input {
    /// Address of the memory cell.
    pub addr: CellAddr,
    /// Data for satisfying the access conditions of the memory cell.
    pub witness: StateValue,
}

impl Input {
    /// Canonical bytes: the address, then the witness.
    pub open spec fn encoding(&self) -> Seq<u8> {
        self.addr.encoding() + self.witness.encoding()
    }

    /// The input as a leaf of a Merkle tree: the tagged hash of its canonical bytes.
    pub open spec fn leaf(&self) -> Seq<u8> {
        merkle_leaf_sha256(self.encoding())
    }

    /// Appends the canonical bytes to `out`.
    pub fn encode(&self, out: &mut Vec<u8>)
        ensures
            final(out)@ == old(out)@ + self.encoding(),
    {
        self.addr.encode(out);
        self.witness.encode(out);
        assert(out@ =~= old(out)@ + self.encoding());
    }
}

/// A value that can stand as a leaf in a Merkle tree.
pub trait MerkleLeaf {
    /// The hash by which the value stands in the tree.
    spec fn leaf_spec(&self) -> Seq<u8>;

    /// The hash by which the value stands in the tree.
    fn merkle_leaf(&self) -> (r: [u8; 32])
        ensures
            r@ == self.leaf_spec(),
    ;
}

impl MerkleLeaf for Input {
    open spec fn leaf_spec(&self) -> Seq<u8> {
        self.leaf()
    }

    fn merkle_leaf(&self) -> (r: [u8; 32]) {
        let mut out: Vec<u8> = Vec::new();
        self.encode(&mut out);
        assert(out@ =~= self.encoding());
        merkle_leaf_hash(out.as_slice())
    }
}

impl MerkleLeaf for CellAddr {
    open spec fn leaf_spec(&self) -> Seq<u8> {
        self.leaf()
    }

    fn merkle_leaf(&self) -> (r: [u8; 32]) {
        let mut out: Vec<u8> = Vec::new();
        self.encode(&mut out);
        assert(out@ =~= self.encoding());
        merkle_leaf_hash(out.as_slice())
    }
}

impl MerkleLeaf for StateCell {
    open spec fn leaf_spec(&self) -> Seq<u8> {
        self.leaf()
    }

    fn merkle_leaf(&self) -> (r: [u8; 32]) {
        StateCell::merkle_leaf(self)
    }
}

impl MerkleLeaf for StateData {
    open spec fn leaf_spec(&self) -> Seq<u8> {
        self@.leaf()
    }

    fn merkle_leaf(&self) -> (r: [u8; 32]) {
        StateData::merkle_leaf(self)
    }
}

/// The leaves of a list: the leaf of each item, in order.
pub open spec fn leaves_of<T: MerkleLeaf>(items: Seq<T>) -> Seq<Seq<u8>> {
    items.map_values(|item: T| item.leaf_spec())
}

/// The Merkle root of a list of at most 65535 items.
pub fn merkle_root_of<T: MerkleLeaf>(items: &Vec<T>) -> (r: [u8; 32])
    requires
        items@.len() <= 0xFFFF,
    ensures
        r@ == merkle_root(leaves_of(items@)),
{
    let mut leaves: Vec<[u8; 32]> = Vec::new();
    let mut i: usize = 0;
    while i < items.len()
        invariant
            i <= items.len(),
            leaves@.len() == i,
            forall|j: int| 0 <= j < i ==> (#[trigger] leaves@[j])@ == items@[j].leaf_spec(),
        decreases items.len() - i,
    {
        let leaf = items[i].merkle_leaf();
        leaves.push(leaf);
        i = i + 1;
    }
    assert(leaf_views(leaves@) =~= leaves_of(items@));
    merklize(&leaves)
}

/// A copy of a list of plain values.
pub fn copy_list<T: Copy>(items: &Vec<T>) -> (r: Vec<T>)
    ensures
        r@ == items@,
{
    let mut r: Vec<T> = Vec::new();
    let mut i: usize = 0;
    while i < items.len()
        invariant
            i <= items.len(),
            r@ == items@.take(i as int),
        decreases items.len() - i,
    {
        r.push(items[i]);
        i = i + 1;
        assert(r@ =~= items@.take(i as int));
    }
    assert(items@.take(items.len() as int) =~= items@);
    r
}

/// What a list of immutable state holds: the view of each item, in order.
pub open spec fn data_views(items: Seq<StateData>) -> Seq<StateDataView> {
    items.map_values(|d: StateData| d@)
}

/// A copy of a list of immutable state.
pub fn copy_data(items: &Vec<StateData>) -> (r: Vec<StateData>)
    ensures
        data_views(r@) == data_views(items@),
        r@.len() == items@.len(),
{
    let mut r: Vec<StateData> = Vec::new();
    let mut i: usize = 0;
    while i < items.len()
        invariant
            i <= items.len(),
            r@.len() == i,
            forall|j: int| 0 <= j < i ==> (#[trigger] r@[j])@ == items@[j]@,
        decreases items.len() - i,
    {
        r.push(items[i].copy());
        i = i + 1;
    }
    assert(data_views(r@) =~= data_views(items@));
    r
}

/// What an operation holds.
pub ghost struct OperationView {
    pub contract_id: ContractId,
    pub call_id: CallId,
    pub nonce: Fe256,
    pub destructible_in: Seq<Input>,
    pub immutable_in: Seq<CellAddr>,
    pub destructible_out: Seq<StateCell>,
    pub immutable_out: Seq<StateDataView>,
}

impl OperationView {
    /// No list of the operation holds more than 65535 items.
    pub open spec fn wf(&self) -> bool {
        &&& self.destructible_in.len() <= 0xFFFF
        &&& self.immutable_in.len() <= 0xFFFF
        &&& self.destructible_out.len() <= 0xFFFF
        &&& self.immutable_out.len() <= 0xFFFF
    }

    /// The Merkle root of the destructible inputs.
    pub open spec fn destructible_in_root(&self) -> Seq<u8> {
        merkle_root(self.destructible_in.map_values(|i: Input| i.leaf()))
    }

    /// The Merkle root of the immutable inputs.
    pub open spec fn immutable_in_root(&self) -> Seq<u8> {
        merkle_root(self.immutable_in.map_values(|a: CellAddr| a.leaf()))
    }

    /// The Merkle root of the destructible outputs.
    pub open spec fn destructible_out_root(&self) -> Seq<u8> {
        merkle_root(self.destructible_out.map_values(|c: StateCell| c.leaf()))
    }

    /// The Merkle root of the immutable outputs.
    pub open spec fn immutable_out_root(&self) -> Seq<u8> {
        merkle_root(self.immutable_out.map_values(|d: StateDataView| d.leaf()))
    }

    /// What the identifier of the operation commits to: the version byte, the contract
    /// identifier, the call, the nonce, and the Merkle roots of the four lists, in this order.
    pub open spec fn commitment(&self) -> Seq<u8> {
        zeros(1) + self.contract_id@ + u16_le(self.call_id) + self.nonce@ + self.destructible_in_root()
            + self.immutable_in_root() + self.destructible_out_root() + self.immutable_out_root()
    }

    /// The identifier of the operation: the tagged hash of what it commits to.
    pub open spec fn opid(&self) -> Seq<u8> {
        tagged_sha256(OPID_TAG@, self.commitment())
    }
}

/// The identifier of an operation is a function of what the operation holds: operations that
/// hold the same have the same identifier.
pub proof fn lemma_opid_by_content(a: Operation, b: Operation)
    requires
        a@ == b@,
    ensures
        a@.opid() == b@.opid(),
{
}

/// Operation under a contract which may update the contract state.
#[derive(PartialEq, Eq, Hash, Debug)]
pub struct Operation {
    /// Operation version: one reserved byte.
    pub version: ReservedBytes<1>,
    /// Contract id for which this operation is performed.
    pub contract_id: ContractId,
    /// Contract method this operation calls to.
    pub call_id: CallId,
    /// A nonce, used to change the operation id for operations that are the same otherwise.
    pub nonce: Fe256,
    /// The read-once memory cells which are the inputs of the operation and whose state is
    /// destroyed when the operation is applied.
    pub destructible_in: Vec<Input>,
    /// The append-only immutable memory cells which the operation reads.
    pub immutable_in: Vec<CellAddr>,
    /// The state of the new destructible memory cells which the operation creates.
    pub destructible_out: Vec<StateCell>,
    /// The state of the new immutable memory cells which the operation creates.
    pub immutable_out: Vec<StateData>,
}

impl View for Operation {
    type V = OperationView;

    open spec fn view(&self) -> OperationView {
        OperationView {
            contract_id: self.contract_id,
            call_id: self.call_id,
            nonce: self.nonce,
            destructible_in: self.destructible_in@,
            immutable_in: self.immutable_in@,
            destructible_out: self.destructible_out@,
            immutable_out: data_views(self.immutable_out@),
        }
    }
}

impl Clone for Operation {
    fn clone(&self) -> (r: Self)
        ensures
            r@ == self@,
    {
        self.copy()
    }
}

impl Operation {
    /// A copy of the operation.
    pub fn copy(&self) -> (r: Self)
        ensures
            r@ == self@,
    {
        Operation {
            version: self.version,
            contract_id: self.contract_id,
            call_id: self.call_id,
            nonce: self.nonce,
            destructible_in: copy_list(&self.destructible_in),
            immutable_in: copy_list(&self.immutable_in),
            destructible_out: copy_list(&self.destructible_out),
            immutable_out: copy_data(&self.immutable_out),
        }
    }

    /// Appends to `out` what the identifier of the operation commits to.
    pub fn commit_encode(&self, out: &mut Vec<u8>)
        requires
            self@.wf(),
        ensures
            final(out)@ == old(out)@ + self@.commitment(),
    {
        self.version.encode(out);
        put_slice(out, self.contract_id.bytes.as_slice());
        put_u16(out, self.call_id);
        put_slice(out, self.nonce.bytes.as_slice());
        let din = merkle_root_of(&self.destructible_in);
        assert(leaves_of(self.destructible_in@) =~= self@.destructible_in.map_values(|i: Input| i.leaf()));
        put_slice(out, din.as_slice());
        let iin = merkle_root_of(&self.immutable_in);
        assert(leaves_of(self.immutable_in@) =~= self@.immutable_in.map_values(|a: CellAddr| a.leaf()));
        put_slice(out, iin.as_slice());
        let dout = merkle_root_of(&self.destructible_out);
        assert(leaves_of(self.destructible_out@) =~= self@.destructible_out.map_values(
            |c: StateCell| c.leaf(),
        ));
        put_slice(out, dout.as_slice());
        let iout = merkle_root_of(&self.immutable_out);
        assert(leaves_of(self.immutable_out@) =~= self@.immutable_out.map_values(
            |d: StateDataView| d.leaf(),
        ));
        put_slice(out, iout.as_slice());
        assert(out@ =~= old(out)@ + self@.commitment());
    }

    /// Compute the operation id: a hash that commits to all the data of the operation.
    pub fn opid(&self) -> (r: Opid)
        requires
            self@.wf(),
        ensures
            r@ == self@.opid(),
    {
        let mut out: Vec<u8> = Vec::new();
        self.commit_encode(&mut out);
        assert(out@ =~= self@.commitment());
        Opid { bytes: tagged_hash(OPID_TAG, out.as_slice()) }
    }
}

/// Contract genesis: an operation without inputs, made before the contract has an identifier.
#[derive(PartialEq, Eq, Hash, Debug)]
pub struct Genesis {
    /// Genesis version: one reserved byte.
    pub version: ReservedBytes<1>,
    /// Codex id under which this genesis is created. An operation holds a contract id at this
    /// place, which is not known when the genesis is made.
    pub codex_id: CodexId,
    /// Contract method this operation calls to.
    pub call_id: CallId,
    /// A nonce, which in genesis may be used to "mine" a vanity contract id.
    pub nonce: Fe256,
    /// Two reserved zero bytes in the place of the destructible inputs of an operation.
    pub blank1: ReservedBytes<2>,
    /// Two reserved zero bytes in the place of the immutable inputs of an operation.
    pub blank2: ReservedBytes<2>,
    /// The state of the new destructible memory cells which the genesis creates.
    pub destructible_out: Vec<StateCell>,
    /// The state of the new immutable memory cells which the genesis creates.
    pub immutable_out: Vec<StateData>,
}

impl Genesis {
    /// No list of the genesis holds more than 65535 items.
    pub open spec fn wf(&self) -> bool {
        self.destructible_out@.len() <= 0xFFFF && self.immutable_out@.len() <= 0xFFFF
    }

    /// What the operation holds that the genesis becomes under the contract `contract_id`: the
    /// call, the nonce and the outputs of the genesis, and no inputs.
    pub open spec fn operation_view(&self, contract_id: ContractId) -> OperationView {
        OperationView {
            contract_id,
            call_id: self.call_id,
            nonce: self.nonce,
            destructible_in: Seq::empty(),
            immutable_in: Seq::empty(),
            destructible_out: self.destructible_out@,
            immutable_out: data_views(self.immutable_out@),
        }
    }

    /// A copy of the genesis.
    pub fn copy(&self) -> (r: Self)
        ensures
            forall|contract_id: ContractId| r.operation_view(contract_id) == self.operation_view(contract_id),
            r.codex_id == self.codex_id,
            r.wf() == self.wf(),
    {
        let r = Genesis {
            version: self.version,
            codex_id: self.codex_id,
            call_id: self.call_id,
            nonce: self.nonce,
            blank1: self.blank1,
            blank2: self.blank2,
            destructible_out: copy_list(&self.destructible_out),
            immutable_out: copy_data(&self.immutable_out),
        };
        r
    }

    /// Converts genesis into an operation under the contract `contract_id`.
    pub fn to_operation(&self, contract_id: ContractId) -> (r: Operation)
        ensures
            r@ == self.operation_view(contract_id),
            r.destructible_in@.len() == 0,
            r.immutable_in@.len() == 0,
            self.wf() ==> r@.wf(),
    {
        let r = Operation {
            version: self.version,
            contract_id,
            call_id: self.call_id,
            nonce: self.nonce,
            destructible_in: Vec::new(),
            immutable_in: Vec::new(),
            destructible_out: copy_list(&self.destructible_out),
            immutable_out: copy_data(&self.immutable_out),
        };
        assert(r@.destructible_in =~= Seq::<Input>::empty());
        assert(r@.immutable_in =~= Seq::<CellAddr>::empty());
        r
    }

    /// Returns the operation id of the genesis under the contract `contract_id`: the id of the
    /// operation that the genesis becomes.
    pub fn opid(&self, contract_id: ContractId) -> (r: Opid)
        requires
            self.wf(),
        ensures
            r@ == self.operation_view(contract_id).opid(),
    {
        self.to_operation(contract_id).opid()
    }
}

impl Clone for Genesis {
    fn clone(&self) -> (r: Self)
        ensures
            forall|contract_id: ContractId| r.operation_view(contract_id) == self.operation_view(contract_id),
            r.codex_id == self.codex_id,
    {
        self.copy()
    }
}

/// Provably verified operation: the verifier alone makes one, for an operation that passed.
#[derive(Debug)]
pub struct VerifiedOperation {
    opid: Opid,
    operation: Operation,
}

impl VerifiedOperation {
    #[verifier::type_invariant]
    spec fn consistent(&self) -> bool {
        self.operation@.wf() && self.opid@ == self.operation@.opid()
    }

    /// What the verified operation holds.
    pub closed spec fn operation_view(&self) -> OperationView {
        self.operation@
    }

    /// The identifier that is kept with the operation.
    pub closed spec fn opid_spec(&self) -> Opid {
        self.opid
    }

    pub(crate) fn new_unchecked(opid: Opid, operation: Operation) -> (r: Self)
        requires
            operation@.wf(),
            opid@ == operation@.opid(),
        ensures
            r.operation_view() == operation@,
            r.opid_spec() == opid,
    {
        VerifiedOperation { opid, operation }
    }

    /// Get the operation id: the identifier of the operation that was verified, computed once
    /// when the operation passed.
    pub fn opid(&self) -> (r: Opid)
        ensures
            r == self.opid_spec(),
            r@ == self.operation_view().opid(),
    {
        proof {
            use_type_invariant(self);
        }
        self.opid
    }

    /// Return a reference for the verified operation data.
    pub fn as_operation(&self) -> (r: &Operation)
        ensures
            r@ == self.operation_view(),
            r@.wf(),
    {
        proof {
            use_type_invariant(self);
        }
        &self.operation
    }

    /// Release the operation, discarding the verification status and cached opid.
    pub fn into_operation(self) -> (r: Operation)
        ensures
            r@ == self.operation_view(),
            r@.wf(),
    {
        proof {
            use_type_invariant(&self);
        }
        self.operation
    }
}

impl Clone for VerifiedOperation {
    fn clone(&self) -> (r: Self)
        ensures
            r.operation_view() == self.operation_view(),
            r.opid_spec() == self.opid_spec(),
    {
        proof {
            use_type_invariant(self);
        }
        VerifiedOperation { opid: self.opid, operation: self.operation.copy() }
    }
}

impl PartialEq for VerifiedOperation {
    fn eq(&self, other: &Self) -> (r: bool) {
        self.opid.is(&other.opid)
    }
}

impl Eq for VerifiedOperation {}

impl vstd::std_specs::cmp::PartialEqSpecImpl for VerifiedOperation {
    open spec fn obeys_eq_spec() -> bool {
        true
    }

    open spec fn eq_spec(&self, other: &Self) -> bool {
        self.opid_spec()@ == other.opid_spec()@
    }
}

} // verus!
