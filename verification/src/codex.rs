//! The codex: the terms of a contract, and the verification of operations against them.

use vstd::prelude::*;
use vstd::utf8::encode_utf8;
use vstd::string::StringSliceAdditionalSpecFns;
use crate::bytes::{i64_le, lemma_concat_split, lemma_u16_le_injective, put_i64, put_slice, put_u16, same_bytes, u16_le, u64_le, zeros};
use crate::commit::{tagged_hash, tagged_sha256};
use crate::fe::Fe256;
use crate::isa::context::{value_fits, value_is_within, VmContext};
use crate::isa::regs::RegE;
use crate::issue::ContractId;
use crate::operation::{data_views, CallId, CellAddr, Input, Operation, OperationView, VerifiedOperation};
use crate::site::{LibSite, ReservedBytes};
use crate::state::{AuthToken, StateCell, StateValue};
use crate::text::{baid64_string, TextForm};
use crate::util::Identity;
use crate::vm::{input_vm_fresh, input_vm_halt, input_vm_limit, input_vm_order, input_vm_reg, input_vm_regs, repo_libs, repo_tame, script_run, CoreConfig, InputVm, LibRepo, RunEnd};

verus! {

/// Tag of the hash that makes a codex identifier.
pub const CODEX_TAG: &'static str = "urn:ubideco:sonic:codex#2025-05-15";

/// Human-readable identifier in the text of a codex identifier.
pub const CODEX_HRI: &'static str = "codex";

/// Unique codex identifier: the commitment to all the data of the codex.
#[derive(Clone, Copy, PartialEq, Eq, PartialOrd, Ord, Hash, Debug)]
pub struct CodexId {
    pub bytes: [u8; 32],
}

impl View for CodexId {
    type V = Seq<u8>;

    open spec fn view(&self) -> Seq<u8> {
        self.bytes@
    }
}

impl CodexId {
    /// The identifier made of `bytes`.
    pub fn from_byte_array(bytes: [u8; 32]) -> (r: Self)
        ensures
            r@ == bytes@,
    {
        CodexId { bytes }
    }

    /// The 32 bytes of the identifier.
    pub fn to_byte_array(&self) -> (r: [u8; 32])
        ensures
            r@ == self@,
    {
        self.bytes
    }

    /// Whether the two identifiers are the same.
    pub fn is(&self, other: &CodexId) -> (r: bool)
        ensures
            r == (self@ == other@),
            r == (*self == *other),
    {
        let r = same_bytes(&self.bytes, &other.bytes);
        proof {
            if r {
                assert(self.bytes =~= other.bytes);
            }
        }
        r
    }

    /// How the identifier is written by default: in chunks, without prefix, with the mnemonic.
    pub open spec fn text_form_spec() -> TextForm {
        TextForm { chunking: true, chunk_first: 8, chunk_len: 7, prefix: false, mnemonic: true, embed_checksum: false }
    }

    /// How the value is written by default.
    pub fn text_form() -> (r: TextForm)
        ensures
            r == Self::text_form_spec(),
            r.fits(30),
    {
        TextForm { chunking: true, chunk_first: 8, chunk_len: 7, prefix: false, mnemonic: true, embed_checksum: false }
    }

    /// The text of the identifier in the form `form`.
    pub open spec fn text(&self, form: TextForm) -> Seq<char> {
        form.text_of(CODEX_HRI@, self@)
    }

    /// The identifier as text, in its default form.
    pub fn to_baid64_string(&self) -> (r: String)
        ensures
            r@ == self.text(Self::text_form_spec()),
    {
        self.to_baid64_string_as(Self::text_form())
    }

    /// The identifier as text, in the form `form`.
    pub fn to_baid64_string_as(&self, form: TextForm) -> (r: String)
        requires
            form.fits(32),
        ensures
            r@ == self.text(form),
    {
        proof {
            reveal_strlit("codex");
        }
        baid64_string(CODEX_HRI, self.bytes, form)
    }
}

/// Canonical bytes of a list of verifiers: for each, the call in two little-endian bytes and
/// the bytes of the entry point.
pub open spec fn verifiers_bytes(verifiers: Seq<(CallId, LibSite)>) -> Seq<u8>
    decreases verifiers.len(),
{
    if verifiers.len() == 0 {
        seq![]
    } else {
        verifiers_bytes(verifiers.drop_last()) + u16_le(verifiers.last().0) + verifiers.last().1.encoding()
    }
}

/// The entry point that the first verifier for `call_id` at or after position `from` gives.
pub open spec fn find_verifier(verifiers: Seq<(CallId, LibSite)>, call_id: CallId, from: int) -> Option<
    LibSite,
>
    decreases verifiers.len() - from,
{
    if from < 0 || from >= verifiers.len() {
        None
    } else if verifiers[from].0 == call_id {
        Some(verifiers[from].1)
    } else {
        find_verifier(verifiers, call_id, from + 1)
    }
}

/// What a codex holds.
pub ghost struct CodexView {
    /// The UTF-8 bytes of the name.
    pub name: Seq<u8>,
    pub developer: Seq<u8>,
    pub timestamp: i64,
    pub field_order: Fe256,
    pub input_config: CoreConfig,
    pub verification_config: CoreConfig,
    pub verifiers: Seq<(CallId, LibSite)>,
}

impl CodexView {
    /// The name takes at most 255 bytes; there are at most 255 verifiers, in the strictly
    /// ascending order of their calls.
    pub open spec fn wf(&self) -> bool {
        &&& self.name.len() <= 255
        &&& self.verifiers.len() <= 255
        &&& forall|i: int, j: int|
            0 <= i < j < self.verifiers.len() ==> (#[trigger] self.verifiers[i]).0 < (
            #[trigger] self.verifiers[j]).0
    }

    /// The last part of the canonical bytes: the number of verifiers in one byte, then the
    /// verifiers.
    pub open spec fn verifiers_part(&self) -> Seq<u8> {
        seq![self.verifiers.len() as u8] + verifiers_bytes(self.verifiers)
    }

    /// The canonical bytes from the configurations on: the configuration for inputs, the one
    /// for verification, and what follows them.
    pub open spec fn configs_part(&self) -> Seq<u8> {
        self.input_config.encoding() + (self.verification_config.encoding() + self.verifiers_part())
    }

    /// The canonical bytes from the timestamp on: the timestamp, the field order, and what
    /// follows them.
    pub open spec fn numbers_part(&self) -> Seq<u8> {
        i64_le(self.timestamp) + (self.field_order@ + self.configs_part())
    }

    /// The canonical bytes from the developer on: the length of the developer in two
    /// little-endian bytes, the developer, and what follows.
    pub open spec fn developer_part(&self) -> Seq<u8> {
        u16_le(self.developer.len() as u16) + (self.developer + self.numbers_part())
    }

    /// The canonical bytes from the name on: the length of the name in one byte, the name, and
    /// what follows.
    pub open spec fn name_part(&self) -> Seq<u8> {
        seq![self.name.len() as u8] + (self.name + self.developer_part())
    }

    /// Canonical bytes: the version byte; the name, after its length in one byte; the
    /// developer, after its length in two bytes; the timestamp; the field order; the two
    /// configurations; the verifiers, after their number in one byte.
    pub open spec fn encoding(&self) -> Seq<u8> {
        zeros(1) + self.name_part()
    }

    /// The identifier of the codex: the tagged hash of its canonical bytes.
    pub open spec fn codex_id(&self) -> Seq<u8> {
        tagged_sha256(CODEX_TAG@, self.encoding())
    }
}

/// Codex is a crucial part of a contract; it provides a set of commitments to the contract terms
/// and conditions expressed as a deterministic program able to run in SONIC computer model.
///
/// The main operation of the codex is the verification of contract operations.
#[derive(PartialEq, Eq, Debug)]
pub struct Codex {
    /// Consensus version of the codex: one reserved byte.
    pub version: ReservedBytes<1>,
    /// Human-readable name of the codex used in the UI.
    pub name: String,
    /// Identity of the codex developer.
    pub developer: Identity,
    /// Timestamp of the codex creation.
    pub timestamp: i64,
    /// The order of the field used by the VM for all scripts.
    pub field_order: Fe256,
    /// VM core configuration for the verification of the lock conditions of operation inputs.
    pub input_config: CoreConfig,
    /// VM core configuration for the operation verification.
    pub verification_config: CoreConfig,
    /// The verifier of each call that the codex supports: the call and the entry point of its
    /// script, in the ascending order of the calls.
    pub verifiers: Vec<(CallId, LibSite)>,
}

impl View for Codex {
    type V = CodexView;

    open spec fn view(&self) -> CodexView {
        CodexView {
            name: encode_utf8(self.name@),
            developer: self.developer@,
            timestamp: self.timestamp,
            field_order: self.field_order,
            input_config: self.input_config,
            verification_config: self.verification_config,
            verifiers: self.verifiers@,
        }
    }
}

/// Contract operation verification errors.
#[derive(Copy, Clone, Eq, PartialEq, Debug)]
pub enum CallError {
    /// The operation doesn't belong to the current contract.
    WrongContract {
        /// Expected contract id.
        expected: ContractId,
        /// The actual contract id of the operation.
        found: ContractId,
    },
    /// The verifier for the call of the operation is not present in the codex.
    NotFound(CallId),
    /// The operation references a destructible memory cell which was not defined.
    NoReadOnceInput(CellAddr),
    /// The operation references an immutable memory cell which was not defined.
    NoImmutableInput(CellAddr),
    /// The access conditions of an operation input are unsatisfied; the code is what the lock
    /// script left in the `E8` register.
    Lock(Option<Fe256>),
    /// Verification script failure with the status code that the script left in `E1`.
    Script(Fe256),
    /// Verification script failure without a status code.
    ScriptUnspecified,
}

/// Access to the valid and most recent contract state, which consists of two parts:
/// destructible (read-once) and immutable (append-only).
///
/// Reading changes nothing: what a memory answers for an address is a function of the address.
/// It answers with nothing for an address that it does not know as well as for a destructible
/// cell that was consumed.
///
/// The two specification functions name what the memory holds; a memory says nothing of them
/// unless it is itself verified, and the verifier takes them as it finds them.
pub trait Memory {
    /// The destructible memory cell at `addr`, if it is defined and not consumed.
    open spec fn destructible_spec(&self, addr: CellAddr) -> Option<StateCell> {
        arbitrary()
    }

    /// The immutable memory cell at `addr`, if it is defined.
    open spec fn immutable_spec(&self, addr: CellAddr) -> Option<StateValue> {
        arbitrary()
    }

    /// Read a destructible memory cell created by a specific operation read-once output.
    fn destructible(&self, addr: CellAddr) -> (r: Option<StateCell>)
        ensures
            r == self.destructible_spec(addr),
    ;

    /// Read an immutable memory cell created by a specific operation immutable output.
    fn immutable(&self, addr: CellAddr) -> (r: Option<StateValue>)
        ensures
            r == self.immutable_spec(addr),
    ;
}

/// The first `n` destructible inputs with the cells that `memory` holds for them; where a cell
/// is missing, the address of the first input that misses its cell.
pub open spec fn resolve_destructible<M: Memory>(memory: &M, inputs: Seq<Input>, n: int) -> Result<
    Seq<(Input, StateCell)>,
    CellAddr,
>
    decreases n,
{
    if n <= 0 {
        Ok(Seq::empty())
    } else {
        match resolve_destructible(memory, inputs, n - 1) {
            Err(addr) => Err(addr),
            Ok(cells) => match memory.destructible_spec(inputs[n - 1].addr) {
                None => Err(inputs[n - 1].addr),
                Some(cell) => Ok(cells.push((inputs[n - 1], cell))),
            },
        }
    }
}

/// The values that `memory` holds for the first `n` immutable inputs; where a value is missing,
/// the first address that misses its value.
pub open spec fn resolve_immutable<M: Memory>(memory: &M, inputs: Seq<CellAddr>, n: int) -> Result<
    Seq<StateValue>,
    CellAddr,
>
    decreases n,
{
    if n <= 0 {
        Ok(Seq::empty())
    } else {
        match resolve_immutable(memory, inputs, n - 1) {
            Err(addr) => Err(addr),
            Ok(values) => match memory.immutable_spec(inputs[n - 1]) {
                None => Err(inputs[n - 1]),
                Some(value) => Ok(values.push(value)),
            },
        }
    }
}

/// Whether `memory` holds for `input` a cell that a script locks.
pub open spec fn is_locked<M: Memory>(memory: &M, input: Input) -> bool {
    memory.destructible_spec(input.addr) matches Some(cell) && cell.lock is Some
}

/// Whether the verifier comes to a lock: a script locks the cell of some input, and memory
/// holds the cells of that input and of all inputs before it.
pub open spec fn lock_reachable<M: Memory>(memory: &M, inputs: Seq<Input>) -> bool {
    exists|j: int|
        0 <= j < inputs.len() && is_locked(memory, #[trigger] inputs[j]) && resolve_destructible(
            memory,
            inputs,
            j + 1,
        ) is Ok
}

/// An error that stops the resolution of `n` inputs stops the resolution of more of them.
pub proof fn lemma_resolve_destructible_stops<M: Memory>(memory: &M, inputs: Seq<Input>, n: int, m: int)
    requires
        n <= m,
        resolve_destructible(memory, inputs, n) is Err,
    ensures
        resolve_destructible(memory, inputs, m) == resolve_destructible(memory, inputs, n),
    decreases m - n,
{
    if n < m {
        lemma_resolve_destructible_stops(memory, inputs, n, m - 1);
    }
}

/// An error that stops the resolution of `n` addresses stops the resolution of more of them.
pub proof fn lemma_resolve_immutable_stops<M: Memory>(memory: &M, inputs: Seq<CellAddr>, n: int, m: int)
    requires
        n <= m,
        resolve_immutable(memory, inputs, n) is Err,
    ensures
        resolve_immutable(memory, inputs, m) == resolve_immutable(memory, inputs, n),
    decreases m - n,
{
    if n < m {
        lemma_resolve_immutable_stops(memory, inputs, n, m - 1);
    }
}

/// An operation without inputs has nothing to resolve and nothing to unlock: what the verifier
/// comes to is a wrong contract, a missing verifier, or the entry point alone.
pub proof fn lemma_verdict_without_inputs<M: Memory, R: LibRepo>(
    codex: &Codex,
    contract_id: ContractId,
    operation: OperationView,
    memory: &M,
    repo: &R,
)
    requires
        operation.destructible_in.len() == 0,
        operation.immutable_in.len() == 0,
    ensures
        !lock_reachable(memory, operation.destructible_in),
        codex.verdict(contract_id, operation, memory, repo) == (if operation.contract_id != contract_id {
            Err::<Resolved, CallError>(
                CallError::WrongContract { expected: contract_id, found: operation.contract_id },
            )
        } else {
            match codex.entry_point_spec(operation.call_id) {
                None => Err::<Resolved, CallError>(CallError::NotFound(operation.call_id)),
                Some(entry_point) => Ok::<Resolved, CallError>(
                    Resolved {
                        destructible_input: Seq::empty(),
                        immutable_input: Seq::empty(),
                        entry_point,
                    },
                ),
            }
        }),
{
}

/// A call without verifier in the codex is not found, whenever the operation names the
/// contract, its inputs are found and unlocked, and the memory holds its immutable inputs.
pub proof fn lemma_verdict_not_found<M: Memory, R: LibRepo>(
    codex: &Codex,
    contract_id: ContractId,
    operation: OperationView,
    memory: &M,
    repo: &R,
)
    requires
        operation.contract_id == contract_id,
        codex.unlocked(memory, repo, operation.destructible_in, operation.destructible_in.len() as int) is Ok,
        resolve_immutable(memory, operation.immutable_in, operation.immutable_in.len() as int) is Ok,
        forall|i: int| 0 <= i < codex.verifiers@.len() ==> (#[trigger] codex.verifiers@[i]).0 != operation.call_id,
    ensures
        codex.verdict(contract_id, operation, memory, repo) == Err::<Resolved, CallError>(
            CallError::NotFound(operation.call_id),
        ),
{
    lemma_find_verifier_none(codex.verifiers@, operation.call_id, 0);
}

/// No verifier is found for a call that no verifier of the list is for.
pub proof fn lemma_find_verifier_none(verifiers: Seq<(CallId, LibSite)>, call_id: CallId, from: int)
    requires
        0 <= from,
        forall|i: int| 0 <= i < verifiers.len() ==> (#[trigger] verifiers[i]).0 != call_id,
    ensures
        find_verifier(verifiers, call_id, from) is None,
    decreases verifiers.len() - from,
{
    if from < verifiers.len() {
        lemma_find_verifier_none(verifiers, call_id, from + 1);
    }
}

/// The verifier that is found for a call is a verifier of the list, and is for that call.
pub proof fn lemma_find_verifier_some(verifiers: Seq<(CallId, LibSite)>, call_id: CallId, from: int)
    requires
        0 <= from,
        find_verifier(verifiers, call_id, from) is Some,
    ensures
        exists|i: int|
            from <= i < verifiers.len() && #[trigger] verifiers[i] == (
                call_id,
                find_verifier(verifiers, call_id, from)->0,
            ),
    decreases verifiers.len() - from,
{
    if verifiers[from].0 == call_id {
        assert(verifiers[from] == (call_id, find_verifier(verifiers, call_id, from)->0));
    } else {
        lemma_find_verifier_some(verifiers, call_id, from + 1);
    }
}

/// The canonical bytes of a list of verifiers take 36 bytes for each.
pub proof fn lemma_verifiers_bytes_len(verifiers: Seq<(CallId, LibSite)>)
    ensures
        verifiers_bytes(verifiers).len() == 36 * verifiers.len(),
    decreases verifiers.len(),
{
    if verifiers.len() > 0 {
        lemma_verifiers_bytes_len(verifiers.drop_last());
    }
}

/// Lists of verifiers of one length with the same canonical bytes are the same list.
pub proof fn lemma_verifiers_bytes_injective(a: Seq<(CallId, LibSite)>, b: Seq<(CallId, LibSite)>)
    requires
        a.len() == b.len(),
        verifiers_bytes(a) == verifiers_bytes(b),
    ensures
        a == b,
    decreases a.len(),
{
    if a.len() == 0 {
        assert(a =~= b);
    } else {
        let (ka, sa) = a.last();
        let (kb, sb) = b.last();
        let ta = u16_le(ka) + sa.encoding();
        let tb = u16_le(kb) + sb.encoding();
        lemma_verifiers_bytes_len(a.drop_last());
        lemma_verifiers_bytes_len(b.drop_last());
        assert(verifiers_bytes(a) =~= verifiers_bytes(a.drop_last()) + ta);
        assert(verifiers_bytes(b) =~= verifiers_bytes(b.drop_last()) + tb);
        lemma_concat_split(verifiers_bytes(a.drop_last()), ta, verifiers_bytes(b.drop_last()), tb);
        lemma_verifiers_bytes_injective(a.drop_last(), b.drop_last());
        lemma_concat_split(u16_le(ka), sa.encoding(), u16_le(kb), sb.encoding());
        lemma_u16_le_injective(ka, kb);
        lemma_concat_split(sa.lib_id@, u16_le(sa.offset), sb.lib_id@, u16_le(sb.offset));
        lemma_u16_le_injective(sa.offset, sb.offset);
        assert(sa.lib_id.bytes =~= sb.lib_id.bytes);
        assert(a.last() == b.last());
        assert(a =~= a.drop_last().push(a.last()));
        assert(b =~= b.drop_last().push(b.last()));
    }
}

/// The canonical bytes of a configuration tell where they end: two configurations, each
/// followed by more bytes, that give the same bytes as a whole are the same configuration, and
/// are followed by the same bytes.
pub proof fn lemma_config_encoding_split(a: CoreConfig, x: Seq<u8>, b: CoreConfig, y: Seq<u8>)
    requires
        a.encoding() + x == b.encoding() + y,
    ensures
        a == b,
        x == y,
{
    let ea = a.encoding() + x;
    let eb = b.encoding() + y;
    assert(ea[0] == eb[0]);
    assert(ea[1] == eb[1]);
    assert(ea[0] == a.encoding()[0]);
    assert(ea[1] == a.encoding()[1]);
    assert(eb[0] == b.encoding()[0]);
    assert(eb[1] == b.encoding()[1]);
    assert(a.halt == b.halt);
    assert(a.complexity_lim is Some == b.complexity_lim is Some);
    lemma_concat_split(a.encoding(), x, b.encoding(), y);
    match (a.complexity_lim, b.complexity_lim) {
        (Some(la), Some(lb)) => {
            let head = seq![if a.halt { 1u8 } else { 0u8 }, 1u8];
            assert(a.encoding() =~= head + u64_le(la));
            assert(b.encoding() =~= head + u64_le(lb));
            lemma_concat_split(head, u64_le(la), head, u64_le(lb));
            crate::bytes::lemma_u64_le_injective(la, lb);
        },
        _ => {},
    }
}

proof fn lemma_codex_verifiers_part(a: CodexView, b: CodexView)
    requires
        a.wf(),
        b.wf(),
        a.verifiers_part() == b.verifiers_part(),
    ensures
        a.verifiers == b.verifiers,
{
    lemma_concat_split(
        seq![a.verifiers.len() as u8],
        verifiers_bytes(a.verifiers),
        seq![b.verifiers.len() as u8],
        verifiers_bytes(b.verifiers),
    );
    assert(seq![a.verifiers.len() as u8][0] == seq![b.verifiers.len() as u8][0]);
    lemma_verifiers_bytes_injective(a.verifiers, b.verifiers);
}

proof fn lemma_codex_configs_part(a: CodexView, b: CodexView)
    requires
        a.configs_part() == b.configs_part(),
    ensures
        a.input_config == b.input_config,
        a.verification_config == b.verification_config,
        a.verifiers_part() == b.verifiers_part(),
{
    lemma_config_encoding_split(
        a.input_config,
        a.verification_config.encoding() + a.verifiers_part(),
        b.input_config,
        b.verification_config.encoding() + b.verifiers_part(),
    );
    lemma_config_encoding_split(
        a.verification_config,
        a.verifiers_part(),
        b.verification_config,
        b.verifiers_part(),
    );
}

proof fn lemma_codex_numbers_part(a: CodexView, b: CodexView)
    requires
        a.numbers_part() == b.numbers_part(),
    ensures
        a.timestamp == b.timestamp,
        a.field_order == b.field_order,
        a.configs_part() == b.configs_part(),
{
    assert(i64_le(a.timestamp).len() == 8);
    assert(i64_le(b.timestamp).len() == 8);
    lemma_concat_split(
        i64_le(a.timestamp),
        a.field_order@ + a.configs_part(),
        i64_le(b.timestamp),
        b.field_order@ + b.configs_part(),
    );
    crate::bytes::lemma_i64_le_injective(a.timestamp, b.timestamp);
    lemma_concat_split(a.field_order@, a.configs_part(), b.field_order@, b.configs_part());
    assert(a.field_order.bytes =~= b.field_order.bytes);
}

proof fn lemma_codex_developer_part(a: CodexView, b: CodexView)
    requires
        a.developer.len() <= 0xFFFF,
        b.developer.len() <= 0xFFFF,
        a.developer_part() == b.developer_part(),
    ensures
        a.developer == b.developer,
        a.numbers_part() == b.numbers_part(),
{
    lemma_concat_split(
        u16_le(a.developer.len() as u16),
        a.developer + a.numbers_part(),
        u16_le(b.developer.len() as u16),
        b.developer + b.numbers_part(),
    );
    lemma_u16_le_injective(a.developer.len() as u16, b.developer.len() as u16);
    lemma_concat_split(a.developer, a.numbers_part(), b.developer, b.numbers_part());
}

proof fn lemma_codex_name_part(a: CodexView, b: CodexView)
    requires
        a.name.len() <= 255,
        b.name.len() <= 255,
        a.name_part() == b.name_part(),
    ensures
        a.name == b.name,
        a.developer_part() == b.developer_part(),
{
    lemma_concat_split(
        seq![a.name.len() as u8],
        a.name + a.developer_part(),
        seq![b.name.len() as u8],
        b.name + b.developer_part(),
    );
    assert(seq![a.name.len() as u8][0] == seq![b.name.len() as u8][0]);
    lemma_concat_split(a.name, a.developer_part(), b.name, b.developer_part());
}

/// Codices that differ in any field differ in their canonical bytes: the identifier of a
/// codex, which is the hash of these bytes, commits to every field.
pub proof fn lemma_codex_encoding_injective(a: CodexView, b: CodexView)
    requires
        a.wf(),
        b.wf(),
        a.developer.len() <= 0xFFFF,
        b.developer.len() <= 0xFFFF,
        a.encoding() == b.encoding(),
    ensures
        a == b,
{
    lemma_concat_split(zeros(1), a.name_part(), zeros(1), b.name_part());
    lemma_codex_name_part(a, b);
    lemma_codex_developer_part(a, b);
    lemma_codex_numbers_part(a, b);
    lemma_codex_configs_part(a, b);
    lemma_codex_verifiers_part(a, b);
}

/// What the verifier has found when it comes to the script of the call: the inputs with their
/// cells, the values of the immutable inputs, and the entry point of the script.
pub ghost struct Resolved {
    pub destructible_input: Seq<(Input, StateCell)>,
    pub immutable_input: Seq<StateValue>,
    pub entry_point: LibSite,
}

/// What the run of a lock script comes to: nothing where the script ended well; else the error
/// that holds the code which the script left in the `E8` register.
pub open spec fn lock_result(end: RunEnd) -> Option<CallError> {
    if end.ok {
        None
    } else {
        Some(CallError::Lock(end.regs[7]))
    }
}

/// What a lock script's run comes to: nothing where the script ended well; else the error that
/// holds the code which the script left in the `E8` register.
pub fn lock_verdict(ok: bool, e8: Option<Fe256>) -> (r: Option<CallError>)
    ensures
        ok ==> r is None,
        !ok ==> r == Some(CallError::Lock(e8)),
{
    if ok {
        None
    } else {
        Some(CallError::Lock(e8))
    }
}

/// What a field register holds once the token `auth` and the witness were loaded for a lock
/// script: `E1` the token, `E2` and the registers after it the elements of the witness, and
/// every other register what it held before.
pub open spec fn lock_register(before: Option<Fe256>, index: int, auth: AuthToken, witness: StateValue) -> Option<
    Fe256,
> {
    if index == 0 {
        Some(auth.to_fe256_spec())
    } else if 1 <= index <= witness@.len() {
        Some(witness@[index - 1])
    } else {
        before
    }
}

/// The sixteen field registers that a lock script finds: the token in `E1`, the elements of the
/// witness in `E2` and the registers after it, and nothing in the others.
pub open spec fn lock_registers(auth: AuthToken, witness: StateValue) -> Seq<Option<Fe256>> {
    Seq::new(16, |i: int| lock_register(None, i, auth, witness))
}

/// Puts the token of authority into `E1` and the elements of the witness into `E2` to `E5`; a
/// register for which the witness has no element is left as it is.
fn load_lock_registers(vm: &mut InputVm, auth: AuthToken, witness: StateValue)
    requires
        auth.as_nat() < input_vm_order(*old(vm)),
        value_fits(witness, input_vm_order(*old(vm))),
    ensures
        forall|i: int|
            input_vm_reg(*final(vm), i) == lock_register(input_vm_reg(*old(vm), i), i, auth, witness),
        input_vm_order(*final(vm)) == input_vm_order(*old(vm)),
        input_vm_limit(*final(vm)) == input_vm_limit(*old(vm)),
        input_vm_halt(*final(vm)) == input_vm_halt(*old(vm)),
        input_vm_fresh(*final(vm)) == input_vm_fresh(*old(vm)),
{
    vm.set(RegE::E1.index(), auth.to_fe256());
    let regs = [RegE::E2, RegE::E3, RegE::E4, RegE::E5];
    let n = witness.len();
    let mut no: u8 = 0;
    while no < n
        invariant
            no <= n,
            n == witness@.len(),
            n <= 4,
            regs@ == seq![RegE::E2, RegE::E3, RegE::E4, RegE::E5],
            value_fits(witness, input_vm_order(*vm)),
            input_vm_order(*vm) == input_vm_order(*old(vm)),
            input_vm_limit(*vm) == input_vm_limit(*old(vm)),
            input_vm_halt(*vm) == input_vm_halt(*old(vm)),
            input_vm_fresh(*vm) == input_vm_fresh(*old(vm)),
            forall|i: int|
                input_vm_reg(*vm, i) == lock_register(
                    input_vm_reg(*old(vm), i),
                    i,
                    auth,
                    StateValue::of(witness@.take(no as int)),
                ),
        decreases n - no,
    {
        let el = witness.get(no).unwrap();
        let reg = regs[no as usize];
        assert(reg.index_spec() == no + 1);
        vm.set(reg.index(), el);
        no = no + 1;
        proof {
            let prev = StateValue::of(witness@.take(no - 1));
            let next = StateValue::of(witness@.take(no as int));
            assert(prev@ =~= witness@.take(no - 1));
            assert(next@ =~= witness@.take(no as int));
        }
    }
    proof {
        assert(witness@.take(n as int) =~= witness@);
        assert(StateValue::of(witness@) == witness);
        assert(StateValue::of(witness@.take(0))@ =~= Seq::<Fe256>::empty());
    }
}

/// Checks the lock of one input on a machine that has run nothing yet and holds nothing in its
/// field registers: loads the registers and runs the script at `lock`. The result is what the
/// run of that script, on those registers and with the libraries of the repository, comes to.
fn check_lock<R: LibRepo>(vm: &mut InputVm, auth: AuthToken, witness: StateValue, lock: LibSite, repo: &R) -> (r:
    Option<CallError>)
    requires
        input_vm_fresh(*old(vm)),
        forall|i: int| input_vm_reg(*old(vm), i) is None,
        auth.as_nat() < input_vm_order(*old(vm)),
        value_fits(witness, input_vm_order(*old(vm))),
        input_vm_limit(*old(vm)) is Some,
        repo_tame(repo, input_vm_order(*old(vm))),
    ensures
        r == lock_result(
            script_run(
                input_vm_halt(*old(vm)),
                input_vm_limit(*old(vm)),
                input_vm_order(*old(vm)),
                lock_registers(auth, witness),
                lock,
                repo_libs(repo),
            ),
        ),
{
    load_lock_registers(vm, auth, witness);
    assert(input_vm_regs(*vm) =~= lock_registers(auth, witness));
    let ok = vm.exec(lock, repo);
    let e8 = vm.get(RegE::E8.index());
    lock_verdict(ok, e8)
}

impl Clone for Codex {
    fn clone(&self) -> (r: Self)
        ensures
            r@ == self@,
    {
        Codex {
            version: self.version,
            name: self.name.clone(),
            developer: self.developer.clone(),
            timestamp: self.timestamp,
            field_order: self.field_order,
            input_config: self.input_config,
            verification_config: self.verification_config,
            verifiers: crate::operation::copy_list(&self.verifiers),
        }
    }
}

impl Codex {
    /// Whether the lock scripts of the inputs can be run: for every input that a script locks
    /// and that the verifier comes to, since memory holds the cells of all inputs before it,
    /// the machine has a complexity limit, and the token of the cell and the elements of the
    /// witness lie in the field of the codex.
    pub open spec fn admits_locks<M: Memory>(&self, memory: &M, inputs: Seq<Input>) -> bool {
        forall|i: int|
            0 <= i < inputs.len() && is_locked(memory, #[trigger] inputs[i]) && resolve_destructible(
                memory,
                inputs,
                i,
            ) is Ok ==> {
                &&& self.input_config.complexity_lim is Some
                &&& memory.destructible_spec(inputs[i].addr)->0.auth.as_nat() < self.field_order.as_nat()
                &&& value_fits(inputs[i].witness, self.field_order.as_nat())
            }
    }

    /// The entry point of the verifier for `call_id`, if the codex has one.
    pub open spec fn entry_point_spec(&self, call_id: CallId) -> Option<LibSite> {
        find_verifier(self.verifiers@, call_id, 0)
    }

    /// What the verifier finds before any script of the codex runs, lock scripts left aside:
    /// the first of a wrong contract, a missing destructible cell, a missing immutable cell and
    /// a missing verifier, in this order; where none of them stands in the way, the resolved
    /// inputs and the entry point of the verifier.
    pub open spec fn resolution<M: Memory>(
        &self,
        contract_id: ContractId,
        operation: OperationView,
        memory: &M,
    ) -> Result<Resolved, CallError> {
        if operation.contract_id != contract_id {
            Err(CallError::WrongContract { expected: contract_id, found: operation.contract_id })
        } else {
            match resolve_destructible(memory, operation.destructible_in, operation.destructible_in.len() as int) {
                Err(addr) => Err(CallError::NoReadOnceInput(addr)),
                Ok(cells) => match resolve_immutable(
                    memory,
                    operation.immutable_in,
                    operation.immutable_in.len() as int,
                ) {
                    Err(addr) => Err(CallError::NoImmutableInput(addr)),
                    Ok(values) => match self.entry_point_spec(operation.call_id) {
                        None => Err(CallError::NotFound(operation.call_id)),
                        Some(entry_point) => Ok(
                            Resolved { destructible_input: cells, immutable_input: values, entry_point },
                        ),
                    },
                },
            }
        }
    }

    /// How the lock script at `lock` ends for an input with the token `auth` and the witness
    /// `witness`: on a machine as new, configured for inputs, in the field of the codex, with
    /// the libraries that `repo` holds.
    pub open spec fn lock_run<R: LibRepo>(
        &self,
        auth: AuthToken,
        witness: StateValue,
        lock: LibSite,
        repo: &R,
    ) -> RunEnd {
        script_run(
            self.input_config.halt,
            self.input_config.complexity_lim,
            self.field_order.as_nat(),
            lock_registers(auth, witness),
            lock,
            repo_libs(repo),
        )
    }

    /// The error that the lock of `cell` gives for an input with the witness `witness`: none
    /// where no script locks the cell, and none where its script ends well.
    pub open spec fn lock_failure<R: LibRepo>(&self, cell: StateCell, witness: StateValue, repo: &R) -> Option<
        CallError,
    > {
        match cell.lock {
            None => None,
            Some(lock) => lock_result(self.lock_run(cell.auth, witness, lock, repo)),
        }
    }

    /// The first `n` destructible inputs with their cells, once each is found in `memory` and
    /// unlocked, one after the other; else the error of the first input that fails, which is a
    /// missing cell or the failure of its lock script.
    pub open spec fn unlocked<M: Memory, R: LibRepo>(
        &self,
        memory: &M,
        repo: &R,
        inputs: Seq<Input>,
        n: int,
    ) -> Result<Seq<(Input, StateCell)>, CallError>
        decreases n,
    {
        if n <= 0 {
            Ok(Seq::empty())
        } else {
            match self.unlocked(memory, repo, inputs, n - 1) {
                Err(e) => Err(e),
                Ok(cells) => match memory.destructible_spec(inputs[n - 1].addr) {
                    None => Err(CallError::NoReadOnceInput(inputs[n - 1].addr)),
                    Some(cell) => match self.lock_failure(cell, inputs[n - 1].witness, repo) {
                        Some(e) => Err(e),
                        None => Ok(cells.push((inputs[n - 1], cell))),
                    },
                },
            }
        }
    }

    /// What the verifier comes to before the script of the call runs: the first of a wrong
    /// contract; for each destructible input in turn, a missing cell or a lock script that
    /// fails; a missing immutable cell; and a missing verifier. Where none of them stands in the
    /// way, the resolved inputs and the entry point of the verifier.
    pub open spec fn verdict<M: Memory, R: LibRepo>(
        &self,
        contract_id: ContractId,
        operation: OperationView,
        memory: &M,
        repo: &R,
    ) -> Result<Resolved, CallError> {
        if operation.contract_id != contract_id {
            Err(CallError::WrongContract { expected: contract_id, found: operation.contract_id })
        } else {
            match self.unlocked(memory, repo, operation.destructible_in, operation.destructible_in.len() as int) {
                Err(e) => Err(e),
                Ok(cells) => match resolve_immutable(
                    memory,
                    operation.immutable_in,
                    operation.immutable_in.len() as int,
                ) {
                    Err(addr) => Err(CallError::NoImmutableInput(addr)),
                    Ok(values) => match self.entry_point_spec(operation.call_id) {
                        None => Err(CallError::NotFound(operation.call_id)),
                        Some(entry_point) => Ok(
                            Resolved { destructible_input: cells, immutable_input: values, entry_point },
                        ),
                    },
                },
            }
        }
    }

    /// Whether `r` is the result of the verifier: the error that it comes to, or the call of the
    /// verifier with the inputs and the entry point that it comes to, for the operation itself,
    /// with the configuration for verification and the field of the codex.
    pub open spec fn verified_as<M: Memory, R: LibRepo>(
        &self,
        contract_id: ContractId,
        operation: OperationView,
        memory: &M,
        repo: &R,
        r: Result<VerifierCall, CallError>,
    ) -> bool {
        match r {
            Ok(call) => {
                &&& self.verdict(contract_id, operation, memory, repo) == Ok::<Resolved, CallError>(
                    call.resolved(),
                )
                &&& call.operation_view() == operation
                &&& call.config() == self.verification_config
                &&& call.field_order() == self.field_order
            },
            Err(e) => self.verdict(contract_id, operation, memory, repo) == Err::<Resolved, CallError>(e),
        }
    }

    /// Whether the lock scripts of the inputs of `operation` can be run.
    pub fn locks_admitted<M: Memory>(&self, operation: &Operation, memory: &M) -> (r: bool)
        ensures
            r == self.admits_locks(memory, operation@.destructible_in),
    {
        let ghost inputs = operation@.destructible_in;
        let n = operation.destructible_in.len();
        let mut i: usize = 0;
        while i < n
            invariant
                i <= n,
                n == inputs.len(),
                inputs == operation.destructible_in@,
                resolve_destructible(memory, inputs, i as int) is Ok,
                forall|k: int|
                    0 <= k < i && is_locked(memory, #[trigger] inputs[k]) ==> {
                        &&& self.input_config.complexity_lim is Some
                        &&& memory.destructible_spec(inputs[k].addr)->0.auth.as_nat()
                            < self.field_order.as_nat()
                        &&& value_fits(inputs[k].witness, self.field_order.as_nat())
                    },
            decreases n - i,
        {
            let input = operation.destructible_in[i];
            match memory.destructible(input.addr) {
                None => {
                    proof {
                        assert(resolve_destructible(memory, inputs, i + 1) is Err);
                        assert forall|k: int|
                            i < k < inputs.len() implies !(resolve_destructible(memory, inputs, k) is Ok) by {
                            lemma_resolve_destructible_stops(memory, inputs, i + 1, k);
                        }
                    }
                    return true;
                },
                Some(cell) => {
                    if cell.lock.is_some() {
                        if self.input_config.complexity_lim.is_none() || !cell.auth.to_fe256().is_below(
                            &self.field_order,
                        ) || !value_is_within(&input.witness, &self.field_order) {
                            return false;
                        }
                    }
                },
            }
            i = i + 1;
        }
        true
    }

    /// The entry point of the verifier for `call_id`, if the codex has one.
    pub fn entry_point(&self, call_id: CallId) -> (r: Option<LibSite>)
        ensures
            r == self.entry_point_spec(call_id),
    {
        let mut i: usize = 0;
        while i < self.verifiers.len()
            invariant
                i <= self.verifiers.len(),
                find_verifier(self.verifiers@, call_id, 0) == find_verifier(self.verifiers@, call_id, i as int),
            decreases self.verifiers.len() - i,
        {
            if self.verifiers[i].0 == call_id {
                return Some(self.verifiers[i].1);
            }
            i = i + 1;
        }
        None
    }

    fn encode_verifiers(&self, out: &mut Vec<u8>)
        requires
            self@.wf(),
        ensures
            final(out)@ == old(out)@ + self@.verifiers_part(),
    {
        let n = self.verifiers.len();
        out.push(n as u8);
        let ghost head = out@;
        let mut i: usize = 0;
        assert(out@ =~= head + verifiers_bytes(self.verifiers@.take(0)));
        while i < n
            invariant
                i <= n,
                n == self.verifiers@.len(),
                out@ == head + verifiers_bytes(self.verifiers@.take(i as int)),
            decreases n - i,
        {
            let ghost before = out@;
            put_u16(out, self.verifiers[i].0);
            self.verifiers[i].1.encode(out);
            i = i + 1;
            proof {
                let t = self.verifiers@.take(i as int);
                assert(t.drop_last() =~= self.verifiers@.take(i - 1));
                assert(t.last() == self.verifiers@[i - 1]);
                assert(out@ =~= before + (u16_le(t.last().0) + t.last().1.encoding()));
                assert(verifiers_bytes(t) =~= verifiers_bytes(t.drop_last()) + (u16_le(t.last().0)
                    + t.last().1.encoding()));
                assert(out@ =~= head + verifiers_bytes(t));
            }
        }
        assert(self.verifiers@.take(n as int) =~= self.verifiers@);
        assert(out@ =~= old(out)@ + self@.verifiers_part());
    }

    fn encode_configs(&self, out: &mut Vec<u8>)
        requires
            self@.wf(),
        ensures
            final(out)@ == old(out)@ + self@.configs_part(),
    {
        self.input_config.encode(out);
        self.verification_config.encode(out);
        self.encode_verifiers(out);
        assert(out@ =~= old(out)@ + self@.configs_part());
    }

    fn encode_numbers(&self, out: &mut Vec<u8>)
        requires
            self@.wf(),
        ensures
            final(out)@ == old(out)@ + self@.numbers_part(),
    {
        put_i64(out, self.timestamp);
        put_slice(out, self.field_order.bytes.as_slice());
        self.encode_configs(out);
        assert(out@ =~= old(out)@ + self@.numbers_part());
    }

    fn encode_developer(&self, out: &mut Vec<u8>)
        requires
            self@.wf(),
        ensures
            final(out)@ == old(out)@ + self@.developer_part(),
    {
        let ghost start = out@;
        self.developer.encode(out);
        assert(out@ =~= start + (u16_le(self@.developer.len() as u16) + self@.developer));
        self.encode_numbers(out);
        assert(out@ =~= old(out)@ + self@.developer_part());
    }

    fn encode_name(&self, out: &mut Vec<u8>)
        requires
            self@.wf(),
        ensures
            final(out)@ == old(out)@ + self@.name_part(),
    {
        let name = self.name.as_str().as_bytes();
        out.push(name.len() as u8);
        put_slice(out, name);
        self.encode_developer(out);
        assert(out@ =~= old(out)@ + self@.name_part());
    }

    /// Appends the canonical bytes of the codex to `out`.
    pub fn encode(&self, out: &mut Vec<u8>)
        requires
            self@.wf(),
        ensures
            final(out)@ == old(out)@ + self@.encoding(),
    {
        self.version.encode(out);
        self.encode_name(out);
        assert(out@ =~= old(out)@ + self@.encoding());
    }

    /// The codex id: a commitment to all the data of the codex.
    pub fn codex_id(&self) -> (r: CodexId)
        requires
            self@.wf(),
        ensures
            r@ == self@.codex_id(),
    {
        let mut out: Vec<u8> = Vec::new();
        self.encode(&mut out);
        assert(out@ =~= self@.encoding());
        CodexId { bytes: tagged_hash(CODEX_TAG, out.as_slice()) }
    }

    /// Verifies an operation under the contract `contract_id`, up to the script of its call.
    ///
    /// The operation has to name the contract. Each destructible input has to address a cell
    /// that `memory` holds; where a script locks the cell, the script is run, with the token of
    /// the cell in `E1` and the witness of the input in `E2` to `E5`, and has to end well. Each
    /// immutable input has to address a value that `memory` holds. The codex has to hold a
    /// verifier for the call. The first of these that fails gives the error.
    ///
    /// Where all of them hold, the result is the call of the verifier: what its script is to be
    /// run with. The operation is verified once that script has ended well; see
    /// [`VerifierCall::finish`].
    ///
    /// Every lock script runs on a machine as new, in the field of the codex. For the locks that
    /// the verifier comes to, token and witness have to lie in that field and the machine needs
    /// a complexity limit, which [`Codex::locks_admitted`] tells; and the libraries of the
    /// repository have to be tame in that field, which `lib_is_tame` tells of each.
    pub fn verify<M: Memory, R: LibRepo>(
        &self,
        contract_id: ContractId,
        operation: Operation,
        memory: &M,
        repo: &R,
    ) -> (r: Result<VerifierCall, CallError>)
        requires
            operation@.wf(),
            operation@.contract_id == contract_id ==> self.admits_locks(memory, operation@.destructible_in),
            operation@.contract_id == contract_id && lock_reachable(memory, operation@.destructible_in)
                ==> repo_tame(repo, self.field_order.as_nat()),
        ensures
            self.verified_as(contract_id, operation@, memory, repo, r),
    {
        if !operation.contract_id.is(&contract_id) {
            return Err(CallError::WrongContract { expected: contract_id, found: operation.contract_id });
        }
        // Phase 1: get inputs, verify their presence in the memory and access conditions

        let mut vm_inputs = InputVm::with(self.input_config, &self.field_order);
        let mut destructible_inputs: Vec<(Input, StateCell)> = Vec::new();
        let ghost inputs = operation@.destructible_in;
        let n = operation.destructible_in.len();
        let mut i: usize = 0;
        while i < n
            invariant
                i <= n,
                n == inputs.len(),
                inputs == operation.destructible_in@,
                operation@.contract_id == contract_id,
                self.admits_locks(memory, inputs),
                lock_reachable(memory, inputs) ==> repo_tame(repo, self.field_order.as_nat()),
                resolve_destructible(memory, inputs, i as int) == Ok::<Seq<(Input, StateCell)>, CellAddr>(
                    destructible_inputs@,
                ),
                self.unlocked(memory, repo, inputs, i as int) == Ok::<Seq<(Input, StateCell)>, CallError>(
                    destructible_inputs@,
                ),
                destructible_inputs@.len() == i,
                input_vm_limit(vm_inputs) == self.input_config.complexity_lim,
                input_vm_order(vm_inputs) == self.field_order.as_nat(),
                input_vm_halt(vm_inputs) == self.input_config.halt,
                input_vm_fresh(vm_inputs),
                forall|k: int| input_vm_reg(vm_inputs, k) is None,
            decreases n - i,
        {
            let input = operation.destructible_in[i];
            // Read memory
            let cell = match memory.destructible(input.addr) {
                Some(cell) => cell,
                None => {
                    proof {
                        assert(self.unlocked(memory, repo, inputs, i + 1) == Err::<
                            Seq<(Input, StateCell)>,
                            CallError,
                        >(CallError::NoReadOnceInput(input.addr)));
                        lemma_unlocked_stops(self, memory, repo, inputs, i + 1, n as int);
                    }
                    return Err(CallError::NoReadOnceInput(input.addr));
                },
            };
            // Verify that the lock script conditions are satisfied
            proof {
                assert(resolve_destructible(memory, inputs, i + 1) == Ok::<Seq<(Input, StateCell)>, CellAddr>(
                    destructible_inputs@.push((input, cell)),
                ));
            }
            if let Some(lock) = cell.lock {
                assert(is_locked(memory, inputs[i as int]));
                assert(lock_reachable(memory, inputs));
                if let Some(err) = check_lock(&mut vm_inputs, cell.auth, input.witness, lock, repo) {
                    proof {
                        assert(self.lock_failure(cell, input.witness, repo) == Some(err));
                        assert(self.unlocked(memory, repo, inputs, i + 1) == Err::<
                            Seq<(Input, StateCell)>,
                            CallError,
                        >(err));
                        lemma_unlocked_stops(self, memory, repo, inputs, i + 1, n as int);
                    }
                    return Err(err);
                }
                assert(self.lock_failure(cell, input.witness, repo) is None);
                // the next lock script finds a machine as new
                vm_inputs = InputVm::with(self.input_config, &self.field_order);
            }
            assert(self.unlocked(memory, repo, inputs, i + 1) == Ok::<Seq<(Input, StateCell)>, CallError>(
                destructible_inputs@.push((input, cell)),
            ));
            destructible_inputs.push((input, cell));
            i = i + 1;
        }
        // Check that all read values are present in the memory.

        let mut immutable_inputs: Vec<StateValue> = Vec::new();
        let ghost addrs = operation@.immutable_in;
        let m = operation.immutable_in.len();
        let mut k: usize = 0;
        while k < m
            invariant
                k <= m,
                m == addrs.len(),
                addrs == operation.immutable_in@,
                operation@.contract_id == contract_id,
                inputs == operation@.destructible_in,
                self.unlocked(memory, repo, inputs, inputs.len() as int) == Ok::<
                    Seq<(Input, StateCell)>,
                    CallError,
                >(destructible_inputs@),
                resolve_immutable(memory, addrs, k as int) == Ok::<Seq<StateValue>, CellAddr>(
                    immutable_inputs@,
                ),
                immutable_inputs@.len() == k,
            decreases m - k,
        {
            let addr = operation.immutable_in[k];
            let data = match memory.immutable(addr) {
                Some(data) => data,
                None => {
                    proof {
                        assert(resolve_immutable(memory, addrs, k + 1) == Err::<Seq<StateValue>, CellAddr>(
                            addr,
                        ));
                        lemma_resolve_immutable_stops(memory, addrs, k + 1, m as int);
                    }
                    return Err(CallError::NoImmutableInput(addr));
                },
            };
            immutable_inputs.push(data);
            k = k + 1;
        }
        // Phase 2: the verifier of the call

        let entry_point = match self.entry_point(operation.call_id) {
            Some(entry_point) => entry_point,
            None => {
                return Err(CallError::NotFound(operation.call_id));
            },
        };
        Ok(
            VerifierCall {
                operation,
                destructible_input: destructible_inputs,
                immutable_input: immutable_inputs,
                entry_point,
                config: self.verification_config,
                field_order: self.field_order,
            },
        )
    }
}

/// An error that stops the unlocking of `n` inputs stops the unlocking of more of them.
pub proof fn lemma_unlocked_stops<M: Memory, R: LibRepo>(
    codex: &Codex,
    memory: &M,
    repo: &R,
    inputs: Seq<Input>,
    n: int,
    m: int,
)
    requires
        n <= m,
        codex.unlocked(memory, repo, inputs, n) is Err,
    ensures
        codex.unlocked(memory, repo, inputs, m) == codex.unlocked(memory, repo, inputs, n),
    decreases m - n,
{
    if n < m {
        lemma_unlocked_stops(codex, memory, repo, inputs, n, m - 1);
    }
}

/// Unlocking adds to the resolution of inputs nothing but the failures of lock scripts: inputs
/// that are unlocked are the inputs as memory resolves them; a cell that unlocking misses is
/// the cell that the resolution misses; and the failure of a lock is the failure of a script
/// that locks the cell of an input, where memory holds that cell and all cells before it.
pub proof fn lemma_unlocked_over_memory<M: Memory, R: LibRepo>(
    codex: &Codex,
    memory: &M,
    repo: &R,
    inputs: Seq<Input>,
    n: int,
)
    requires
        0 <= n <= inputs.len(),
    ensures
        match codex.unlocked(memory, repo, inputs, n) {
            Ok(cells) => resolve_destructible(memory, inputs, n) == Ok::<Seq<(Input, StateCell)>, CellAddr>(cells),
            Err(CallError::NoReadOnceInput(addr)) => resolve_destructible(memory, inputs, n) == Err::<
                Seq<(Input, StateCell)>,
                CellAddr,
            >(addr),
            Err(e) => e is Lock && exists|j: int|
                0 <= j < n && is_locked(memory, #[trigger] inputs[j]) && resolve_destructible(
                    memory,
                    inputs,
                    j + 1,
                ) is Ok,
        },
    decreases n,
{
    if n > 0 {
        lemma_unlocked_over_memory(codex, memory, repo, inputs, n - 1);
        match codex.unlocked(memory, repo, inputs, n - 1) {
            Ok(cells) => {
                match memory.destructible_spec(inputs[n - 1].addr) {
                    None => {},
                    Some(cell) => {
                        if codex.lock_failure(cell, inputs[n - 1].witness, repo) is Some {
                            assert(is_locked(memory, inputs[n - 1]));
                            assert(resolve_destructible(memory, inputs, (n - 1) + 1) is Ok);
                        }
                    },
                }
            },
            Err(CallError::NoReadOnceInput(addr)) => {},
            Err(e) => {
                let j = choose|j: int|
                    0 <= j < n - 1 && is_locked(memory, #[trigger] inputs[j]) && resolve_destructible(
                        memory,
                        inputs,
                        j + 1,
                    ) is Ok;
                assert(0 <= j < n && is_locked(memory, inputs[j]));
            },
        }
    }
}

/// Where the verifier comes to no lock, no script is run, and memory and codex decide alone.
/// Where it comes to one, the script can do no more than fail the operation: what the verifier
/// accepts is what memory and codex give, and an error is theirs or the failure of a lock.
pub proof fn lemma_verdict_over_resolution<M: Memory, R: LibRepo>(
    codex: &Codex,
    contract_id: ContractId,
    operation: OperationView,
    memory: &M,
    repo: &R,
)
    ensures
        !lock_reachable(memory, operation.destructible_in) ==> codex.verdict(
            contract_id,
            operation,
            memory,
            repo,
        ) == codex.resolution(contract_id, operation, memory),
        codex.verdict(contract_id, operation, memory, repo) is Ok ==> codex.verdict(
            contract_id,
            operation,
            memory,
            repo,
        ) == codex.resolution(contract_id, operation, memory),
        codex.verdict(contract_id, operation, memory, repo) matches Err(e) ==> {
            ||| codex.resolution(contract_id, operation, memory) == Err::<Resolved, CallError>(e)
            ||| (e is Lock && operation.contract_id == contract_id && lock_reachable(
                memory,
                operation.destructible_in,
            ))
        },
{
    lemma_unlocked_over_memory(
        codex,
        memory,
        repo,
        operation.destructible_in,
        operation.destructible_in.len() as int,
    );
}

proof fn lemma_unlocked_by_answers<M1: Memory, M2: Memory, R1: LibRepo, R2: LibRepo>(
    codex: &Codex,
    other: &Codex,
    inputs: Seq<Input>,
    n: int,
    memory1: &M1,
    memory2: &M2,
    repo1: &R1,
    repo2: &R2,
)
    requires
        codex@ == other@,
        forall|addr: CellAddr| memory1.destructible_spec(addr) == memory2.destructible_spec(addr),
        forall|id: crate::site::LibId| repo1.held(id) == repo2.held(id),
    ensures
        codex.unlocked(memory1, repo1, inputs, n) == other.unlocked(memory2, repo2, inputs, n),
    decreases n,
{
    assert(repo_libs(repo1) =~= repo_libs(repo2));
    if n > 0 {
        lemma_unlocked_by_answers(codex, other, inputs, n - 1, memory1, memory2, repo1, repo2);
    }
}

proof fn lemma_immutable_by_answers<M1: Memory, M2: Memory>(
    inputs: Seq<CellAddr>,
    n: int,
    memory1: &M1,
    memory2: &M2,
)
    requires
        forall|addr: CellAddr| memory1.immutable_spec(addr) == memory2.immutable_spec(addr),
    ensures
        resolve_immutable(memory1, inputs, n) == resolve_immutable(memory2, inputs, n),
    decreases n,
{
    if n > 0 {
        lemma_immutable_by_answers(inputs, n - 1, memory1, memory2);
    }
}

/// What the verifier comes to is a function of the codex, the contract, the operation, and of
/// what memory and repository answer, and of nothing else: codices that hold the same, memories
/// that hold the same cells and repositories that hold the same libraries give the same, lock
/// scripts included.
pub proof fn lemma_verdict_by_answers<M1: Memory, M2: Memory, R1: LibRepo, R2: LibRepo>(
    codex: &Codex,
    other: &Codex,
    contract_id: ContractId,
    operation: OperationView,
    memory1: &M1,
    memory2: &M2,
    repo1: &R1,
    repo2: &R2,
)
    requires
        codex@ == other@,
        forall|addr: CellAddr| memory1.destructible_spec(addr) == memory2.destructible_spec(addr),
        forall|addr: CellAddr| memory1.immutable_spec(addr) == memory2.immutable_spec(addr),
        forall|id: crate::site::LibId| repo1.held(id) == repo2.held(id),
    ensures
        codex.verdict(contract_id, operation, memory1, repo1) == other.verdict(
            contract_id,
            operation,
            memory2,
            repo2,
        ),
{
    lemma_unlocked_by_answers(
        codex,
        other,
        operation.destructible_in,
        operation.destructible_in.len() as int,
        memory1,
        memory2,
        repo1,
        repo2,
    );
    lemma_immutable_by_answers(operation.immutable_in, operation.immutable_in.len() as int, memory1, memory2);
}

/// A second verification gives what the first gave: two results of the verifier for one codex,
/// contract, operation, memory and repository are both errors, and then the same error, or
/// both calls of the verifier, and then with the same inputs, entry point, operation,
/// configuration and field.
pub proof fn lemma_verify_repeats<M: Memory, R: LibRepo>(
    codex: &Codex,
    contract_id: ContractId,
    operation: OperationView,
    memory: &M,
    repo: &R,
    first: Result<VerifierCall, CallError>,
    second: Result<VerifierCall, CallError>,
)
    requires
        codex.verified_as(contract_id, operation, memory, repo, first),
        codex.verified_as(contract_id, operation, memory, repo, second),
    ensures
        first is Ok <==> second is Ok,
        first matches Err(e) ==> second == Err::<VerifierCall, CallError>(e),
        first matches Ok(call) ==> {
            &&& second->Ok_0.resolved() == call.resolved()
            &&& second->Ok_0.operation_view() == call.operation_view()
            &&& second->Ok_0.config() == call.config()
            &&& second->Ok_0.field_order() == call.field_order()
        },
{
}

/// The call of a verifier: an operation whose inputs are resolved and unlocked, ready for the
/// script that verifies its integrity.
#[derive(Debug)]
pub struct VerifierCall {
    operation: Operation,
    destructible_input: Vec<(Input, StateCell)>,
    immutable_input: Vec<StateValue>,
    entry_point: LibSite,
    config: CoreConfig,
    field_order: Fe256,
}

impl VerifierCall {
    #[verifier::type_invariant]
    spec fn consistent(&self) -> bool {
        &&& self.operation@.wf()
        &&& self.destructible_input@.len() == self.operation@.destructible_in.len()
        &&& self.immutable_input@.len() == self.operation@.immutable_in.len()
    }

    /// What the operation of the call holds.
    pub closed spec fn operation_view(&self) -> OperationView {
        self.operation@
    }

    /// The inputs of the call with what the memory holds for them, and the entry point.
    pub closed spec fn resolved(&self) -> Resolved {
        Resolved {
            destructible_input: self.destructible_input@,
            immutable_input: self.immutable_input@,
            entry_point: self.entry_point,
        }
    }

    /// The configuration of the machine that runs the script.
    pub closed spec fn config(&self) -> CoreConfig {
        self.config
    }

    /// The order of the field that the script computes in.
    pub closed spec fn field_order(&self) -> Fe256 {
        self.field_order
    }

    /// Where the script of the verifier starts.
    pub fn entry_point(&self) -> (r: LibSite)
        ensures
            r == self.resolved().entry_point,
    {
        self.entry_point
    }

    /// The configuration of the machine that is to run the script.
    pub fn core_config(&self) -> (r: CoreConfig)
        ensures
            r == self.config(),
    {
        self.config
    }

    /// The order of the field that the script computes in.
    pub fn order(&self) -> (r: Fe256)
        ensures
            r == self.field_order(),
    {
        self.field_order
    }

    /// The operation of the call.
    pub fn as_operation(&self) -> (r: &Operation)
        ensures
            r@ == self.operation_view(),
    {
        &self.operation
    }

    /// The context that the script runs in: the resolved inputs, the outputs of the operation,
    /// and an empty witness, since an operation carries none of its own.
    pub fn context(&self) -> (r: VmContext<'_>)
        ensures
            r.witness == StateValue::Unit,
            r.destructible_input@ == self.resolved().destructible_input,
            r.immutable_input@ == self.resolved().immutable_input,
            r.destructible_output@ == self.operation_view().destructible_out,
            data_views(r.immutable_output@) == self.operation_view().immutable_out,
            r.wf(),
    {
        proof {
            use_type_invariant(self);
        }
        VmContext {
            witness: StateValue::Unit,
            destructible_input: self.destructible_input.as_slice(),
            immutable_input: self.immutable_input.as_slice(),
            destructible_output: self.operation.destructible_out.as_slice(),
            immutable_output: self.operation.immutable_out.as_slice(),
        }
    }

    /// Ends the verification with what the run of the script came to: `ok` tells whether the
    /// check register was ok when the machine stopped, `e1` what the script left in the `E1`
    /// register.
    ///
    /// A script that ended well makes the operation a verified one. A script that failed gives
    /// the error with the code of `E1`, and the error without code where `E1` is empty.
    pub fn finish(self, ok: bool, e1: Option<Fe256>) -> (r: Result<VerifiedOperation, CallError>)
        ensures
            ok ==> r is Ok && r->Ok_0.operation_view() == self.operation_view() && r->Ok_0.opid_spec()@
                == self.operation_view().opid(),
            !ok && e1 is Some ==> r == Err::<VerifiedOperation, CallError>(CallError::Script(e1->0)),
            !ok && e1 is None ==> r == Err::<VerifiedOperation, CallError>(CallError::ScriptUnspecified),
    {
        proof {
            use_type_invariant(&self);
        }
        if ok {
            let opid = self.operation.opid();
            Ok(VerifiedOperation::new_unchecked(opid, self.operation))
        } else {
            match e1 {
                Some(err_code) => Err(CallError::Script(err_code)),
                None => Err(CallError::ScriptUnspecified),
            }
        }
    }
}

} // verus!
