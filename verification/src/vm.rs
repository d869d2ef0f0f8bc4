//! The virtual machine as the verifier uses it: its configuration, the libraries of code that
//! it runs, and the machine that checks the access conditions of inputs.

use vstd::prelude::*;
use vstd::pervasive::unreached;
use zkaluvm::alu::regs::Status;
use zkaluvm::alu::CoreExt;
use zkaluvm::alu::isa::{Bytecode, BytecodeRead};
use zkaluvm::alu::Lib;
use zkaluvm::alu::Marshaller;
use zkaluvm::gfa::FieldInstr;
use zkaluvm::gfa::Instr;
use zkaluvm::alu::Vm;
use zkaluvm::GfaConfig;
use amplify::num::u256;
use crate::bytes::{put_u64, u64_le};
use crate::fe::Fe256;
use crate::site::{LibId, LibSite};

verus! {

/// Configuration of the core of a virtual machine.
#[derive(Clone, Copy, PartialEq, Eq, PartialOrd, Ord, Hash, Debug)]
pub struct CoreConfig {
    /// Whether the machine halts when a check fails.
    pub halt: bool,
    /// The complexity that a run may sum up before the machine halts with a failure; no limit
    /// where there is none.
    pub complexity_lim: Option<u64>,
}

impl CoreConfig {
    /// Canonical bytes: a byte for the halt flag; then a zero byte where there is no limit, else
    /// a one byte and the limit in eight little-endian bytes.
    pub open spec fn encoding(&self) -> Seq<u8> {
        seq![if self.halt { 1u8 } else { 0u8 }] + match self.complexity_lim {
            None => seq![0u8],
            Some(lim) => seq![1u8] + u64_le(lim),
        }
    }

    /// Appends the canonical bytes to `out`.
    pub fn encode(&self, out: &mut Vec<u8>)
        ensures
            final(out)@ == old(out)@ + self.encoding(),
    {
        out.push(if self.halt { 1u8 } else { 0u8 });
        match self.complexity_lim {
            None => {
                out.push(0u8);
            },
            Some(lim) => {
                out.push(1u8);
                put_u64(out, lim);
            },
        }
        assert(out@ =~= old(out)@ + self.encoding());
    }
}

#[verifier::external_type_specification]
#[verifier::external_body]
pub struct ExLib(zkaluvm::alu::Lib);

/// The identifier of a library: the commitment to its instruction set extensions, code, data
/// and dependencies, as `Lib::lib_id` computes it.
pub uninterp spec fn lib_id_of(lib: Lib) -> Seq<u8>;

/// Calls `Lib::lib_id`. Only that the identifier is a function of the library is claimed.
#[verifier::external_body]
pub(crate) fn lib_id(lib: &Lib) -> (id: LibId)
    ensures
        id@ == lib_id_of(*lib),
{
    LibId { bytes: lib.lib_id().to_byte_array() }
}

/// Access to the libraries of VM code that a contract uses, in the verification of operations
/// as well as in the access conditions of state.
///
/// Asking changes nothing: what a repository answers for an identifier is a function of the
/// identifier. The specification function names what the repository holds; a repository says
/// nothing of it unless it is itself verified.
pub trait LibRepo {
    /// The library that the repository holds for `lib_id`, if it holds one.
    open spec fn held(&self, lib_id: LibId) -> Option<Lib> {
        arbitrary()
    }

    /// Get the library with the given identifier, if the repository knows it.
    ///
    /// The library that it returns is the library of that identifier: one with another
    /// identifier would make the verifier run code that the contract never committed to.
    fn get_lib(&self, lib_id: LibId) -> (r: Option<&Lib>)
        ensures
            r matches Some(lib) ==> self.held(lib_id) == Some(*lib) && lib_id_of(*lib) == lib_id@,
            r is None ==> self.held(lib_id) is None,
    ;
}

/// Asks `repo` for the library `id`, and holds what comes back against the identifier: the
/// result is the library that the repository holds for `id`, and nothing where it holds none.
///
/// A repository that keeps its contract never hands out a library under a wrong identifier. The
/// test is made all the same, and stops the program where it fails: to go on would be to
/// accept operations on the word of code that nobody committed to.
pub fn resolve<R: LibRepo>(repo: &R, id: LibId) -> (r: Option<&Lib>)
    ensures
        r matches Some(lib) ==> repo.held(id) == Some(*lib) && lib_id_of(*lib) == id@,
        r is None ==> repo.held(id) is None,
{
    match repo.get_lib(id) {
        None => None,
        Some(lib) => {
            if lib_id(lib).is(&id) {
                Some(lib)
            } else {
                unreached()
            }
        },
    }
}

/// What an instruction of a library does to the field registers, as far as it can stop the
/// machine.
#[derive(Clone, Copy, PartialEq, Eq, Debug)]
pub enum FieldOp {
    /// Puts a constant into a register.
    Put(Fe256),
    /// Negates a register.
    Negate,
    /// Anything else, and bytes that are no instruction.
    Other,
}

/// The number of bytes in the code of a library.
pub uninterp spec fn lib_code_len(lib: Lib) -> nat;

/// What the instruction does that the machine reads at `offset` in the code of a library.
pub uninterp spec fn lib_op_at(lib: Lib, offset: int) -> FieldOp;

/// Reads the length of the code segment of a library.
#[verifier::external_body]
fn code_len(lib: &Lib) -> (r: usize)
    ensures
        r == lib_code_len(*lib),
{
    lib.code.len()
}

/// Calls `Marshaller::with` and `seek` on the segments of the library, and `decode_instr` of the
/// field instruction set at `offset`, as the machine does when it comes to that offset. A
/// `put` of data or of a named constant comes back with its value, a `neg` as such, and
/// everything else, bytes that cannot be read included, as other.
#[verifier::external_body]
fn op_at(lib: &Lib, offset: u16) -> (r: FieldOp)
    ensures
        r == lib_op_at(*lib, offset as int),
{
    let mut reader = Marshaller::with(&lib.code, &lib.data, &lib.libs);
    if reader.seek(offset).is_err() {
        return FieldOp::Other;
    }
    match Instr::decode_instr(&mut reader) {
        Ok(Instr::Gfa(FieldInstr::PutD { data, .. })) => FieldOp::Put(Fe256 { bytes: data.to_u256().to_le_bytes() }),
        Ok(Instr::Gfa(FieldInstr::PutV { val, .. })) => match val.to_fe256() {
            Some(data) => FieldOp::Put(Fe256 { bytes: data.to_u256().to_le_bytes() }),
            None => FieldOp::Other,
        },
        Ok(Instr::Gfa(FieldInstr::Neg { .. })) => FieldOp::Negate,
        _ => FieldOp::Other,
    }
}

/// Whether an instruction cannot stop a machine that works in the field of order `order`: it
/// puts no constant into a register that lies outside of the field, and it negates nothing,
/// since the negative of zero is the order itself.
pub open spec fn op_tame(op: FieldOp, order: nat) -> bool {
    match op {
        FieldOp::Put(value) => value.as_nat() < order,
        FieldOp::Negate => false,
        FieldOp::Other => true,
    }
}

/// Whether no run of code of the library can stop a machine that works in the field of order
/// `order`: the field is not empty, and whatever offset the machine comes to, the instruction
/// that it reads there is tame.
pub open spec fn lib_tame(lib: Lib, order: nat) -> bool {
    &&& 0 < order
    &&& forall|offset: int|
        0 <= offset < lib_code_len(lib) && offset <= 0xFFFF ==> op_tame(#[trigger] lib_op_at(lib, offset), order)
}

/// Whether every library that the repository holds is tame in the field of order `order`.
pub open spec fn repo_tame<R: LibRepo>(repo: &R, order: nat) -> bool {
    forall|id: LibId| (#[trigger] repo.held(id)) matches Some(lib) ==> lib_tame(lib, order)
}

/// Whether no run of code of the library can stop a machine that works in the field of order
/// `order`.
pub fn lib_is_tame(lib: &Lib, order: &Fe256) -> (r: bool)
    ensures
        r == lib_tame(*lib, order.as_nat()),
{
    if !Fe256::zero().is_below(order) {
        return false;
    }
    let len = code_len(lib);
    let mut offset: usize = 0;
    while offset < len && offset <= 0xFFFF
        invariant
            len == lib_code_len(*lib),
            0 < order.as_nat(),
            forall|k: int| 0 <= k < offset ==> op_tame(#[trigger] lib_op_at(*lib, k), order.as_nat()),
        decreases 0x1_0000 - offset,
    {
        match op_at(lib, offset as u16) {
            FieldOp::Put(value) => {
                if !value.is_below(order) {
                    return false;
                }
            },
            FieldOp::Negate => {
                return false;
            },
            FieldOp::Other => {},
        }
        offset = offset + 1;
    }
    true
}

/// The virtual machine that runs the lock scripts of inputs: control flow and field arithmetic,
/// without access to the state of the operation.
#[verifier::external_body]
pub struct InputVm {
    vm: Vm<zkaluvm::gfa::Instr<zkaluvm::alu::LibId>>,
}

/// What the field register of number `index` holds in the machine.
pub uninterp spec fn input_vm_reg(vm: InputVm, index: int) -> Option<Fe256>;

/// The order of the field that the machine works in.
pub uninterp spec fn input_vm_order(vm: InputVm) -> nat;

/// The complexity limit that the machine was configured with.
pub uninterp spec fn input_vm_limit(vm: InputVm) -> Option<u64>;

/// Whether the machine was configured to halt as soon as a check fails.
pub uninterp spec fn input_vm_halt(vm: InputVm) -> bool;

/// Whether the machine has run nothing yet: its control registers are those of a machine that
/// was just made, whatever its field registers hold.
pub uninterp spec fn input_vm_fresh(vm: InputVm) -> bool;

/// The sixteen field registers of the machine, by their numbers.
pub open spec fn input_vm_regs(vm: InputVm) -> Seq<Option<Fe256>> {
    Seq::new(16, |i: int| input_vm_reg(vm, i))
}

/// The libraries that the repository holds, by their identifiers.
pub open spec fn repo_libs<R: LibRepo>(repo: &R) -> Map<LibId, Lib> {
    Map::new(|id: LibId| repo.held(id) is Some, |id: LibId| repo.held(id)->0)
}

/// How a run of the machine ends.
pub ghost struct RunEnd {
    /// Whether the check register was ok when the machine stopped.
    pub ok: bool,
    /// What the sixteen field registers held when the machine stopped.
    pub regs: Seq<Option<Fe256>>,
}

/// How the run of a script ends on a machine that has run nothing yet: one that halts on a
/// failed check or not, with the complexity limit `limit`, in the field of order `order`, with
/// `regs` in its field registers, started at `site`, with the libraries `libs` to take code
/// from.
pub uninterp spec fn script_run(
    halt: bool,
    limit: Option<u64>,
    order: nat,
    regs: Seq<Option<Fe256>>,
    site: LibSite,
    libs: Map<LibId, Lib>,
) -> RunEnd;

impl InputVm {
    /// Calls `Vm::with`: a machine with the given configuration, for the field of the given
    /// order, with empty field registers.
    #[verifier::external_body]
    pub(crate) fn with(config: CoreConfig, order: &Fe256) -> (vm: InputVm)
        ensures
            forall|i: int| input_vm_reg(vm, i) is None,
            input_vm_order(vm) == order.as_nat(),
            input_vm_limit(vm) == config.complexity_lim,
            input_vm_halt(vm) == config.halt,
            input_vm_fresh(vm),
    {
        let core = zkaluvm::alu::CoreConfig { halt: config.halt, complexity_lim: config.complexity_lim };
        InputVm { vm: Vm::with(core, GfaConfig { field_order: u256::from_le_bytes(order.bytes) }) }
    }

    /// Calls `set` on the field registers of the machine: the register holds `val` afterwards,
    /// and nothing else changes. The call panics on a value that is not below the order of the
    /// field, so such a value is not admitted.
    #[verifier::external_body]
    pub(crate) fn set(&mut self, index: usize, val: Fe256)
        requires
            index < 16,
            val.as_nat() < input_vm_order(*old(self)),
        ensures
            forall|i: int|
                input_vm_reg(*final(self), i) == if i == index {
                    Some(val)
                } else {
                    input_vm_reg(*old(self), i)
                },
            input_vm_order(*final(self)) == input_vm_order(*old(self)),
            input_vm_limit(*final(self)) == input_vm_limit(*old(self)),
            input_vm_halt(*final(self)) == input_vm_halt(*old(self)),
            input_vm_fresh(*final(self)) == input_vm_fresh(*old(self)),
    {
        self.vm.core.cx.set(zkaluvm::RegE::ALL[index], zkaluvm::fe256::from(val.bytes));
    }

    /// Calls `get` on the field registers of the machine: what the register holds.
    #[verifier::external_body]
    pub(crate) fn get(&self, index: usize) -> (val: Option<Fe256>)
        requires
            index < 16,
        ensures
            val == input_vm_reg(*self, index as int),
    {
        self.vm.core.cx.get(zkaluvm::RegE::ALL[index]).map(
            |v| Fe256 { bytes: v.to_u256().to_le_bytes() },
        )
    }

    /// Calls `Vm::exec` on a machine that has run nothing yet: runs the script at `site`, with
    /// the libraries that `repo` holds, and tells whether the check register was ok at the end.
    /// The run is a function of the configuration of the machine, of what its field registers
    /// hold, of the site and of the libraries: the result and what the run leaves in the field
    /// registers are named as such, and nothing more is claimed of them. The order of the
    /// field, the complexity limit and the halt flag stay.
    ///
    /// A machine without a complexity limit may run forever, so a limit is asked for. The
    /// machine stops the program where a script puts into a register a value that is not below
    /// the order of the field, as a constant outside of the field and the negative of zero
    /// are; so the libraries of the repository have to be tame.
    #[verifier::external_body]
    pub(crate) fn exec<R: LibRepo>(&mut self, site: LibSite, repo: &R) -> (ok: bool)
        requires
            input_vm_fresh(*old(self)),
            input_vm_limit(*old(self)) is Some,
            repo_tame(repo, input_vm_order(*old(self))),
        ensures
            ok == script_run(
                input_vm_halt(*old(self)),
                input_vm_limit(*old(self)),
                input_vm_order(*old(self)),
                input_vm_regs(*old(self)),
                site,
                repo_libs(repo),
            ).ok,
            forall|i: int|
                0 <= i < 16 ==> input_vm_reg(*final(self), i) == script_run(
                    input_vm_halt(*old(self)),
                    input_vm_limit(*old(self)),
                    input_vm_order(*old(self)),
                    input_vm_regs(*old(self)),
                    site,
                    repo_libs(repo),
                ).regs[i],
            input_vm_order(*final(self)) == input_vm_order(*old(self)),
            input_vm_limit(*final(self)) == input_vm_limit(*old(self)),
            input_vm_halt(*final(self)) == input_vm_halt(*old(self)),
    {
        let entry = zkaluvm::alu::LibSite::new(zkaluvm::alu::LibId::from(site.lib_id.bytes), site.offset);
        let resolver = |id: zkaluvm::alu::LibId| resolve(repo, LibId { bytes: id.to_byte_array() });
        match self.vm.exec(entry, &(), resolver) {
            Status::Ok => true,
            Status::Fail => false,
        }
    }
}

} // verus!
