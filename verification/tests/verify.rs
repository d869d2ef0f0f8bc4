use std::collections::{BTreeSet, HashMap};
use std::fmt::{self, Debug, Display, Formatter};
use std::ops::RangeInclusive;

use amplify::num::u256;
use commit_verify::Digest;
use ultrasonic::vm::{lib_is_tame, resolve};
use ultrasonic::{
    AuthToken, CallError, CellAddr, Codex, ContractId, CoreConfig, Fe256, Identity, Input, InstrFamily,
    LibId, LibRepo, LibSite, Memory, Operation, Opid, ReservedBytes, StateCell, StateData, StateValue,
    UsonicCore, UsonicInstr, VerifiedOperation, VerifierCall, VmContext, ISA_ULTRASONIC,
};
use zkaluvm::alu::isa::{
    Bytecode, BytecodeRead, BytecodeWrite, CodeEofError, CtrlInstr, GotoTarget, Instruction, ReservedInstr,
};
use zkaluvm::alu::regs::Status;
use zkaluvm::alu::{Core, CoreExt, ExecStep, Lib, NoExt, Register, Site, SiteId, Supercore, Vm};
use zkaluvm::gfa::FieldInstr;
use zkaluvm::{GfaConfig, GfaCore, RegE, FIELD_ORDER_SECP};

/// The core of the machine that runs USONIC scripts: the registers of the library's core, as
/// an extension of the ALU core.
#[derive(Copy, Clone)]
pub struct Cx(pub UsonicCore);

impl Debug for Cx {
    fn fmt(&self, f: &mut Formatter<'_>) -> fmt::Result {
        f.debug_struct("Cx").field("ui", &self.0.ui).field("gfa", &self.0.gfa).finish()
    }
}

impl CoreExt for Cx {
    type Reg = RegE;
    type Config = GfaConfig;

    fn with(config: Self::Config) -> Self {
        Cx(UsonicCore::with(&Fe256::from_le_bytes(config.field_order.to_le_bytes())))
    }

    fn get(&self, reg: Self::Reg) -> Option<<Self::Reg as Register>::Value> { self.0.gfa.get(reg) }

    fn clr(&mut self, reg: Self::Reg) { self.0.gfa.clr(reg) }

    fn put(&mut self, reg: Self::Reg, val: Option<<Self::Reg as Register>::Value>) { self.0.gfa.put(reg, val) }

    fn reset(&mut self) { self.0.reset_all(); }
}

impl Supercore<GfaCore> for Cx {
    fn subcore(&self) -> GfaCore { self.0.gfa }

    fn merge_subcore(&mut self, subcore: GfaCore) { self.0.gfa = subcore; }
}

impl Supercore<NoExt> for Cx {
    fn subcore(&self) -> NoExt { NoExt }

    fn merge_subcore(&mut self, _subcore: NoExt) {}
}

/// Complete instruction set of the machine: control flow, field arithmetic, USONIC, and the
/// opcodes that are reserved.
#[derive(Copy, Clone, PartialEq, Eq, Hash, Debug)]
pub enum Instr<Id: SiteId> {
    /// Control flow instructions of the base ISA.
    Ctrl(CtrlInstr<Id>),
    /// Arithmetic over a finite field of up to 256 bits.
    Gfa(FieldInstr),
    /// The USONIC instruction set.
    Usonic(UsonicInstr),
    /// Opcodes that are reserved.
    Reserved(ReservedInstr),
}

impl<Id: SiteId> Display for Instr<Id> {
    fn fmt(&self, f: &mut Formatter<'_>) -> fmt::Result {
        match self {
            Instr::Ctrl(instr) => Display::fmt(instr, f),
            Instr::Gfa(instr) => Display::fmt(instr, f),
            Instr::Usonic(instr) => f.write_str(instr.mnemonic()),
            Instr::Reserved(instr) => Display::fmt(instr, f),
        }
    }
}

impl<Id: SiteId> From<CtrlInstr<Id>> for Instr<Id> {
    fn from(instr: CtrlInstr<Id>) -> Self { Instr::Ctrl(instr) }
}

impl<Id: SiteId> From<FieldInstr> for Instr<Id> {
    fn from(instr: FieldInstr) -> Self { Instr::Gfa(instr) }
}

impl<Id: SiteId> From<UsonicInstr> for Instr<Id> {
    fn from(instr: UsonicInstr) -> Self { Instr::Usonic(instr) }
}

impl<Id: SiteId> From<ReservedInstr> for Instr<Id> {
    fn from(instr: ReservedInstr) -> Self { Instr::Reserved(instr) }
}

impl<Id: SiteId> From<zkaluvm::gfa::Instr<Id>> for Instr<Id> {
    fn from(instr: zkaluvm::gfa::Instr<Id>) -> Self {
        match instr {
            zkaluvm::gfa::Instr::Ctrl(ctrl) => Self::Ctrl(ctrl),
            zkaluvm::gfa::Instr::Gfa(gfa) => Self::Gfa(gfa),
            zkaluvm::gfa::Instr::Reserved(resrv) => Self::Reserved(resrv),
            _ => unreachable!(),
        }
    }
}

fn usonic_regs(regs: Vec<ultrasonic::RegE>) -> BTreeSet<RegE> {
    regs.into_iter().map(|reg| RegE::ALL[reg.index()]).collect()
}

impl<Id: SiteId> Instruction<Id> for Instr<Id> {
    const ISA_EXT: &'static [&'static str] = &[ISA_ULTRASONIC];
    type Core = Cx;
    type Context<'ctx> = VmContext<'ctx>;

    fn is_goto_target(&self) -> bool {
        match self {
            Instr::Ctrl(instr) => instr.is_goto_target(),
            Instr::Gfa(instr) => Instruction::<Id>::is_goto_target(instr),
            Instr::Usonic(instr) => instr.is_goto_target(),
            Instr::Reserved(instr) => Instruction::<Id>::is_goto_target(instr),
        }
    }

    fn local_goto_pos(&mut self) -> GotoTarget {
        match self {
            Instr::Ctrl(instr) => instr.local_goto_pos(),
            Instr::Gfa(instr) => Instruction::<Id>::local_goto_pos(instr),
            Instr::Usonic(_) => GotoTarget::None,
            Instr::Reserved(instr) => Instruction::<Id>::local_goto_pos(instr),
        }
    }

    fn remote_goto_pos(&mut self) -> Option<&mut Site<Id>> {
        match self {
            Instr::Ctrl(instr) => instr.remote_goto_pos(),
            Instr::Gfa(instr) => Instruction::<Id>::remote_goto_pos(instr),
            Instr::Usonic(_) => None,
            Instr::Reserved(instr) => Instruction::<Id>::remote_goto_pos(instr),
        }
    }

    fn src_regs(&self) -> BTreeSet<RegE> {
        match self {
            Instr::Ctrl(_) => BTreeSet::new(),
            Instr::Gfa(instr) => Instruction::<Id>::src_regs(instr),
            Instr::Usonic(instr) => usonic_regs(instr.src_regs()),
            Instr::Reserved(_) => BTreeSet::new(),
        }
    }

    fn dst_regs(&self) -> BTreeSet<RegE> {
        match self {
            Instr::Ctrl(_) => BTreeSet::new(),
            Instr::Gfa(instr) => Instruction::<Id>::dst_regs(instr),
            Instr::Usonic(instr) => usonic_regs(instr.dst_regs()),
            Instr::Reserved(_) => BTreeSet::new(),
        }
    }

    fn op_data_bytes(&self) -> u16 {
        match self {
            Instr::Ctrl(instr) => instr.op_data_bytes(),
            Instr::Gfa(instr) => Instruction::<Id>::op_data_bytes(instr),
            Instr::Usonic(instr) => instr.op_data_bytes(),
            Instr::Reserved(_) => 0,
        }
    }

    fn ext_data_bytes(&self) -> u16 {
        match self {
            Instr::Ctrl(instr) => instr.ext_data_bytes(),
            Instr::Gfa(instr) => Instruction::<Id>::ext_data_bytes(instr),
            Instr::Usonic(instr) => instr.ext_data_bytes(),
            Instr::Reserved(_) => 0,
        }
    }

    fn complexity(&self) -> u64 {
        match self {
            Instr::Usonic(instr) => instr.complexity(),
            _ => self.base_complexity(),
        }
    }

    fn exec(&self, site: Site<Id>, core: &mut Core<Id, Self::Core>, context: &Self::Context<'_>) -> ExecStep<Site<Id>> {
        match self {
            Instr::Ctrl(instr) => {
                let mut subcore = core.subcore();
                let step = instr.exec(site, &mut subcore, &());
                core.merge_subcore(subcore);
                step
            }
            Instr::Gfa(instr) => {
                let mut subcore = core.subcore();
                let step = instr.exec(site, &mut subcore, &());
                core.merge_subcore(subcore);
                step
            }
            Instr::Usonic(instr) => {
                if !instr.is_admitted(&core.cx.0, context) {
                    panic!("value exceeds field order {:?}", core.cx.0.order());
                }
                if let Some(ok) = instr.exec(&mut core.cx.0, context) {
                    core.set_co(if ok { Status::Ok } else { Status::Fail });
                }
                ExecStep::Next
            }
            Instr::Reserved(instr) => {
                let mut subcore = core.subcore();
                let step = instr.exec(site, &mut subcore, &());
                core.merge_subcore(subcore);
                step
            }
        }
    }
}

impl<Id: SiteId> Bytecode<Id> for Instr<Id> {
    fn op_range() -> RangeInclusive<u8> { 0..=0xFF }

    fn opcode_byte(&self) -> u8 {
        match self {
            Instr::Ctrl(instr) => instr.opcode_byte(),
            Instr::Gfa(instr) => Bytecode::<Id>::opcode_byte(instr),
            Instr::Usonic(instr) => instr.opcode_byte(),
            Instr::Reserved(instr) => Bytecode::<Id>::opcode_byte(instr),
        }
    }

    fn code_byte_len(&self) -> u16 {
        match self {
            Instr::Ctrl(instr) => instr.code_byte_len(),
            Instr::Gfa(instr) => Bytecode::<Id>::code_byte_len(instr),
            Instr::Usonic(instr) => instr.code_byte_len(),
            Instr::Reserved(instr) => Bytecode::<Id>::code_byte_len(instr),
        }
    }

    fn external_ref(&self) -> Option<Id> {
        match self {
            Instr::Ctrl(instr) => instr.external_ref(),
            Instr::Gfa(instr) => Bytecode::<Id>::external_ref(instr),
            Instr::Usonic(_) => None,
            Instr::Reserved(instr) => Bytecode::<Id>::external_ref(instr),
        }
    }

    fn encode_operands<W>(&self, writer: &mut W) -> Result<(), W::Error>
    where W: BytecodeWrite<Id> {
        match self {
            Instr::Ctrl(instr) => instr.encode_operands(writer),
            Instr::Gfa(instr) => instr.encode_operands(writer),
            Instr::Usonic(_) => Ok(()),
            Instr::Reserved(instr) => instr.encode_operands(writer),
        }
    }

    fn decode_operands<R>(reader: &mut R, opcode: u8) -> Result<Self, CodeEofError>
    where
        Self: Sized,
        R: BytecodeRead<Id>,
    {
        match InstrFamily::of_opcode(opcode) {
            InstrFamily::Ctrl => CtrlInstr::<Id>::decode_operands(reader, opcode).map(Self::Ctrl),
            InstrFamily::Gfa => <FieldInstr as Bytecode<Id>>::decode_operands(reader, opcode).map(Self::Gfa),
            InstrFamily::Usonic => Ok(Self::Usonic(UsonicInstr::decode_operands(opcode))),
            InstrFamily::Reserved => {
                <ReservedInstr as Bytecode<Id>>::decode_operands(reader, opcode).map(Self::Reserved)
            }
        }
    }
}

fn our_fe(value: zkaluvm::fe256) -> Fe256 { Fe256::from_le_bytes(value.to_u256().to_le_bytes()) }

fn their_site(site: LibSite) -> zkaluvm::alu::LibSite {
    zkaluvm::alu::LibSite::new(zkaluvm::alu::LibId::from(site.lib_id.to_byte_array()), site.offset)
}

fn our_lib_id(id: zkaluvm::alu::LibId) -> LibId { LibId::from_byte_array(id.to_byte_array()) }

/// A repository that is held to its word: it stops the program on a library that comes under
/// another identifier than its own.
pub struct Checked<'a, R: LibRepo> {
    repo: &'a R,
}

impl<'a, R: LibRepo> Checked<'a, R> {
    /// The libraries of `repo`, each held against the identifier that it was asked for.
    pub fn new(repo: &'a R) -> Self { Checked { repo } }
}

impl<R: LibRepo> LibRepo for Checked<'_, R> {
    fn get_lib(&self, lib_id: LibId) -> Option<&Lib> {
        let lib = self.repo.get_lib(lib_id)?;
        if our_lib_id(lib.lib_id()) != lib_id {
            panic!(
                "The library returned by the `LibRepo` provided for the contract operation verification doesn't \
             match the requested library id. This error indicates that the software using the consensus \
             verification is invalid or compromised."
            );
        }
        Some(lib)
    }
}

/// A repository that hands out tame libraries only: it stops the program on a library whose
/// code can stop the machine that checks the locks.
pub struct Tame<'a, R: LibRepo> {
    repo: &'a R,
    order: Fe256,
}

impl<'a, R: LibRepo> Tame<'a, R> {
    /// The libraries of `repo`, for a machine that works in the field of order `order`.
    pub fn new(repo: &'a R, order: Fe256) -> Self { Tame { repo, order } }
}

impl<R: LibRepo> LibRepo for Tame<'_, R> {
    fn get_lib(&self, lib_id: LibId) -> Option<&Lib> {
        let lib = self.repo.get_lib(lib_id)?;
        if !lib_is_tame(lib, &self.order) {
            panic!("library {lib_id:?} puts a value that exceeds the field order into a register");
        }
        Some(lib)
    }
}

/// Runs the script of a verifier call on the main machine, and tells whether it ended well and
/// what it left in `E1`.
pub fn run_verifier(call: &VerifierCall, repo: &impl LibRepo) -> (bool, Option<Fe256>) {
    let context = call.context();
    let config = call.core_config();
    let mut vm_main = Vm::<Instr<zkaluvm::alu::LibId>>::with(
        zkaluvm::alu::CoreConfig { halt: config.halt, complexity_lim: config.complexity_lim },
        GfaConfig { field_order: u256::from_le_bytes(call.order().to_le_bytes()) },
    );
    let resolver = |lib_id: zkaluvm::alu::LibId| resolve(repo, our_lib_id(lib_id));
    let status = vm_main.exec(their_site(call.entry_point()), &context, resolver);
    (status == Status::Ok, vm_main.core.cx.get(RegE::E1).map(our_fe))
}

/// Verifies an operation under a contract: inputs and locks first, then the script of the call.
///
/// # Panics
///
/// If a list of the operation is longer than 65535 items; if a lock script is to be run on a
/// machine without complexity limit, with a token or a witness outside of the field, or from a
/// library whose code can stop the machine; if `repo` returns a library whose id is not the
/// requested one.
pub fn verify(
    codex: &Codex,
    contract_id: ContractId,
    operation: Operation,
    memory: &impl Memory,
    repo: &impl LibRepo,
) -> Result<VerifiedOperation, CallError> {
    let max = u16::MAX as usize;
    if operation.destructible_in.len() > max
        || operation.immutable_in.len() > max
        || operation.destructible_out.len() > max
        || operation.immutable_out.len() > max
    {
        panic!("operation lists must not hold more than 65535 items");
    }
    if operation.contract_id == contract_id && !codex.locks_admitted(&operation, memory) {
        panic!("lock script cannot be run: no complexity limit, or value exceeds field order");
    }
    let repo = Checked::new(repo);
    let call = codex.verify(contract_id, operation, memory, &Tame::new(&repo, codex.field_order))?;
    let (ok, e1) = run_verifier(&call, &repo);
    call.finish(ok, e1)
}

type Code = Vec<Instr<zkaluvm::alu::LibId>>;

#[derive(Clone, Eq, PartialEq, Debug, Default)]
pub struct DumbMemory {
    pub destructible: HashMap<CellAddr, StateCell>,
    pub immutable: HashMap<CellAddr, StateValue>,
}

impl Memory for DumbMemory {
    fn destructible(&self, addr: CellAddr) -> Option<StateCell> { self.destructible.get(&addr).copied() }

    fn immutable(&self, addr: CellAddr) -> Option<StateValue> { self.immutable.get(&addr).copied() }
}

struct Repo(Vec<Lib>);

impl LibRepo for Repo {
    fn get_lib(&self, lib_id: LibId) -> Option<&Lib> {
        self.0.iter().find(|lib| lib_id == our_lib_id(lib.lib_id()))
    }
}

fn ctrl(instr: CtrlInstr<zkaluvm::alu::LibId>) -> Instr<zkaluvm::alu::LibId> { Instr::Ctrl(instr) }

fn put(dst: RegE, val: u128) -> Instr<zkaluvm::alu::LibId> {
    if val == 0 {
        Instr::Gfa(FieldInstr::PutZ { dst })
    } else {
        Instr::Gfa(FieldInstr::PutD { dst, data: zkaluvm::fe256::from(val) })
    }
}

fn test(src: RegE) -> Instr<zkaluvm::alu::LibId> { Instr::Gfa(FieldInstr::Test { src }) }

fn clr(dst: RegE) -> Instr<zkaluvm::alu::LibId> { Instr::Gfa(FieldInstr::Clr { dst }) }

fn eq(src1: RegE, src2: RegE) -> Instr<zkaluvm::alu::LibId> { Instr::Gfa(FieldInstr::Eq { src1, src2 }) }

fn chk_co() -> Instr<zkaluvm::alu::LibId> { ctrl(CtrlInstr::ChkCo) }

fn not_co() -> Instr<zkaluvm::alu::LibId> { ctrl(CtrlInstr::NotCo) }

fn stop() -> Instr<zkaluvm::alu::LibId> { ctrl(CtrlInstr::Stop) }

fn us(instr: UsonicInstr) -> Instr<zkaluvm::alu::LibId> { Instr::Usonic(instr) }

fn assemble(code: &Code) -> Lib { Lib::assemble(code).unwrap() }

fn lib_success() -> Lib { assemble(&vec![stop()]) }

fn lib_failure_none() -> Lib { assemble(&vec![clr(RegE::E1), test(RegE::E2), chk_co()]) }

fn lib_failure_one() -> Lib { assemble(&vec![put(RegE::E1, 1), test(RegE::E2), chk_co()]) }

const SECRET: u8 = 48;

fn lib_lock() -> Lib {
    assert_eq!(SECRET, 48);
    assemble(&vec![
        stop(),
        put(RegE::EA, 48), // Secret value
        eq(RegE::EA, RegE::E1), // Must be provided as a token of authority
        put(RegE::E8, 1),       // Failure #1
        chk_co(),
        eq(RegE::EA, RegE::E2), // Must be provided in witness
        put(RegE::E8, 2),       // Failure #2
        chk_co(),
        put(RegE::E8, 3), // Failure #3
        test(RegE::E3),   // The rest must be empty
        not_co(),
        chk_co(),
        test(RegE::E4),
        not_co(),
        chk_co(),
        test(RegE::E5),
        not_co(),
        chk_co(),
    ])
}

fn site_of(lib: &Lib, offset: u16) -> LibSite { LibSite::new(our_lib_id(lib.lib_id()), offset) }

fn dumb_addr() -> CellAddr { CellAddr::new(Opid::from_byte_array([0; 32]), 0) }

fn dumb_token() -> AuthToken { AuthToken::from_fe256(Fe256::zero()) }

fn dumb_cell() -> StateCell { StateCell { data: StateValue::Unit, auth: dumb_token(), lock: None } }

fn digest(data: &[u8]) -> [u8; 32] { commit_verify::Sha256::digest(data).into() }

fn dumb_codex(lib_id: LibId) -> Codex {
    Codex {
        version: ReservedBytes::new(),
        name: String::new(),
        developer: Identity::default(),
        timestamp: 0,
        field_order: Fe256::from_le_bytes(FIELD_ORDER_SECP.to_le_bytes()),
        verification_config: CoreConfig { halt: true, complexity_lim: Some(10_000_000) },
        input_config: CoreConfig { halt: true, complexity_lim: Some(10_000_000) },
        verifiers: vec![(0, LibSite::new(lib_id, 0))],
    }
}

fn dumb_operation(contract_id: ContractId) -> Operation {
    Operation {
        version: ReservedBytes::new(),
        contract_id,
        call_id: 0,
        nonce: Fe256::zero(),
        destructible_in: vec![],
        immutable_in: vec![],
        destructible_out: vec![],
        immutable_out: vec![],
    }
}

fn stand_repo(
    lib_id: LibId,
    repo: impl LibRepo,
    modify: impl FnOnce(&mut Codex, &mut Operation, &mut DumbMemory),
) -> Result<VerifiedOperation, CallError> {
    let mut codex = dumb_codex(lib_id);
    let contract_id = ContractId::from_byte_array(digest(b"test"));
    let mut operation = dumb_operation(contract_id);
    let mut memory = DumbMemory::default();

    modify(&mut codex, &mut operation, &mut memory);

    let opid = operation.opid();
    let copy = operation.clone();
    let res = verify(&codex, contract_id, operation, &memory, &repo);
    if let Ok(verified) = &res {
        assert_eq!(verified.opid(), opid);
        assert_eq!(verified.as_operation(), &copy);
    }
    res
}

fn stand_script(
    repo: Lib,
    modify: impl FnOnce(&mut Codex, &mut Operation, &mut DumbMemory),
) -> Result<VerifiedOperation, CallError> {
    stand_repo(our_lib_id(repo.lib_id()), Repo(vec![repo]), modify)
}

fn stand_libs(
    main: Lib,
    others: Vec<Lib>,
    modify: impl FnOnce(&mut Codex, &mut Operation, &mut DumbMemory),
) -> Result<VerifiedOperation, CallError> {
    let lib_id = our_lib_id(main.lib_id());
    let mut libs = others;
    libs.push(main);
    stand_repo(lib_id, Repo(libs), modify)
}

fn stand(modify: impl FnOnce(&mut Codex, &mut Operation, &mut DumbMemory)) -> Result<VerifiedOperation, CallError> {
    stand_script(lib_success(), modify)
}

fn test_stand(modify: impl FnOnce(&mut Codex, &mut Operation, &mut DumbMemory)) { stand(modify).unwrap(); }

fn test_stand_script(repo: Lib, modify: impl FnOnce(&mut Codex, &mut Operation, &mut DumbMemory)) {
    stand_script(repo, modify).unwrap();
}

#[test]
fn verify_dumb() { test_stand(|_codex, _operation, _memory| {}); }

#[test]
fn verify_immutable() {
    test_stand(|_codex, operation, memory| {
        let addr = dumb_addr();
        memory.immutable.insert(addr, StateValue::Unit);
        operation.immutable_in = vec![addr];
    });
}

#[test]
fn verify_destructible() {
    test_stand(|_codex, operation, memory| {
        let addr = dumb_addr();
        memory.destructible.insert(addr, dumb_cell());
        operation.destructible_in = vec![Input { addr, witness: StateValue::Unit }];
    });
}

#[test]
fn verify_protected_dumb() {
    test_stand_script(lib_lock(), |_codex, operation, memory| {
        let addr = dumb_addr();
        memory.destructible.insert(addr, StateCell {
            data: StateValue::Unit,
            auth: dumb_token(),
            lock: Some(site_of(&lib_lock(), 0)),
        });
        operation.destructible_in = vec![Input { addr, witness: StateValue::Unit }];
    });
}

fn protected(auth: AuthToken, witness: StateValue) -> Result<VerifiedOperation, CallError> {
    stand_script(lib_lock(), |_codex, operation, memory| {
        let addr = dumb_addr();
        memory.destructible.insert(addr, StateCell {
            data: StateValue::Unit,
            auth,
            lock: Some(site_of(&lib_lock(), 1)),
        });
        operation.destructible_in = vec![Input { addr, witness }];
    })
}

#[test]
fn verify_protected() {
    protected(AuthToken::from_fe256(Fe256::from_u8(SECRET)), StateValue::Single { first: Fe256::from_u8(SECRET) })
        .unwrap();
}

#[test]
#[should_panic(expected = "ScriptUnspecified")]
fn verify_script_failure_unspecified() {
    test_stand_script(lib_failure_none(), |_codex, _operation, _memory| {});
}

#[test]
#[should_panic(expected = "NotFound(0)")]
fn verify_no_verifier() {
    test_stand_script(lib_success(), |codex, _operation, _memory| {
        codex.verifiers.clear();
    });
}

#[test]
#[should_panic(expected = "ScriptUnspecified")]
fn verify_lib_absent() {
    test_stand_script(lib_success(), |codex, _operation, _memory| {
        codex.verifiers = vec![(0, site_of(&lib_failure_one(), 0))];
    });
}

#[test]
#[should_panic(expected = "ScriptUnspecified")]
fn verify_lib_wrong_pos() {
    test_stand_script(lib_success(), |codex, _operation, _memory| {
        codex.verifiers = vec![(0, site_of(&lib_success(), 1))];
    });
}

#[test]
fn wrong_contract_is_refused_before_anything_else() {
    let expected = ContractId::from_byte_array(digest(b"test"));
    let found = ContractId::from_byte_array(digest(b"wrong"));
    let res = stand(|codex, operation, _memory| {
        operation.contract_id = found;
        // nothing else is looked at: neither the missing cells nor the missing verifier
        operation.immutable_in = vec![dumb_addr()];
        operation.destructible_in = vec![Input { addr: dumb_addr(), witness: StateValue::Unit }];
        codex.verifiers.clear();
    });
    assert_eq!(res.unwrap_err(), CallError::WrongContract { expected, found });
    assert_eq!(
        expected.to_byte_array().to_vec(),
        hex("9f86d081884c7d659a2feaa0c55ad015a3bf4f1b2b0b822cd15d6c15b0f00a08")
    );
    assert_eq!(
        found.to_byte_array().to_vec(),
        hex("8810ad581e59f2bc3928b261707a71308f7e139eb04820366dc4d5c18d980225")
    );
}

fn hex(s: &str) -> Vec<u8> {
    (0..s.len()).step_by(2).map(|i| u8::from_str_radix(&s[i..i + 2], 16).unwrap()).collect()
}

#[test]
fn missing_immutable_input() {
    let res = stand(|_codex, operation, _memory| {
        operation.immutable_in = vec![dumb_addr()];
    });
    assert_eq!(res.unwrap_err(), CallError::NoImmutableInput(dumb_addr()));
}

#[test]
fn missing_destructible_input() {
    let res = stand(|_codex, operation, _memory| {
        operation.destructible_in = vec![Input { addr: dumb_addr(), witness: StateValue::Unit }];
    });
    assert_eq!(res.unwrap_err(), CallError::NoReadOnceInput(dumb_addr()));
}

#[test]
fn first_failing_step_gives_the_error() {
    let known = CellAddr::new(Opid::from_byte_array([1; 32]), 1);
    let unknown = CellAddr::new(Opid::from_byte_array([2; 32]), 2);
    let other = CellAddr::new(Opid::from_byte_array([3; 32]), 3);
    // destructible inputs come before immutable ones, in index order
    let res = stand(|codex, operation, memory| {
        memory.destructible.insert(known, dumb_cell());
        operation.destructible_in = vec![
            Input { addr: known, witness: StateValue::Unit },
            Input { addr: unknown, witness: StateValue::Unit },
            Input { addr: other, witness: StateValue::Unit },
        ];
        operation.immutable_in = vec![other];
        codex.verifiers.clear();
    });
    assert_eq!(res.unwrap_err(), CallError::NoReadOnceInput(unknown));
    // immutable inputs come before the verifier
    let res = stand(|codex, operation, memory| {
        memory.destructible.insert(known, dumb_cell());
        memory.immutable.insert(known, StateValue::Unit);
        operation.destructible_in = vec![Input { addr: known, witness: StateValue::Unit }];
        operation.immutable_in = vec![known, other, unknown];
        codex.verifiers.clear();
    });
    assert_eq!(res.unwrap_err(), CallError::NoImmutableInput(other));
    // a destructible cell is no immutable one
    let res = stand(|_codex, operation, memory| {
        memory.destructible.insert(known, dumb_cell());
        operation.immutable_in = vec![known];
    });
    assert_eq!(res.unwrap_err(), CallError::NoImmutableInput(known));
}

#[test]
fn missing_verifier() {
    let res = stand(|codex, operation, _memory| {
        operation.call_id = 5;
        codex.verifiers = vec![(0, codex.verifiers[0].1), (6, codex.verifiers[0].1)];
    });
    assert_eq!(res.unwrap_err(), CallError::NotFound(5));
    stand(|codex, operation, _memory| {
        operation.call_id = 6;
        codex.verifiers = vec![(0, site_of(&lib_failure_one(), 0)), (6, codex.verifiers[0].1)];
    })
    .unwrap();
}

#[test]
fn lock_failures_carry_the_code_of_the_script() {
    let secret = Fe256::from_u8(SECRET);
    // the token is not the secret
    let res = protected(dumb_token(), StateValue::Single { first: secret });
    assert_eq!(res.unwrap_err(), CallError::Lock(Some(Fe256::from_u8(1))));
    // the witness is missing
    let res = protected(AuthToken::from_fe256(secret), StateValue::Unit);
    assert_eq!(res.unwrap_err(), CallError::Lock(Some(Fe256::from_u8(2))));
    // the witness is too long
    let res = protected(AuthToken::from_fe256(secret), StateValue::Double { first: secret, second: secret });
    assert_eq!(res.unwrap_err(), CallError::Lock(Some(Fe256::from_u8(3))));
}

#[test]
fn lock_failure_without_code() {
    let lib = assemble(&vec![test(RegE::E2), chk_co()]);
    let res = stand_script(lib.clone(), |_codex, operation, memory| {
        memory.destructible.insert(dumb_addr(), StateCell {
            data: StateValue::Unit,
            auth: dumb_token(),
            lock: Some(site_of(&lib, 0)),
        });
        operation.destructible_in = vec![Input { addr: dumb_addr(), witness: StateValue::Unit }];
    });
    assert_eq!(res.unwrap_err(), CallError::Lock(None));
}

#[test]
fn lock_script_that_ignores_the_witness() {
    // the script at offset 0 of the lock library stops at once, whatever the witness
    for witness in [
        StateValue::Unit,
        StateValue::Single { first: Fe256::from_u8(1) },
        StateValue::Quadripple {
            first: Fe256::from_u8(1),
            second: Fe256::from_u8(2),
            third: Fe256::from_u8(3),
            fourth: Fe256::from_u8(4),
        },
    ] {
        stand_script(lib_lock(), |_codex, operation, memory| {
            memory.destructible.insert(dumb_addr(), StateCell {
                data: StateValue::Unit,
                auth: dumb_token(),
                lock: Some(site_of(&lib_lock(), 0)),
            });
            operation.destructible_in = vec![Input { addr: dumb_addr(), witness }];
        })
        .unwrap();
    }
}

#[test]
fn witness_fills_registers_from_e2_and_leaves_the_rest_empty() {
    // The lock wants E1 = 7, E2 = 8, E3 = 9, and E4, E5 empty.
    let lib = assemble(&vec![
        put(RegE::EA, 7),
        eq(RegE::EA, RegE::E1),
        chk_co(),
        put(RegE::EA, 8),
        eq(RegE::EA, RegE::E2),
        chk_co(),
        put(RegE::EA, 9),
        eq(RegE::EA, RegE::E3),
        chk_co(),
        test(RegE::E4),
        not_co(),
        chk_co(),
        test(RegE::E5),
        not_co(),
        chk_co(),
    ]);
    let run = |witness: StateValue| {
        stand_libs(lib_success(), vec![lib.clone()], |_codex, operation, memory| {
            for i in 0..3u8 {
                let addr = CellAddr::new(Opid::from_byte_array([i; 32]), i as u16);
                memory.destructible.insert(addr, StateCell {
                    data: StateValue::Unit,
                    auth: AuthToken::from_fe256(Fe256::from_u8(7)),
                    lock: Some(site_of(&lib, 0)),
                });
                operation.destructible_in.push(Input { addr, witness });
            }
        })
    };
    // three locked inputs in a row: the machine is reset between them
    run(StateValue::Double { first: Fe256::from_u8(8), second: Fe256::from_u8(9) }).unwrap();
    assert_eq!(run(StateValue::Single { first: Fe256::from_u8(8) }).unwrap_err(), CallError::Lock(None));
    assert_eq!(
        run(StateValue::Triple { first: Fe256::from_u8(8), second: Fe256::from_u8(9), third: Fe256::from_u8(1) })
            .unwrap_err(),
        CallError::Lock(None)
    );
}

#[test]
fn script_failure_with_and_without_code() {
    let res = stand_script(lib_failure_one(), |_codex, _operation, _memory| {});
    assert_eq!(res.unwrap_err(), CallError::Script(Fe256::from_u8(1)));
    let res = stand_script(lib_failure_none(), |_codex, _operation, _memory| {});
    assert_eq!(res.unwrap_err(), CallError::ScriptUnspecified);
    // a code of zero is a code
    let lib = assemble(&vec![put(RegE::E1, 0), test(RegE::E2), chk_co()]);
    let res = stand_script(lib, |_codex, _operation, _memory| {});
    assert_eq!(res.unwrap_err(), CallError::Script(Fe256::zero()));
}

#[test]
fn verify_twice_gives_the_same() {
    let run = || {
        stand_script(lib_lock(), |_codex, operation, memory| {
            memory.destructible.insert(dumb_addr(), StateCell {
                data: StateValue::Single { first: Fe256::from_u8(5) },
                auth: AuthToken::from_fe256(Fe256::from_u8(SECRET)),
                lock: Some(site_of(&lib_lock(), 1)),
            });
            operation.destructible_in =
                vec![Input { addr: dumb_addr(), witness: StateValue::Single { first: Fe256::from_u8(SECRET) } }];
        })
    };
    let first = run().unwrap();
    let second = run().unwrap();
    assert_eq!(first, second);
    assert_eq!(first.opid(), second.opid());
    assert_eq!(first.as_operation(), second.as_operation());
    assert_eq!(first.clone().into_operation(), second.into_operation());
    let a = protected(dumb_token(), StateValue::Unit).unwrap_err();
    let b = protected(dumb_token(), StateValue::Unit).unwrap_err();
    assert_eq!(a, b);
}

#[test]
#[should_panic(expected = "The library returned by the `LibRepo` provided for the contract \
                           operation verification doesn't match the requested library id. \
                           This error indicates that the software using the consensus \
                           verification is invalid or compromised.")]
fn verify_wrong_lib_id() {
    struct InvalidRepo(Lib);
    impl LibRepo for InvalidRepo {
        fn get_lib(&self, _lib_id: LibId) -> Option<&Lib> { Some(&self.0) }
    }
    let repo = InvalidRepo(lib_failure_one());
    let _ = stand_repo(our_lib_id(lib_success().lib_id()), repo, |_codex, _operation, _memory| {});
}

#[test]
fn verified_operations_are_equal_and_ordered_by_opid() {
    let run = |nonce: u8| {
        stand(|_codex, operation, _memory| {
            operation.nonce = Fe256::from_u8(nonce);
        })
        .unwrap()
    };
    let mut all: Vec<VerifiedOperation> = (0..8).map(run).collect();
    for a in &all {
        for b in &all {
            assert_eq!(a == b, a.opid() == b.opid());
            assert_eq!(a.partial_cmp(b), a.opid().to_byte_array().partial_cmp(&b.opid().to_byte_array()));
            assert_eq!(a < b, a.opid() < b.opid());
        }
    }
    all.sort_by(|a, b| a.partial_cmp(b).unwrap());
    for pair in all.windows(2) {
        assert!(pair[0].opid() < pair[1].opid());
    }
    assert_eq!(run(3), run(3));
    assert_ne!(run(3), run(4));
}

#[test]
fn verifier_call_hands_out_the_resolved_state() {
    let lib = lib_success();
    let codex = dumb_codex(our_lib_id(lib.lib_id()));
    let contract_id = ContractId::from_byte_array(digest(b"test"));
    let mut operation = dumb_operation(contract_id);
    let mut memory = DumbMemory::default();
    let a = CellAddr::new(Opid::from_byte_array([1; 32]), 1);
    let b = CellAddr::new(Opid::from_byte_array([2; 32]), 2);
    let cell = StateCell {
        data: StateValue::Single { first: Fe256::from_u8(11) },
        auth: AuthToken::from_fe256(Fe256::from_u8(12)),
        lock: None,
    };
    memory.destructible.insert(a, cell);
    memory.immutable.insert(b, StateValue::Single { first: Fe256::from_u8(13) });
    let input = Input { addr: a, witness: StateValue::Single { first: Fe256::from_u8(14) } };
    operation.destructible_in = vec![input];
    operation.immutable_in = vec![b];
    operation.destructible_out = vec![cell, dumb_cell()];
    operation.immutable_out = vec![StateData::new(Fe256::from_u8(1), Fe256::from_u8(2))];
    let copy = operation.clone();

    let call = codex.verify(contract_id, operation, &memory, &Repo(vec![lib.clone()])).unwrap();
    assert_eq!(call.entry_point(), site_of(&lib, 0));
    assert_eq!(call.core_config(), codex.verification_config);
    assert_eq!(call.order(), codex.field_order);
    assert_eq!(call.as_operation(), &copy);
    let context = call.context();
    assert_eq!(context.witness, StateValue::Unit);
    assert_eq!(context.destructible_input, &[(input, cell)][..]);
    assert_eq!(context.immutable_input, &[StateValue::Single { first: Fe256::from_u8(13) }][..]);
    assert_eq!(context.destructible_output, &copy.destructible_out[..]);
    assert_eq!(context.immutable_output, &copy.immutable_out[..]);

    let opid = copy.opid();
    let verified = call.finish(true, Some(Fe256::from_u8(9))).unwrap();
    assert_eq!(verified.opid(), opid);
    assert_eq!(verified.into_operation(), copy);
}

#[test]
fn finish_maps_the_outcome_of_the_script() {
    let lib = lib_success();
    let codex = dumb_codex(our_lib_id(lib.lib_id()));
    let contract_id = ContractId::from_byte_array(digest(b"test"));
    let memory = DumbMemory::default();
    let call = || codex.verify(contract_id, dumb_operation(contract_id), &memory, &Repo(vec![lib.clone()])).unwrap();
    assert_eq!(call().finish(false, None).unwrap_err(), CallError::ScriptUnspecified);
    assert_eq!(call().finish(false, Some(Fe256::zero())).unwrap_err(), CallError::Script(Fe256::zero()));
    assert_eq!(call().finish(false, Some(Fe256::from_u8(3))).unwrap_err(), CallError::Script(Fe256::from_u8(3)));
    assert_eq!(call().finish(true, None).unwrap().opid(), dumb_operation(contract_id).opid());
    assert_eq!(ultrasonic::codex::lock_verdict(true, Some(Fe256::from_u8(1))), None);
    assert_eq!(ultrasonic::codex::lock_verdict(false, None), Some(CallError::Lock(None)));
    assert_eq!(
        ultrasonic::codex::lock_verdict(false, Some(Fe256::from_u8(2))),
        Some(CallError::Lock(Some(Fe256::from_u8(2))))
    );
}

#[test]
fn exec() {
    const CHECK: u16 = 77;
    const VALUE: u32 = 1234567890u32;
    let call = || ctrl(CtrlInstr::Fn { pos: CHECK });
    let code: Code = vec![
        // We check we have at least one element of state
        us(UsonicInstr::CkNxIRo),
        chk_co(),
        us(UsonicInstr::CkNxIAo),
        chk_co(),
        us(UsonicInstr::CkNxORo),
        chk_co(),
        us(UsonicInstr::CkNxOAo),
        chk_co(),
        // Ensure the check is idempotent
        us(UsonicInstr::CkNxIRo),
        chk_co(),
        us(UsonicInstr::CkNxIAo),
        chk_co(),
        us(UsonicInstr::CkNxORo),
        chk_co(),
        us(UsonicInstr::CkNxOAo),
        chk_co(),
        // We load the first element of state
        us(UsonicInstr::LdIRo),
        call(),
        us(UsonicInstr::LdIAo),
        call(),
        us(UsonicInstr::LdORo),
        call(),
        us(UsonicInstr::LdOAo),
        call(),
        // We reset the counter
        us(UsonicInstr::RstIRo),
        us(UsonicInstr::RstIAo),
        us(UsonicInstr::RstORo),
        us(UsonicInstr::RstOAo),
        // We load the first element of state once more
        us(UsonicInstr::LdIRo),
        call(),
        us(UsonicInstr::LdIAo),
        call(),
        us(UsonicInstr::LdORo),
        call(),
        us(UsonicInstr::LdOAo),
        call(),
        // Now we make sure that there is no second argument
        us(UsonicInstr::CkNxIRo),
        not_co(),
        chk_co(),
        us(UsonicInstr::CkNxIAo),
        not_co(),
        chk_co(),
        us(UsonicInstr::CkNxORo),
        not_co(),
        chk_co(),
        us(UsonicInstr::CkNxOAo),
        not_co(),
        chk_co(),
        // As well as we can't load the second argument
        us(UsonicInstr::LdIRo),
        not_co(),
        chk_co(),
        us(UsonicInstr::LdIAo),
        not_co(),
        chk_co(),
        us(UsonicInstr::LdORo),
        not_co(),
        chk_co(),
        us(UsonicInstr::LdOAo),
        not_co(),
        chk_co(),
        stop(),
        // routine CHECK:
        ctrl(CtrlInstr::Nop),
        put(RegE::E2, VALUE as u128),
        chk_co(),
        eq(RegE::EA, RegE::E2),
        chk_co(),
        test(RegE::EB),
        not_co(),
        chk_co(),
        test(RegE::EC),
        not_co(),
        chk_co(),
        test(RegE::ED),
        not_co(),
        chk_co(),
        clr(RegE::EA),
        ctrl(CtrlInstr::Ret),
    ];
    let lib = Lib::assemble(&code).unwrap();
    assert_eq!(lib.disassemble::<Instr<_>>().unwrap(), code);

    let state = StateValue::Single { first: Fe256::from_u32(VALUE) };
    let dumb_input = Input { addr: dumb_addr(), witness: StateValue::Unit };
    let context = VmContext {
        witness: StateValue::Unit,
        destructible_input: &[(dumb_input, StateCell { data: state, auth: dumb_token(), lock: None })],
        immutable_input: &[state],
        destructible_output: &[StateCell { data: state, auth: dumb_token(), lock: None }],
        immutable_output: &[StateData { value: state, raw: None }],
    };
    let mut vm_main = Vm::<Instr<zkaluvm::alu::LibId>>::with(
        zkaluvm::alu::CoreConfig { halt: true, complexity_lim: None },
        GfaConfig { field_order: FIELD_ORDER_SECP },
    );
    let resolver = |_: zkaluvm::alu::LibId| Some(&lib);
    let status = vm_main.exec(zkaluvm::alu::LibSite::new(lib.lib_id(), 0), &context, resolver);
    assert_eq!(status, Status::Ok);
}

#[test]
fn scripts_see_witness_lock_and_token_of_the_current_input() {
    // ldi witness; ldi lock; ldi auth work on the input that the iterator points at
    let code: Code = vec![
        // no witness of the operation
        put(RegE::EA, 1),
        us(UsonicInstr::LdW),
        test(RegE::EA),
        not_co(),
        chk_co(),
        // witness of input 0 is (21)
        us(UsonicInstr::LdIW),
        chk_co(),
        put(RegE::E1, 21),
        eq(RegE::EA, RegE::E1),
        chk_co(),
        test(RegE::EB),
        not_co(),
        chk_co(),
        // input 0 is locked: its lock carries nothing
        us(UsonicInstr::LdIL),
        chk_co(),
        test(RegE::EA),
        not_co(),
        chk_co(),
        // token of input 0 is 22, and it is locked
        us(UsonicInstr::LdIT),
        chk_co(),
        put(RegE::E1, 22),
        eq(RegE::EA, RegE::E1),
        chk_co(),
        put(RegE::E1, 1),
        eq(RegE::EB, RegE::E1),
        chk_co(),
        // move on to input 1: not locked, token 23, no witness
        us(UsonicInstr::LdIRo),
        chk_co(),
        us(UsonicInstr::LdIW),
        chk_co(),
        test(RegE::EA),
        not_co(),
        chk_co(),
        us(UsonicInstr::LdIL),
        not_co(),
        chk_co(),
        us(UsonicInstr::LdIT),
        chk_co(),
        put(RegE::E1, 23),
        eq(RegE::EA, RegE::E1),
        chk_co(),
        put(RegE::E1, 0),
        eq(RegE::EB, RegE::E1),
        chk_co(),
        // move past the last input: nothing is there
        us(UsonicInstr::LdIRo),
        chk_co(),
        us(UsonicInstr::LdIW),
        not_co(),
        chk_co(),
        us(UsonicInstr::LdIT),
        not_co(),
        chk_co(),
        test(RegE::EA),
        not_co(),
        chk_co(),
        test(RegE::EB),
        not_co(),
        chk_co(),
        stop(),
    ];
    let lib = Lib::assemble(&code).unwrap();
    assert_eq!(lib.disassemble::<Instr<_>>().unwrap(), code);
    let res = stand_libs(lib.clone(), vec![lib_success()], |_codex, operation, memory| {
        let a = CellAddr::new(Opid::from_byte_array([1; 32]), 1);
        let b = CellAddr::new(Opid::from_byte_array([2; 32]), 2);
        memory.destructible.insert(a, StateCell {
            data: StateValue::Unit,
            auth: AuthToken::from_fe256(Fe256::from_u8(22)),
            lock: Some(site_of(&lib_success(), 0)),
        });
        memory.destructible.insert(b, StateCell {
            data: StateValue::Unit,
            auth: AuthToken::from_fe256(Fe256::from_u8(23)),
            lock: None,
        });
        operation.destructible_in = vec![
            Input { addr: a, witness: StateValue::Single { first: Fe256::from_u8(21) } },
            Input { addr: b, witness: StateValue::Unit },
        ];
    });
    res.unwrap();
}

#[test]
fn instructions_are_written_as_in_assembly() {
    assert_eq!(us(UsonicInstr::CkNxIRo).to_string(), "cknxi   :destructible");
    assert_eq!(us(UsonicInstr::LdOAo).to_string(), "ldo     :immutable");
    assert_eq!(us(UsonicInstr::RstIAo).to_string(), "rsti    :immutable");
    assert_eq!(stop().to_string(), "stop");
}

fn neg(dst: RegE, src: RegE) -> Instr<zkaluvm::alu::LibId> { Instr::Gfa(FieldInstr::Neg { dst, src }) }

fn secp() -> Fe256 { Fe256::from_le_bytes(FIELD_ORDER_SECP.to_le_bytes()) }

#[test]
fn libraries_that_can_stop_the_machine_are_told_apart() {
    for lib in [lib_success(), lib_failure_none(), lib_failure_one(), lib_lock()] {
        assert!(lib_is_tame(&lib, &secp()));
        // no library is tame where the field is empty
        assert!(!lib_is_tame(&lib, &Fe256::zero()));
    }
    // the lock library puts 48 and 1 to 3 into registers
    assert!(lib_is_tame(&lib_lock(), &Fe256::from_u8(49)));
    assert!(!lib_is_tame(&lib_lock(), &Fe256::from_u8(48)));
    assert!(lib_is_tame(&lib_success(), &Fe256::from_u8(1)));
    // the negative of zero is the order of the field
    let negating = assemble(&vec![put(RegE::E1, 0), neg(RegE::E2, RegE::E1), stop()]);
    assert!(!lib_is_tame(&negating, &secp()));
    // a constant that lies outside of the field
    let large = Lib::assemble::<Instr<zkaluvm::alu::LibId>>(&[
        Instr::Gfa(FieldInstr::PutD { dst: RegE::E1, data: zkaluvm::fe256::from(u256::MAX) }),
        stop(),
    ])
    .unwrap();
    assert!(!lib_is_tame(&large, &secp()));
    assert!(lib_is_tame(&assemble(&vec![]), &secp()));
}

#[test]
fn every_lock_runs_in_the_field_of_the_codex() {
    // a token that lies in the field of the codex, above 2^255
    let mut bytes = [0xEEu8; 32];
    bytes[31] = 0xF0;
    let token = AuthToken::from_fe256(Fe256::from_le_bytes(bytes));
    assert!(token.to_fe256().is_below(&secp()));
    stand_libs(lib_success(), vec![], |_codex, operation, memory| {
        for i in 0..4u8 {
            let addr = CellAddr::new(Opid::from_byte_array([i; 32]), i as u16);
            memory.destructible.insert(addr, StateCell {
                data: StateValue::Unit,
                auth: token,
                lock: Some(site_of(&lib_success(), 0)),
            });
            operation.destructible_in.push(Input { addr, witness: StateValue::Single { first: token.to_fe256() } });
        }
    })
    .unwrap();
}

#[test]
fn locks_are_admitted_as_far_as_the_verifier_comes() {
    let lib = lib_success();
    let mut codex = dumb_codex(our_lib_id(lib.lib_id()));
    codex.field_order = Fe256::from_u8(100);
    let contract_id = ContractId::from_byte_array(digest(b"test"));
    let locked = |auth: u8| StateCell {
        data: StateValue::Unit,
        auth: AuthToken::from_fe256(Fe256::from_u8(auth)),
        lock: Some(site_of(&lib, 0)),
    };
    let a = CellAddr::new(Opid::from_byte_array([1; 32]), 1);
    let b = CellAddr::new(Opid::from_byte_array([2; 32]), 2);
    let missing = CellAddr::new(Opid::from_byte_array([3; 32]), 3);
    let input = |addr: CellAddr, witness: u8| Input { addr, witness: StateValue::Single { first: Fe256::from_u8(witness) } };

    let mut memory = DumbMemory::default();
    memory.destructible.insert(a, locked(99));
    memory.destructible.insert(b, locked(100));
    let mut operation = dumb_operation(contract_id);
    operation.destructible_in = vec![input(a, 99)];
    assert!(codex.locks_admitted(&operation, &memory));
    // a witness outside of the field
    operation.destructible_in = vec![input(a, 100)];
    assert!(!codex.locks_admitted(&operation, &memory));
    // a token outside of the field
    operation.destructible_in = vec![input(a, 1), input(b, 1)];
    assert!(!codex.locks_admitted(&operation, &memory));
    // behind a missing cell no lock is run, whatever its token
    operation.destructible_in = vec![input(a, 1), input(missing, 1), input(b, 200)];
    assert!(codex.locks_admitted(&operation, &memory));
    let res = verify(&codex, contract_id, operation.clone(), &memory, &Repo(vec![lib.clone()]));
    assert_eq!(res.unwrap_err(), CallError::NoReadOnceInput(missing));
    // a lock needs a machine with a complexity limit
    codex.input_config.complexity_lim = None;
    assert!(!codex.locks_admitted(&operation, &memory));
    operation.destructible_in = vec![input(missing, 1), input(a, 1)];
    assert!(codex.locks_admitted(&operation, &memory));
    // cells without lock ask for nothing
    memory.destructible.insert(a, StateCell { lock: None, ..locked(255) });
    operation.destructible_in = vec![input(a, 255)];
    assert!(codex.locks_admitted(&operation, &memory));
}

#[test]
fn a_second_verification_gives_what_the_first_gave() {
    let lock = lib_lock();
    let repo = Repo(vec![lib_success(), lib_lock()]);
    let codex = dumb_codex(our_lib_id(lib_success().lib_id()));
    let contract_id = ContractId::from_byte_array(digest(b"test"));
    let mut memory = DumbMemory::default();
    memory.destructible.insert(dumb_addr(), StateCell {
        data: StateValue::Single { first: Fe256::from_u8(5) },
        auth: AuthToken::from_fe256(Fe256::from_u8(SECRET)),
        lock: Some(site_of(&lock, 1)),
    });
    let operation = |witness: StateValue| {
        let mut operation = dumb_operation(contract_id);
        operation.destructible_in = vec![Input { addr: dumb_addr(), witness }];
        operation
    };
    let tame = Tame::new(&repo, codex.field_order);

    // a lock that fails gives the same error and the same code each time
    let wrong = operation(StateValue::Single { first: Fe256::from_u8(7) });
    assert!(codex.locks_admitted(&wrong, &memory));
    let first = codex.verify(contract_id, wrong.clone(), &memory, &tame).unwrap_err();
    let second = codex.verify(contract_id, wrong, &memory, &tame).unwrap_err();
    assert_eq!(first, CallError::Lock(Some(Fe256::from_u8(2))));
    assert_eq!(first, second);

    // a lock that opens gives the same call of the verifier each time
    let right = operation(StateValue::Single { first: Fe256::from_u8(SECRET) });
    let first = codex.verify(contract_id, right.clone(), &memory, &tame).unwrap();
    let second = codex.verify(contract_id, right.clone(), &memory, &tame).unwrap();
    assert_eq!(first.entry_point(), second.entry_point());
    assert_eq!(first.as_operation(), second.as_operation());
    assert_eq!(first.as_operation(), &right);
    assert_eq!(first.core_config(), second.core_config());
    assert_eq!(first.order(), second.order());
    assert_eq!(first.context(), second.context());

    // another repository that holds the same libraries gives the same
    let other = Repo(vec![lib_lock(), lib_success()]);
    let third = codex.verify(contract_id, right, &memory, &Tame::new(&other, codex.field_order)).unwrap();
    assert_eq!(first.context(), third.context());
    assert_eq!(first.entry_point(), third.entry_point());
}
