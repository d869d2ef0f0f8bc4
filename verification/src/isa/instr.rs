//! The instructions of the USONIC instruction set and their bytecode.

use vstd::prelude::*;
use zkaluvm::alu::isa::Bytecode;
use zkaluvm::alu::isa::CtrlInstr;
use zkaluvm::gfa::FieldInstr;
use crate::isa::regs::RegE;
use crate::site::LibId;

verus! {

/// AluVM ISA architecture id for the USONIC ISA extension.
pub const ISA_ULTRASONIC: &'static str = "USONIC";

/// The first opcode of the USONIC instruction set.
pub const USONIC_START: u8 = 128;

/// The last opcode of the USONIC instruction set.
pub const USONIC_END: u8 = 143;

/// The instruction set uses iterator semantics and not random access, so that not a single state
/// element can be missed as long as the iterator runs to the end.
#[derive(Copy, Clone, PartialEq, Eq, Hash, Debug)]
pub enum UsonicInstr {
    /// Checks whether there is a next destructible memory cell listed in the operation input and
    /// sets `CO` accordingly.
    CkNxIRo,
    /// Checks whether there is a next immutable memory cell listed in the operation input and
    /// sets `CO` accordingly.
    CkNxIAo,
    /// Checks whether there is a next destructible memory cell defined by the operation and sets
    /// `CO` accordingly.
    CkNxORo,
    /// Checks whether there is a next immutable memory cell defined by the operation and sets
    /// `CO` accordingly.
    CkNxOAo,
    /// Loads the operation-level witness to the `EA`-`ED` registers. Does not touch `CO`.
    LdW,
    /// Loads the witness of the current destructible input to `EA`-`ED`; sets `CO` to whether
    /// there is a current input.
    LdIW,
    /// Loads what the lock of the current destructible input carries beside its script to
    /// `EA`-`ED`; sets `CO` to whether there is such a lock.
    LdIL,
    /// Loads the token of authority of the current destructible input to `EA`, and whether a
    /// script locks it to `EB`; sets `CO` to whether there is a current input.
    LdIT,
    /// Loads the next state value of the destructible input to `EA`-`ED`. If there is none, sets
    /// `CO` to a failed state; else sets `CO` to ok and moves the iterator on.
    LdIRo,
    /// Loads the next state value of the immutable input; see `LdIRo`.
    LdIAo,
    /// Loads the next state value of the destructible output; see `LdIRo`.
    LdORo,
    /// Loads the next state value of the immutable output; see `LdIRo`.
    LdOAo,
    /// Resets the iterator over the destructible input. Does not touch `CO` or `CK`.
    RstIRo,
    /// Resets the iterator over the immutable input. Does not touch `CO` or `CK`.
    RstIAo,
    /// Resets the iterator over the destructible output. Does not touch `CO` or `CK`.
    RstORo,
    /// Resets the iterator over the immutable output. Does not touch `CO` or `CK`.
    RstOAo,
}

impl UsonicInstr {
    /// The place of the instruction in the USONIC opcode range.
    pub open spec fn ordinal(&self) -> u8 {
        match *self {
            UsonicInstr::CkNxIRo => 0,
            UsonicInstr::CkNxIAo => 1,
            UsonicInstr::CkNxORo => 2,
            UsonicInstr::CkNxOAo => 3,
            UsonicInstr::LdW => 4,
            UsonicInstr::LdIW => 5,
            UsonicInstr::LdIL => 6,
            UsonicInstr::LdIT => 7,
            UsonicInstr::LdIRo => 8,
            UsonicInstr::LdIAo => 9,
            UsonicInstr::LdORo => 10,
            UsonicInstr::LdOAo => 11,
            UsonicInstr::RstIRo => 12,
            UsonicInstr::RstIAo => 13,
            UsonicInstr::RstORo => 14,
            UsonicInstr::RstOAo => 15,
        }
    }

    /// The byte that stands for the instruction in code.
    pub open spec fn opcode_spec(&self) -> u8 {
        (128 + self.ordinal()) as u8
    }

    /// The instruction that the byte `opcode` stands for.
    pub open spec fn of_opcode(opcode: u8) -> UsonicInstr
        recommends
            128 <= opcode <= 143,
    {
        if opcode == 128 {
            UsonicInstr::CkNxIRo
        } else if opcode == 129 {
            UsonicInstr::CkNxIAo
        } else if opcode == 130 {
            UsonicInstr::CkNxORo
        } else if opcode == 131 {
            UsonicInstr::CkNxOAo
        } else if opcode == 132 {
            UsonicInstr::LdW
        } else if opcode == 133 {
            UsonicInstr::LdIW
        } else if opcode == 134 {
            UsonicInstr::LdIL
        } else if opcode == 135 {
            UsonicInstr::LdIT
        } else if opcode == 136 {
            UsonicInstr::LdIRo
        } else if opcode == 137 {
            UsonicInstr::LdIAo
        } else if opcode == 138 {
            UsonicInstr::LdORo
        } else if opcode == 139 {
            UsonicInstr::LdOAo
        } else if opcode == 140 {
            UsonicInstr::RstIRo
        } else if opcode == 141 {
            UsonicInstr::RstIAo
        } else if opcode == 142 {
            UsonicInstr::RstORo
        } else {
            UsonicInstr::RstOAo
        }
    }

    /// The first and the last opcode of the instruction set.
    pub fn op_range() -> (r: (u8, u8))
        ensures
            r == (128u8, 143u8),
    {
        (USONIC_START, USONIC_END)
    }

    /// Returns the byte that stands for the instruction in code.
    pub fn opcode_byte(&self) -> (r: u8)
        ensures
            r == self.opcode_spec(),
            128 <= r <= 143,
    {
        USONIC_START + match *self {
            UsonicInstr::CkNxIRo => 0u8,
            UsonicInstr::CkNxIAo => 1u8,
            UsonicInstr::CkNxORo => 2u8,
            UsonicInstr::CkNxOAo => 3u8,
            UsonicInstr::LdW => 4u8,
            UsonicInstr::LdIW => 5u8,
            UsonicInstr::LdIL => 6u8,
            UsonicInstr::LdIT => 7u8,
            UsonicInstr::LdIRo => 8u8,
            UsonicInstr::LdIAo => 9u8,
            UsonicInstr::LdORo => 10u8,
            UsonicInstr::LdOAo => 11u8,
            UsonicInstr::RstIRo => 12u8,
            UsonicInstr::RstIAo => 13u8,
            UsonicInstr::RstORo => 14u8,
            UsonicInstr::RstOAo => 15u8,
        }
    }

    /// The number of bytes that the instruction takes in code: one, the opcode.
    pub fn code_byte_len(&self) -> (r: u16)
        ensures
            r == 1,
    {
        1
    }

    /// The library that the instruction refers to: none.
    pub fn external_ref(&self) -> (r: Option<LibId>)
        ensures
            r is None,
    {
        None
    }

    /// Writes the operands of the instruction to `code`: it has none.
    pub fn encode_operands(&self, code: &mut Vec<u8>)
        ensures
            final(code)@ == old(code)@,
    {
    }

    /// Writes the instruction to `code`: its opcode.
    pub fn encode_instr(&self, code: &mut Vec<u8>)
        ensures
            final(code)@ == old(code)@.push(self.opcode_spec()),
    {
        code.push(self.opcode_byte());
        self.encode_operands(code);
    }

    /// The instruction that `opcode` stands for. The opcode lies in the range of the
    /// instruction set; there are no operands to read.
    pub fn decode_operands(opcode: u8) -> (r: UsonicInstr)
        requires
            128 <= opcode <= 143,
        ensures
            r == Self::of_opcode(opcode),
            r.opcode_spec() == opcode,
    {
        match opcode - USONIC_START {
            0 => UsonicInstr::CkNxIRo,
            1 => UsonicInstr::CkNxIAo,
            2 => UsonicInstr::CkNxORo,
            3 => UsonicInstr::CkNxOAo,
            4 => UsonicInstr::LdW,
            5 => UsonicInstr::LdIW,
            6 => UsonicInstr::LdIL,
            7 => UsonicInstr::LdIT,
            8 => UsonicInstr::LdIRo,
            9 => UsonicInstr::LdIAo,
            10 => UsonicInstr::LdORo,
            11 => UsonicInstr::LdOAo,
            12 => UsonicInstr::RstIRo,
            13 => UsonicInstr::RstIAo,
            14 => UsonicInstr::RstORo,
            _ => UsonicInstr::RstOAo,
        }
    }

    /// The instruction at `pos` in `code`, if a USONIC opcode stands there.
    pub fn decode_instr(code: &[u8], pos: usize) -> (r: Option<UsonicInstr>)
        ensures
            r is Some <==> pos < code@.len() && 128 <= code@[pos as int] <= 143,
            r is Some ==> r->0 == Self::of_opcode(code@[pos as int]),
    {
        if pos < code.len() && code[pos] >= USONIC_START && code[pos] <= USONIC_END {
            Some(Self::decode_operands(code[pos]))
        } else {
            None
        }
    }

    /// Whether a jump can aim at the instruction: never.
    pub fn is_goto_target(&self) -> (r: bool)
        ensures
            !r,
    {
        false
    }

    /// The registers that the instruction reads, in ascending order: none.
    pub fn src_regs(&self) -> (r: Vec<RegE>)
        ensures
            r@ == Seq::<RegE>::empty(),
    {
        Vec::new()
    }

    /// The registers that the instruction may change, in ascending order.
    pub open spec fn dst_regs_spec(&self) -> Seq<RegE> {
        match *self {
            UsonicInstr::CkNxIRo | UsonicInstr::CkNxIAo | UsonicInstr::CkNxORo | UsonicInstr::CkNxOAo => seq![],
            UsonicInstr::LdW
            | UsonicInstr::LdIW
            | UsonicInstr::LdIL
            | UsonicInstr::LdIRo
            | UsonicInstr::LdIAo
            | UsonicInstr::LdORo
            | UsonicInstr::LdOAo => seq![RegE::EA, RegE::EB, RegE::EC, RegE::ED],
            UsonicInstr::LdIT => seq![RegE::EA, RegE::EB],
            UsonicInstr::RstIRo | UsonicInstr::RstIAo | UsonicInstr::RstORo | UsonicInstr::RstOAo => seq![],
        }
    }

    /// The registers that the instruction may change, in ascending order.
    pub fn dst_regs(&self) -> (r: Vec<RegE>)
        ensures
            r@ == self.dst_regs_spec(),
    {
        let r = match *self {
            UsonicInstr::CkNxIRo | UsonicInstr::CkNxIAo | UsonicInstr::CkNxORo | UsonicInstr::CkNxOAo => Vec::new(),
            UsonicInstr::LdW
            | UsonicInstr::LdIW
            | UsonicInstr::LdIL
            | UsonicInstr::LdIRo
            | UsonicInstr::LdIAo
            | UsonicInstr::LdORo
            | UsonicInstr::LdOAo => vec![RegE::EA, RegE::EB, RegE::EC, RegE::ED],
            UsonicInstr::LdIT => vec![RegE::EA, RegE::EB],
            UsonicInstr::RstIRo | UsonicInstr::RstIAo | UsonicInstr::RstORo | UsonicInstr::RstOAo => Vec::new(),
        };
        assert(r@ =~= self.dst_regs_spec());
        r
    }

    /// The number of bytes of data that come as operands of the instruction: none.
    pub fn op_data_bytes(&self) -> (r: u16)
        ensures
            r == 0,
    {
        match *self {
            UsonicInstr::CkNxIRo | UsonicInstr::CkNxIAo | UsonicInstr::CkNxORo | UsonicInstr::CkNxOAo => 0,
            UsonicInstr::LdW
            | UsonicInstr::LdIW
            | UsonicInstr::LdIL
            | UsonicInstr::LdIT
            | UsonicInstr::LdIRo
            | UsonicInstr::LdIAo
            | UsonicInstr::LdORo
            | UsonicInstr::LdOAo => 0,
            UsonicInstr::RstIRo | UsonicInstr::RstIAo | UsonicInstr::RstORo | UsonicInstr::RstOAo => 0,
        }
    }

    /// The number of bytes that the instruction reads from outside the registers and operands:
    /// none is counted.
    pub fn ext_data_bytes(&self) -> (r: u16)
        ensures
            r == 0,
    {
        match *self {
            UsonicInstr::CkNxIRo | UsonicInstr::CkNxIAo | UsonicInstr::CkNxORo | UsonicInstr::CkNxOAo => 0,
            UsonicInstr::LdW
            | UsonicInstr::LdIW
            | UsonicInstr::LdIL
            | UsonicInstr::LdIT
            | UsonicInstr::LdIRo
            | UsonicInstr::LdIAo
            | UsonicInstr::LdORo
            | UsonicInstr::LdOAo => 0,
            UsonicInstr::RstIRo | UsonicInstr::RstIAo | UsonicInstr::RstORo | UsonicInstr::RstOAo => 0,
        }
    }

    /// What a run is charged for the instruction: eight thousand for each byte of its operands
    /// and twice as much for each byte that it reads from outside of them. It has neither, and
    /// what it loads from the state of the operation is not charged: the instruction is free.
    pub fn complexity(&self) -> (r: u64)
        ensures
            r == 0,
    {
        let operands: u64 = self.op_data_bytes() as u64;
        let outside: u64 = self.ext_data_bytes() as u64;
        (operands + outside * 2) * 8000
    }

    /// How the instruction is written in assembly.
    pub open spec fn mnemonic_spec(&self) -> Seq<char> {
        match *self {
            UsonicInstr::CkNxIRo => "cknxi   :destructible"@,
            UsonicInstr::CkNxIAo => "cknxi   :immutable"@,
            UsonicInstr::CkNxORo => "cknxo   :destructible"@,
            UsonicInstr::CkNxOAo => "cknxo   :immutable"@,
            UsonicInstr::LdW => "ldw"@,
            UsonicInstr::LdIW => "ldi     :witness"@,
            UsonicInstr::LdIL => "ldi     :lock"@,
            UsonicInstr::LdIT => "ldi     :auth"@,
            UsonicInstr::LdIRo => "ldi     :destructible"@,
            UsonicInstr::LdIAo => "ldi     :immutable"@,
            UsonicInstr::LdORo => "ldo     :destructible"@,
            UsonicInstr::LdOAo => "ldo     :immutable"@,
            UsonicInstr::RstIRo => "rsti    :destructible"@,
            UsonicInstr::RstIAo => "rsti    :immutable"@,
            UsonicInstr::RstORo => "rsto    :destructible"@,
            UsonicInstr::RstOAo => "rsto    :immutable"@,
        }
    }

    /// How the instruction is written in assembly.
    pub fn mnemonic(&self) -> (r: &'static str)
        ensures
            r@ == self.mnemonic_spec(),
    {
        match *self {
            UsonicInstr::CkNxIRo => "cknxi   :destructible",
            UsonicInstr::CkNxIAo => "cknxi   :immutable",
            UsonicInstr::CkNxORo => "cknxo   :destructible",
            UsonicInstr::CkNxOAo => "cknxo   :immutable",
            UsonicInstr::LdW => "ldw",
            UsonicInstr::LdIW => "ldi     :witness",
            UsonicInstr::LdIL => "ldi     :lock",
            UsonicInstr::LdIT => "ldi     :auth",
            UsonicInstr::LdIRo => "ldi     :destructible",
            UsonicInstr::LdIAo => "ldi     :immutable",
            UsonicInstr::LdORo => "ldo     :destructible",
            UsonicInstr::LdOAo => "ldo     :immutable",
            UsonicInstr::RstIRo => "rsti    :destructible",
            UsonicInstr::RstIAo => "rsti    :immutable",
            UsonicInstr::RstORo => "rsto    :destructible",
            UsonicInstr::RstOAo => "rsto    :immutable",
        }
    }
}

/// Reading the opcode of an instruction gives the instruction back.
pub proof fn lemma_opcode_round_trip(instr: UsonicInstr)
    ensures
        128 <= instr.opcode_spec() <= 143,
        UsonicInstr::of_opcode(instr.opcode_spec()) == instr,
{
}

/// Writing the instruction that an opcode of the range stands for gives the opcode back.
pub proof fn lemma_of_opcode_round_trip(opcode: u8)
    requires
        128 <= opcode <= 143,
    ensures
        UsonicInstr::of_opcode(opcode).opcode_spec() == opcode,
{
}

/// The family of instructions that an opcode belongs to in the complete instruction set of the
/// virtual machine.
#[derive(Copy, Clone, PartialEq, Eq, Hash, Debug)]
pub enum InstrFamily {
    /// Control flow instructions of the base ISA.
    Ctrl,
    /// Arithmetic over a finite field of up to 256 bits.
    Gfa,
    /// The USONIC instruction set.
    Usonic,
    /// Opcodes kept for later use.
    Reserved,
}

/// Whether `opcode` lies in the range from `range.0` to `range.1`, both included.
pub open spec fn in_range(opcode: u8, range: (u8, u8)) -> bool {
    range.0 <= opcode <= range.1
}

impl InstrFamily {
    /// The family of `opcode`, where the control flow instructions take the opcodes of `ctrl`
    /// and the field instructions those of `gfa`: the first of control flow, field arithmetic
    /// and USONIC whose range holds the opcode; reserved where none does.
    pub open spec fn of(opcode: u8, ctrl: (u8, u8), gfa: (u8, u8)) -> InstrFamily {
        if in_range(opcode, ctrl) {
            InstrFamily::Ctrl
        } else if in_range(opcode, gfa) {
            InstrFamily::Gfa
        } else if in_range(opcode, (128u8, 143u8)) {
            InstrFamily::Usonic
        } else {
            InstrFamily::Reserved
        }
    }

    /// The family of `opcode`, given the opcode ranges of the control flow and of the field
    /// instructions.
    pub fn classify(opcode: u8, ctrl: (u8, u8), gfa: (u8, u8)) -> (r: InstrFamily)
        ensures
            r == Self::of(opcode, ctrl, gfa),
    {
        let (first, last) = UsonicInstr::op_range();
        if ctrl.0 <= opcode && opcode <= ctrl.1 {
            InstrFamily::Ctrl
        } else if gfa.0 <= opcode && opcode <= gfa.1 {
            InstrFamily::Gfa
        } else if first <= opcode && opcode <= last {
            InstrFamily::Usonic
        } else {
            InstrFamily::Reserved
        }
    }

    /// The family of `opcode` under the opcode ranges that the virtual machine gives to its
    /// control flow and field instructions.
    pub fn of_opcode(opcode: u8) -> (r: InstrFamily)
        ensures
            r == Self::of(opcode, (0u8, 16u8), (64u8, 69u8)),
    {
        let ctrl = ctrl_op_range();
        let gfa = gfa_op_range();
        Self::classify(opcode, ctrl, gfa)
    }
}

/// The families of the instruction set lie apart: control flow takes the opcodes from 0 to 16,
/// field arithmetic those from 64 to 69, USONIC those from 128 to 143, and every other opcode
/// is reserved.
pub proof fn lemma_families_lie_apart(opcode: u8)
    ensures
        InstrFamily::of(opcode, (0u8, 16u8), (64u8, 69u8)) == (if opcode <= 16 {
            InstrFamily::Ctrl
        } else if 64 <= opcode <= 69 {
            InstrFamily::Gfa
        } else if 128 <= opcode <= 143 {
            InstrFamily::Usonic
        } else {
            InstrFamily::Reserved
        }),
{
}

/// Calls `op_range` of `CtrlInstr`: the first and the last opcode of the control flow
/// instructions, which are 0 and 16.
#[verifier::external_body]
fn ctrl_op_range() -> (r: (u8, u8))
    ensures
        r == (0u8, 16u8),
{
    let range = <CtrlInstr<zkaluvm::alu::LibId> as Bytecode<zkaluvm::alu::LibId>>::op_range();
    (*range.start(), *range.end())
}

/// Calls `op_range` of `FieldInstr`: the first and the last opcode of the field instructions,
/// which are 64 and 69.
#[verifier::external_body]
fn gfa_op_range() -> (r: (u8, u8))
    ensures
        r == (64u8, 69u8),
{
    let range = <FieldInstr as Bytecode<zkaluvm::alu::LibId>>::op_range();
    (*range.start(), *range.end())
}

} // verus!
