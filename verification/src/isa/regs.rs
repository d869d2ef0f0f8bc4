//! Registers of the USONIC core: the iterators over the state of an operation, and the field
//! registers that scripts compute on.

use vstd::prelude::*;
use zkaluvm::alu::CoreExt;
use zkaluvm::GfaConfig;
use zkaluvm::GfaCore;
use amplify::num::u256;
use crate::fe::Fe256;

verus! {

/// Whether state belongs to what an operation reads or to what it defines.
#[derive(Copy, Clone, Ord, PartialOrd, Eq, PartialEq, Hash, Debug)]
pub enum Io {
    Input,
    Output,
}

/// The kind of memory that state lives in.
#[derive(Copy, Clone, Ord, PartialOrd, Eq, PartialEq, Hash, Debug)]
pub enum Mem {
    ReadOnce,
    AppendOnly,
}

/// Category of operation input or output data.
#[derive(Copy, Clone, Ord, PartialOrd, Eq, PartialEq, Hash, Debug)]
pub struct IoCat {
    pub io: Io,
    pub mem: Mem,
}

impl IoCat {
    /// Operation input pointing to a destructible (read-once) memory cell.
    pub open spec fn in_ro_spec() -> IoCat {
        IoCat { io: Io::Input, mem: Mem::ReadOnce }
    }

    /// Operation input pointing to an immutable (append-only) memory cell.
    pub open spec fn in_ao_spec() -> IoCat {
        IoCat { io: Io::Input, mem: Mem::AppendOnly }
    }

    /// Operation output defining a destructible (read-once) memory cell.
    pub open spec fn out_ro_spec() -> IoCat {
        IoCat { io: Io::Output, mem: Mem::ReadOnce }
    }

    /// Operation output defining an immutable (append-only) memory cell.
    pub open spec fn out_ao_spec() -> IoCat {
        IoCat { io: Io::Output, mem: Mem::AppendOnly }
    }

    /// Operation input pointing to a destructible (read-once) memory cell.
    pub fn in_ro() -> (r: IoCat)
        ensures
            r == Self::in_ro_spec(),
    {
        IoCat { io: Io::Input, mem: Mem::ReadOnce }
    }

    /// Operation input pointing to an immutable (append-only) memory cell.
    pub fn in_ao() -> (r: IoCat)
        ensures
            r == Self::in_ao_spec(),
    {
        IoCat { io: Io::Input, mem: Mem::AppendOnly }
    }

    /// Operation output defining a destructible (read-once) memory cell.
    pub fn out_ro() -> (r: IoCat)
        ensures
            r == Self::out_ro_spec(),
    {
        IoCat { io: Io::Output, mem: Mem::ReadOnce }
    }

    /// Operation output defining an immutable (append-only) memory cell.
    pub fn out_ao() -> (r: IoCat)
        ensures
            r == Self::out_ao_spec(),
    {
        IoCat { io: Io::Output, mem: Mem::AppendOnly }
    }

    /// The number of the iterator register that counts the category.
    pub open spec fn index_spec(&self) -> int {
        match (self.io, self.mem) {
            (Io::Input, Mem::ReadOnce) => 0,
            (Io::Input, Mem::AppendOnly) => 1,
            (Io::Output, Mem::ReadOnce) => 2,
            (Io::Output, Mem::AppendOnly) => 3,
        }
    }

    /// The number of the iterator register that counts the category.
    pub fn index(&self) -> (r: usize)
        ensures
            r == self.index_spec(),
            r < 4,
    {
        match (self.io, self.mem) {
            (Io::Input, Mem::ReadOnce) => 0,
            (Io::Input, Mem::AppendOnly) => 1,
            (Io::Output, Mem::ReadOnce) => 2,
            (Io::Output, Mem::AppendOnly) => 3,
        }
    }
}

/// A field register of the VM.
#[derive(Copy, Clone, Ord, PartialOrd, Eq, PartialEq, Hash, Debug)]
pub enum RegE {
    E1,
    E2,
    E3,
    E4,
    E5,
    E6,
    E7,
    E8,
    EA,
    EB,
    EC,
    ED,
    EE,
    EF,
    EG,
    EH,
}

impl RegE {
    /// The number of the register, as the VM numbers its 16 field registers.
    pub open spec fn index_spec(&self) -> int {
        match *self {
            RegE::E1 => 0,
            RegE::E2 => 1,
            RegE::E3 => 2,
            RegE::E4 => 3,
            RegE::E5 => 4,
            RegE::E6 => 5,
            RegE::E7 => 6,
            RegE::E8 => 7,
            RegE::EA => 8,
            RegE::EB => 9,
            RegE::EC => 10,
            RegE::ED => 11,
            RegE::EE => 12,
            RegE::EF => 13,
            RegE::EG => 14,
            RegE::EH => 15,
        }
    }

    /// The register of number `index`, if there is one: the numbers go from 0 to 15.
    pub fn from_index(index: u8) -> (r: Option<RegE>)
        ensures
            r is Some <==> index < 16,
            r matches Some(reg) ==> reg.index_spec() == index,
    {
        match index {
            0 => Some(RegE::E1),
            1 => Some(RegE::E2),
            2 => Some(RegE::E3),
            3 => Some(RegE::E4),
            4 => Some(RegE::E5),
            5 => Some(RegE::E6),
            6 => Some(RegE::E7),
            7 => Some(RegE::E8),
            8 => Some(RegE::EA),
            9 => Some(RegE::EB),
            10 => Some(RegE::EC),
            11 => Some(RegE::ED),
            12 => Some(RegE::EE),
            13 => Some(RegE::EF),
            14 => Some(RegE::EG),
            15 => Some(RegE::EH),
            _ => None,
        }
    }

    /// The number of the register, as the VM numbers its 16 field registers.
    pub fn index(&self) -> (r: usize)
        ensures
            r == self.index_spec(),
            r < 16,
    {
        match *self {
            RegE::E1 => 0,
            RegE::E2 => 1,
            RegE::E3 => 2,
            RegE::E4 => 3,
            RegE::E5 => 4,
            RegE::E6 => 5,
            RegE::E7 => 6,
            RegE::E8 => 7,
            RegE::EA => 8,
            RegE::EB => 9,
            RegE::EC => 10,
            RegE::ED => 11,
            RegE::EE => 12,
            RegE::EF => 13,
            RegE::EG => 14,
            RegE::EH => 15,
        }
    }
}

#[verifier::external_type_specification]
#[verifier::external_body]
pub struct ExGfaCore(zkaluvm::GfaCore);

/// What the field register of number `index` holds in a `GfaCore`.
pub uninterp spec fn gfa_reg(core: GfaCore, index: int) -> Option<Fe256>;

/// What the 16 field registers of a `GfaCore` hold, by the number of the register.
pub open spec fn gfa_regs(core: GfaCore) -> Seq<Option<Fe256>> {
    Seq::new(16, |i: int| gfa_reg(core, i))
}

/// The order of the field that a `GfaCore` was made for.
pub uninterp spec fn gfa_order(core: GfaCore) -> nat;

/// 16 empty registers.
pub open spec fn no_regs() -> Seq<Option<Fe256>> {
    Seq::new(16, |i: int| None::<Fe256>)
}

/// Calls `GfaCore::with`, with a `GfaConfig` of the given field order: a core for that order
/// whose registers are all empty.
#[verifier::external_body]
pub(crate) fn gfa_with(order: &Fe256) -> (core: GfaCore)
    ensures
        forall|i: int| gfa_reg(core, i) is None,
        gfa_order(core) == order.as_nat(),
{
    GfaCore::with(GfaConfig { field_order: u256::from_le_bytes(order.bytes) })
}

/// Calls `GfaCore::fq`: the order of the field.
#[verifier::external_body]
pub(crate) fn gfa_fq(core: &GfaCore) -> (order: Fe256)
    ensures
        order.as_nat() == gfa_order(*core),
{
    Fe256 { bytes: core.fq().to_le_bytes() }
}

/// Calls `GfaCore::get`: what the register holds.
#[verifier::external_body]
pub(crate) fn gfa_get(core: &GfaCore, index: usize) -> (val: Option<Fe256>)
    requires
        index < 16,
    ensures
        val == gfa_reg(*core, index as int),
{
    core.get(zkaluvm::RegE::ALL[index]).map(|v| Fe256 { bytes: v.to_u256().to_le_bytes() })
}

/// Calls `GfaCore::put`: the register holds `val` afterwards, and nothing else changes. The call
/// panics on a value that is not below the order of the field, so such a value is not admitted.
#[verifier::external_body]
pub(crate) fn gfa_put(core: &mut GfaCore, index: usize, val: Option<Fe256>)
    requires
        index < 16,
        val is Some ==> val->0.as_nat() < gfa_order(*old(core)),
    ensures
        forall|i: int|
            gfa_reg(*final(core), i) == if i == index {
                val
            } else {
                gfa_reg(*old(core), i)
            },
        gfa_order(*final(core)) == gfa_order(*old(core)),
{
    core.put(zkaluvm::RegE::ALL[index], val.map(|v| zkaluvm::fe256::from(v.bytes)));
}

/// Calls `GfaCore::reset`: all registers are empty afterwards; the order of the field stays.
#[verifier::external_body]
pub(crate) fn gfa_reset(core: &mut GfaCore)
    ensures
        forall|i: int| gfa_reg(*final(core), i) is None,
        gfa_order(*final(core)) == gfa_order(*old(core)),
{
    core.reset();
}

/// What a `UsonicCore` holds.
pub ghost struct UsonicCoreView {
    /// The four iterator registers, by the number of their category.
    pub ui: Seq<u16>,
    /// The 16 field registers, by number.
    pub regs: Seq<Option<Fe256>>,
    /// The order of the field.
    pub order: nat,
}

/// ALU core extension for the USONIC instruction set: four iterator registers on top of the
/// field registers.
#[derive(Copy, Clone)]
pub struct UsonicCore {
    /// Positions of the iterators over state values, one per category.
    pub ui: [u16; 4],
    /// The field registers.
    pub gfa: GfaCore,
}

impl View for UsonicCore {
    type V = UsonicCoreView;

    open spec fn view(&self) -> UsonicCoreView {
        UsonicCoreView { ui: self.ui@, regs: gfa_regs(self.gfa), order: gfa_order(self.gfa) }
    }
}

impl UsonicCoreView {
    /// The core at its start in the field of order `order`: the four iterators at zero, the
    /// field registers empty.
    pub open spec fn start(order: nat) -> UsonicCoreView {
        UsonicCoreView { ui: seq![0u16, 0u16, 0u16, 0u16], regs: no_regs(), order }
    }
}

impl UsonicCore {
    /// A core for the field of the given order, all of its registers at their start.
    pub fn with(order: &Fe256) -> (r: Self)
        ensures
            r@ == UsonicCoreView::start(order.as_nat()),
    {
        let r = UsonicCore { ui: [0u16; 4], gfa: gfa_with(order) };
        assert(r@.ui =~= seq![0u16, 0u16, 0u16, 0u16]);
        assert(r@.regs =~= no_regs());
        r
    }

    /// What the field register holds.
    pub fn get(&self, reg: RegE) -> (r: Option<Fe256>)
        ensures
            r == self@.regs[reg.index_spec()],
    {
        gfa_get(&self.gfa, reg.index())
    }

    /// Empties the field register.
    pub fn clr(&mut self, reg: RegE)
        ensures
            final(self)@ == (UsonicCoreView {
                regs: old(self)@.regs.update(reg.index_spec(), None),
                ..old(self)@
            }),
    {
        gfa_put(&mut self.gfa, reg.index(), None);
        assert(self@.regs =~= old(self)@.regs.update(reg.index_spec(), None));
    }

    /// Puts `val` into the field register, or empties it.
    pub fn put(&mut self, reg: RegE, val: Option<Fe256>)
        requires
            val is Some ==> val->0.as_nat() < old(self)@.order,
        ensures
            final(self)@ == (UsonicCoreView {
                regs: old(self)@.regs.update(reg.index_spec(), val),
                ..old(self)@
            }),
    {
        gfa_put(&mut self.gfa, reg.index(), val);
        assert(self@.regs =~= old(self)@.regs.update(reg.index_spec(), val));
    }

    /// Brings all registers back to their start: the iterators to zero, the field registers to
    /// empty. The core is then as it was made, in the field that it was made for.
    pub fn reset_all(&mut self)
        ensures
            final(self)@ == UsonicCoreView::start(old(self)@.order),
    {
        gfa_reset(&mut self.gfa);
        self.ui = [0u16; 4];
        assert(self.ui@ =~= seq![0u16, 0u16, 0u16, 0u16]);
        assert(self@.regs =~= no_regs());
    }

    /// The order of the field.
    pub fn order(&self) -> (r: Fe256)
        ensures
            r.as_nat() == self@.order,
    {
        gfa_fq(&self.gfa)
    }
}

} // verus!
