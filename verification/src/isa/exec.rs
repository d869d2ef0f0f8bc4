//! What the USONIC instructions do to the registers of the core.

use vstd::prelude::*;
use crate::fe::Fe256;
use crate::isa::context::{value_fits, value_is_within, VmContext};
use crate::isa::instr::UsonicInstr;
use crate::isa::microcode::{flag_value, loaded};
use crate::isa::regs::{IoCat, UsonicCore, UsonicCoreView};
use crate::state::StateValue;

verus! {

impl UsonicCoreView {
    /// There are four iterators and 16 field registers.
    pub open spec fn wf(&self) -> bool {
        self.ui.len() == 4 && self.regs.len() == 16
    }
}

/// What an optional state value leaves in `EA`-`ED`: its elements, or nothing where there is no
/// value.
pub open spec fn value_or_unit(data: Option<StateValue>) -> StateValue {
    match data {
        Some(value) => value,
        None => StateValue::Unit,
    }
}

impl UsonicInstr {
    /// The category of state that the instruction checks, loads from or resets; none for the
    /// instructions that work on the witness, the lock and the token.
    pub open spec fn category(&self) -> Option<IoCat> {
        match *self {
            UsonicInstr::CkNxIRo | UsonicInstr::LdIRo | UsonicInstr::RstIRo => Some(IoCat::in_ro_spec()),
            UsonicInstr::CkNxIAo | UsonicInstr::LdIAo | UsonicInstr::RstIAo => Some(IoCat::in_ao_spec()),
            UsonicInstr::CkNxORo | UsonicInstr::LdORo | UsonicInstr::RstORo => Some(IoCat::out_ro_spec()),
            UsonicInstr::CkNxOAo | UsonicInstr::LdOAo | UsonicInstr::RstOAo => Some(IoCat::out_ao_spec()),
            _ => None,
        }
    }

    /// Whether the instruction checks for a next state value.
    pub open spec fn is_check(&self) -> bool {
        matches!(
            *self,
            UsonicInstr::CkNxIRo | UsonicInstr::CkNxIAo | UsonicInstr::CkNxORo | UsonicInstr::CkNxOAo
        )
    }

    /// Whether the instruction loads the next state value of a category.
    pub open spec fn is_load(&self) -> bool {
        matches!(*self, UsonicInstr::LdIRo | UsonicInstr::LdIAo | UsonicInstr::LdORo | UsonicInstr::LdOAo)
    }

    /// Whether the instruction resets an iterator.
    pub open spec fn is_reset(&self) -> bool {
        matches!(
            *self,
            UsonicInstr::RstIRo | UsonicInstr::RstIAo | UsonicInstr::RstORo | UsonicInstr::RstOAo
        )
    }

    /// Whether the instruction, run on the core `before` under `context`, leaves the core `after`
    /// and does to the `CO` register what `co` says: `Some(ok)` sets it to ok or to failed, `None`
    /// leaves it as it is.
    pub open spec fn steps(
        &self,
        before: UsonicCoreView,
        context: &VmContext,
        after: UsonicCoreView,
        co: Option<bool>,
    ) -> bool {
        let inro = before.ui_of(IoCat::in_ro_spec()) as int;
        match *self {
            UsonicInstr::CkNxIRo | UsonicInstr::CkNxIAo | UsonicInstr::CkNxORo | UsonicInstr::CkNxOAo => {
                let cat = self.category()->0;
                after == before && co == Some(before.ui_of(cat) < context.count(cat))
            },
            UsonicInstr::LdW => after == before.with_value(context.witness) && co is None,
            UsonicInstr::LdIW => {
                let data = context.input_witness_spec(inro);
                after == before.with_value(value_or_unit(data)) && co == Some(data is Some)
            },
            UsonicInstr::LdIL => {
                let data = context.input_lock_aux_spec(inro);
                after == before.with_value(value_or_unit(data)) && co == Some(data is Some)
            },
            UsonicInstr::LdIT => {
                let data = context.input_auth_token_spec(inro);
                &&& co == Some(data is Some)
                &&& after.ui == before.ui
                &&& after.order == before.order
                &&& after.regs.len() == before.regs.len()
                &&& forall|i: int| 0 <= i < 16 && i != 8 && i != 9 ==> after.regs[i] == before.regs[i]
                &&& data is None ==> after.regs[8] is None && after.regs[9] is None
                &&& data matches Some((at, locked)) ==> after.regs[8] == Some(at.to_fe256_spec())
                &&& data matches Some((at, locked)) ==> (after.regs[9] matches Some(flag) && flag.as_nat()
                    == flag_value(locked))
            },
            UsonicInstr::LdIRo | UsonicInstr::LdIAo | UsonicInstr::LdORo | UsonicInstr::LdOAo => {
                let cat = self.category()->0;
                after == before.load(cat, context) && co == Some(before.ui_of(cat) < context.count(cat))
            },
            UsonicInstr::RstIRo | UsonicInstr::RstIAo | UsonicInstr::RstORo | UsonicInstr::RstOAo => {
                let cat = self.category()->0;
                after == before.reset(cat) && co is None
            },
        }
    }

    /// Whether the instruction can be run on the core `core` under `context`: what it puts into
    /// field registers lies in the field of the core. A check and a reset put nothing there, and
    /// neither does a load that finds nothing.
    pub open spec fn admits(&self, core: UsonicCoreView, context: &VmContext) -> bool {
        let inro = core.ui_of(IoCat::in_ro_spec()) as int;
        match *self {
            UsonicInstr::LdW => value_fits(context.witness, core.order),
            UsonicInstr::LdIW => context.input_witness_spec(inro) matches Some(witness) ==> value_fits(
                witness,
                core.order,
            ),
            UsonicInstr::LdIT => context.input_auth_token_spec(inro) matches Some((at, locked)) ==> at.as_nat()
                < core.order && (locked ==> 1 < core.order),
            UsonicInstr::LdIRo | UsonicInstr::LdIAo | UsonicInstr::LdORo | UsonicInstr::LdOAo => core.can_load(
                self.category()->0,
                context,
            ),
            _ => true,
        }
    }

    /// Whether the instruction can be run on `core` under `context`.
    pub fn is_admitted(&self, core: &UsonicCore, context: &VmContext) -> (r: bool)
        ensures
            r == self.admits(core@, context),
    {
        let order = core.order();
        let inro = core.get_ui_inro();
        match *self {
            UsonicInstr::LdW => value_is_within(&context.witness, &order),
            UsonicInstr::LdIW => match context.input_witness(inro) {
                Some(witness) => value_is_within(&witness, &order),
                None => true,
            },
            UsonicInstr::LdIT => match context.input_auth_token(inro) {
                Some((at, locked)) => at.to_fe256().is_below(&order) && (!locked || Fe256::from_u8(1).is_below(
                    &order,
                )),
                None => true,
            },
            UsonicInstr::LdIRo => Self::can_load(core, IoCat::in_ro(), context, &order),
            UsonicInstr::LdIAo => Self::can_load(core, IoCat::in_ao(), context, &order),
            UsonicInstr::LdORo => Self::can_load(core, IoCat::out_ro(), context, &order),
            UsonicInstr::LdOAo => Self::can_load(core, IoCat::out_ao(), context, &order),
            _ => true,
        }
    }

    fn can_load(core: &UsonicCore, cat: IoCat, context: &VmContext, order: &Fe256) -> (r: bool)
        requires
            order.as_nat() == core@.order,
        ensures
            r == core@.can_load(cat, context),
    {
        let ui = core.ui[cat.index()];
        match context.state_value(cat, ui) {
            Some(value) => value_is_within(&value, order) && ui < 0xFFFF,
            None => true,
        }
    }

    /// Executes the instruction on the registers of the core, reading the state of the operation
    /// from `context`. The result tells what becomes of the `CO` register: `Some(ok)` sets it to
    /// ok or to failed, `None` leaves it as it is. The machine always goes on with the next
    /// instruction.
    pub fn exec(&self, core: &mut UsonicCore, context: &VmContext) -> (co: Option<bool>)
        requires
            self.admits(old(core)@, context),
        ensures
            self.steps(old(core)@, context, final(core)@, co),
    {
        let res = match *self {
            UsonicInstr::CkNxIRo => core.has_data(IoCat::in_ro(), context),
            UsonicInstr::CkNxIAo => core.has_data(IoCat::in_ao(), context),
            UsonicInstr::CkNxORo => core.has_data(IoCat::out_ro(), context),
            UsonicInstr::CkNxOAo => core.has_data(IoCat::out_ao(), context),
            UsonicInstr::LdW => {
                core.set_ea_ed(context.witness);
                return None;
            },
            UsonicInstr::LdIW => {
                let data = context.input_witness(core.get_ui_inro());
                core.set_ea_ed_opt(data)
            },
            UsonicInstr::LdIL => {
                let data = context.input_lock_aux(core.get_ui_inro());
                core.set_ea_ed_opt(data)
            },
            UsonicInstr::LdIT => {
                let data = context.input_auth_token(core.get_ui_inro());
                core.set_ed_eb(data)
            },
            UsonicInstr::LdIRo => core.load(IoCat::in_ro(), context),
            UsonicInstr::LdIAo => core.load(IoCat::in_ao(), context),
            UsonicInstr::LdORo => core.load(IoCat::out_ro(), context),
            UsonicInstr::LdOAo => core.load(IoCat::out_ao(), context),
            UsonicInstr::RstIRo => {
                core.reset(IoCat::in_ro());
                return None;
            },
            UsonicInstr::RstIAo => {
                core.reset(IoCat::in_ao());
                return None;
            },
            UsonicInstr::RstORo => {
                core.reset(IoCat::out_ro());
                return None;
            },
            UsonicInstr::RstOAo => {
                core.reset(IoCat::out_ao());
                return None;
            },
        };
        Some(res)
    }
}

/// A load moves the iterator of its category on by one if and only if it succeeded, and leaves
/// the other iterators where they are.
pub proof fn lemma_load_moves_iterator(
    instr: UsonicInstr,
    before: UsonicCoreView,
    context: &VmContext,
    after: UsonicCoreView,
    co: Option<bool>,
)
    requires
        instr.is_load(),
        before.wf(),
        context.wf(),
        instr.steps(before, context, after, co),
    ensures
        co is Some,
        co == Some(true) <==> after.ui_of(instr.category()->0) == before.ui_of(instr.category()->0) + 1,
        co == Some(false) <==> after.ui_of(instr.category()->0) == before.ui_of(instr.category()->0),
        forall|cat: IoCat| cat != instr.category()->0 ==> after.ui_of(cat) == before.ui_of(cat),
        co == Some(true) <==> context.state_value_spec(
            instr.category()->0,
            before.ui_of(instr.category()->0) as int,
        ) is Some,
{
}

/// A load that succeeded leaves the loaded value in `EA`-`ED`, with the registers beyond the
/// elements of the value empty; a load that failed leaves the four registers empty. No other
/// field register changes.
pub proof fn lemma_load_sets_registers(
    instr: UsonicInstr,
    before: UsonicCoreView,
    context: &VmContext,
    after: UsonicCoreView,
    co: Option<bool>,
)
    requires
        instr.is_load(),
        before.wf(),
        context.wf(),
        instr.steps(before, context, after, co),
    ensures
        forall|k: int|
            0 <= k < 4 ==> #[trigger] after.regs[8 + k] == value_or_unit(
                context.state_value_spec(instr.category()->0, before.ui_of(instr.category()->0) as int),
            ).get_spec(k),
        forall|i: int| 0 <= i < 8 || 12 <= i < 16 ==> after.regs[i] == before.regs[i],
{
}

/// A reset sets the iterator of its category to zero, and leaves the other iterators, the field
/// registers and `CO` as they are.
pub proof fn lemma_reset_zeroes_iterator(
    instr: UsonicInstr,
    before: UsonicCoreView,
    context: &VmContext,
    after: UsonicCoreView,
    co: Option<bool>,
)
    requires
        instr.is_reset(),
        before.wf(),
        instr.steps(before, context, after, co),
    ensures
        co is None,
        after.ui_of(instr.category()->0) == 0,
        forall|cat: IoCat| cat != instr.category()->0 ==> after.ui_of(cat) == before.ui_of(cat),
        after.regs == before.regs,
{
}

/// A check for a next state value moves no iterator and changes no register.
pub proof fn lemma_check_keeps_core(
    instr: UsonicInstr,
    before: UsonicCoreView,
    context: &VmContext,
    after: UsonicCoreView,
    co: Option<bool>,
)
    requires
        instr.is_check(),
        instr.steps(before, context, after, co),
    ensures
        after == before,
        co == Some(before.ui_of(instr.category()->0) < context.count(instr.category()->0)),
{
}

/// The four resets, one after the other, bring the iterators back to where a new core has
/// them: all at zero.
pub proof fn lemma_resets_restore_iterators(
    s0: UsonicCoreView,
    context: &VmContext,
    s1: UsonicCoreView,
    s2: UsonicCoreView,
    s3: UsonicCoreView,
    s4: UsonicCoreView,
)
    requires
        s0.wf(),
        UsonicInstr::RstIRo.steps(s0, context, s1, None),
        UsonicInstr::RstIAo.steps(s1, context, s2, None),
        UsonicInstr::RstORo.steps(s2, context, s3, None),
        UsonicInstr::RstOAo.steps(s3, context, s4, None),
    ensures
        s4.ui == seq![0u16, 0u16, 0u16, 0u16],
        s4.regs == s0.regs,
{
    assert(s4.ui =~= seq![0u16, 0u16, 0u16, 0u16]);
}

/// A load followed by a reset leaves in the field registers what the load alone leaves.
pub proof fn lemma_reset_after_load_keeps_registers(
    load: UsonicInstr,
    reset: UsonicInstr,
    before: UsonicCoreView,
    context: &VmContext,
    loaded_core: UsonicCoreView,
    co: Option<bool>,
    after: UsonicCoreView,
)
    requires
        load.is_load(),
        reset.is_reset(),
        before.wf(),
        load.steps(before, context, loaded_core, co),
        reset.steps(loaded_core, context, after, None),
    ensures
        after.regs == loaded_core.regs,
        after.ui_of(reset.category()->0) == 0,
{
}

/// Asking for the next state value of a category finds one if and only if the iterator of the
/// category stands before the end of the list; the iterator then moves on by exactly one, and
/// stays where it is otherwise.
pub proof fn lemma_load_advances_iff_found(before: UsonicCoreView, cat: IoCat, context: &VmContext)
    requires
        before.wf(),
        context.wf(),
    ensures
        context.state_value_spec(cat, before.ui_of(cat) as int) is Some <==> before.ui_of(cat) < context.count(cat),
        context.state_value_spec(cat, before.ui_of(cat) as int) is Some ==> before.load(cat, context).ui_of(cat)
            == before.ui_of(cat) + 1,
        context.state_value_spec(cat, before.ui_of(cat) as int) is None ==> before.load(cat, context).ui_of(cat)
            == before.ui_of(cat),
        forall|other: IoCat| other != cat ==> before.load(cat, context).ui_of(other) == before.ui_of(other),
{
}

/// Whatever instruction has run on a core, the core that is reset as a whole afterwards is the
/// core as it was made: no instruction changes the field that the core works in, and the reset
/// brings every iterator to zero and leaves every field register empty.
pub proof fn lemma_reset_all_restores_start(
    instr: UsonicInstr,
    order: nat,
    before: UsonicCoreView,
    context: &VmContext,
    after: UsonicCoreView,
    co: Option<bool>,
)
    requires
        before.wf(),
        before.order == order,
        instr.steps(before, context, after, co),
    ensures
        UsonicCoreView::start(after.order) == UsonicCoreView::start(order),
        UsonicCoreView::start(order).wf(),
        forall|cat: IoCat| UsonicCoreView::start(after.order).ui_of(cat) == 0,
        forall|i: int| 0 <= i < 16 ==> UsonicCoreView::start(after.order).regs[i] is None,
{
}

} // verus!
