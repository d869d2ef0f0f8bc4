//! Microcode of the USONIC core: what the instructions are made of.

use vstd::prelude::*;
use crate::fe::Fe256;
use crate::isa::context::{value_fits, VmContext};
use crate::isa::regs::{IoCat, RegE, UsonicCore, UsonicCoreView};
use crate::state::{AuthToken, StateValue};

verus! {

/// The field registers `regs` after `value` was loaded into `EA`-`ED`: each of the four holds
/// the element of its place, and is empty where the value has none.
pub open spec fn loaded(regs: Seq<Option<Fe256>>, value: StateValue) -> Seq<Option<Fe256>> {
    regs.update(8, value.get_spec(0)).update(9, value.get_spec(1)).update(10, value.get_spec(2)).update(
        11,
        value.get_spec(3),
    )
}

/// The element that tells in a register whether a script locks a cell: one if so, else zero.
pub open spec fn flag_value(locked: bool) -> nat {
    if locked {
        1
    } else {
        0
    }
}

impl UsonicCoreView {
    /// The position of the iterator over category `cat`.
    pub open spec fn ui_of(&self, cat: IoCat) -> u16 {
        self.ui[cat.index_spec()]
    }

    /// The core after `value` was loaded into `EA`-`ED`.
    pub open spec fn with_value(&self, value: StateValue) -> UsonicCoreView {
        UsonicCoreView { regs: loaded(self.regs, value), ..*self }
    }

    /// The core after the next state value of category `cat` was asked for: where there is one,
    /// it stands in `EA`-`ED` and the iterator has moved on by one; where there is none, the
    /// four registers are empty and the iterator stays.
    pub open spec fn load(&self, cat: IoCat, context: &VmContext) -> UsonicCoreView {
        match context.state_value_spec(cat, self.ui_of(cat) as int) {
            Some(value) => UsonicCoreView {
                ui: self.ui.update(cat.index_spec(), (self.ui_of(cat) + 1) as u16),
                regs: loaded(self.regs, value),
                ..*self
            },
            None => self.with_value(StateValue::Unit),
        }
    }

    /// Whether the next state value of category `cat` can be loaded: where there is one, its
    /// elements lie in the field of the core, and the iterator has room to move on.
    pub open spec fn can_load(&self, cat: IoCat, context: &VmContext) -> bool {
        context.state_value_spec(cat, self.ui_of(cat) as int) matches Some(value) ==> value_fits(
            value,
            self.order,
        ) && self.ui_of(cat) < 0xFFFF
    }

    /// The core after the iterator over category `cat` was reset.
    pub open spec fn reset(&self, cat: IoCat) -> UsonicCoreView {
        UsonicCoreView { ui: self.ui.update(cat.index_spec(), 0u16), ..*self }
    }
}

impl UsonicCore {
    /// Checks whether more state values remain in the given category.
    pub fn has_data(&mut self, cat: IoCat, context: &VmContext) -> (r: bool)
        ensures
            *final(self) == *old(self),
            r == (old(self)@.ui_of(cat) < context.count(cat)),
    {
        let data = context.state_value(cat, self.ui[cat.index()]);
        data.is_some()
    }

    /// Get the current index for a destructible input.
    pub fn get_ui_inro(&self) -> (r: u16)
        ensures
            r == self@.ui_of(IoCat::in_ro_spec()),
    {
        self.ui[IoCat::in_ro().index()]
    }

    /// Loads the next state value of the given category, as the iterator of the category counts
    /// it, into the `EA`-`ED` registers, and moves the iterator on.
    pub fn load(&mut self, cat: IoCat, context: &VmContext) -> (r: bool)
        requires
            old(self)@.can_load(cat, context),
        ensures
            final(self)@ == old(self)@.load(cat, context),
            r == (old(self)@.ui_of(cat) < context.count(cat)),
    {
        let data = context.state_value(cat, self.ui[cat.index()]);
        self.load_internal(cat, data)
    }

    fn load_internal(&mut self, cat: IoCat, data: Option<StateValue>) -> (r: bool)
        requires
            data is Some ==> value_fits(data->0, old(self)@.order) && old(self)@.ui_of(cat) < 0xFFFF,
        ensures
            r == (data is Some),
            final(self)@ == (match data {
                Some(value) => UsonicCoreView {
                    ui: old(self)@.ui.update(cat.index_spec(), (old(self)@.ui_of(cat) + 1) as u16),
                    regs: loaded(old(self)@.regs, value),
                    ..old(self)@
                },
                None => old(self)@.with_value(StateValue::Unit),
            }),
    {
        let co = data.is_some();
        let data = match data {
            Some(value) => value,
            None => StateValue::Unit,
        };
        self.set_ea_ed(data);
        if co {
            let idx = cat.index();
            let mut ui = self.ui;
            ui[idx] = ui[idx] + 1;
            self.ui = ui;
            assert(self.ui@ =~= old(self)@.ui.update(cat.index_spec(), (old(self)@.ui_of(cat) + 1) as u16));
        }
        co
    }

    /// Sets the `EA` and `EB` registers to the field elements that stand for the given pair of a
    /// token and a flag; empties both where there is no pair.
    pub fn set_ed_eb(&mut self, data: Option<(AuthToken, bool)>) -> (r: bool)
        requires
            data matches Some((at, locked)) ==> at.as_nat() < old(self)@.order && (locked ==> 1
                < old(self)@.order),
        ensures
            r == (data is Some),
            final(self)@.ui == old(self)@.ui,
            final(self)@.order == old(self)@.order,
            forall|i: int| 0 <= i < 16 && i != 8 && i != 9 ==> final(self)@.regs[i] == old(self)@.regs[i],
            data is None ==> final(self)@.regs[8] is None && final(self)@.regs[9] is None,
            data matches Some((at, locked)) ==> final(self)@.regs[8] == Some(at.to_fe256_spec()),
            data matches Some((at, locked)) ==> (final(self)@.regs[9] matches Some(flag) && flag.as_nat()
                == flag_value(locked)),
    {
        let co = data.is_some();
        match data {
            Some((at, locked)) => {
                self.put(RegE::EA, Some(at.to_fe256()));
                let flag = if locked {
                    Fe256::from_u8(1)
                } else {
                    Fe256::zero()
                };
                self.put(RegE::EB, Some(flag));
            },
            None => {
                self.put(RegE::EA, None);
                self.put(RegE::EB, None);
            },
        }
        co
    }

    /// Sets the `EA`-`ED` registers to the elements of the given value, and empties them where
    /// there is no value.
    pub fn set_ea_ed_opt(&mut self, data: Option<StateValue>) -> (r: bool)
        requires
            data is Some ==> value_fits(data->0, old(self)@.order),
        ensures
            r == (data is Some),
            final(self)@ == old(self)@.with_value(
                match data {
                    Some(value) => value,
                    None => StateValue::Unit,
                },
            ),
    {
        let co = data.is_some();
        let data = match data {
            Some(value) => value,
            None => StateValue::Unit,
        };
        self.set_ea_ed(data);
        co
    }

    /// Sets the `EA`-`ED` registers to the elements of the given value.
    pub fn set_ea_ed(&mut self, data: StateValue)
        requires
            value_fits(data, old(self)@.order),
        ensures
            final(self)@ == old(self)@.with_value(data),
    {
        self.put(RegE::EA, data.get(0));
        self.put(RegE::EB, data.get(1));
        self.put(RegE::EC, data.get(2));
        self.put(RegE::ED, data.get(3));
    }

    /// Sets the iterator over the destructible input to point at a specific input index.
    pub fn set_inro_index(&mut self, index: u16)
        ensures
            final(self)@ == (UsonicCoreView {
                ui: old(self)@.ui.update(IoCat::in_ro_spec().index_spec(), index),
                ..old(self)@
            }),
    {
        let mut ui = self.ui;
        ui[IoCat::in_ro().index()] = index;
        self.ui = ui;
        assert(self.ui@ =~= old(self)@.ui.update(IoCat::in_ro_spec().index_spec(), index));
    }

    /// Resets the iterator over the given category to zero.
    pub fn reset(&mut self, cat: IoCat)
        ensures
            final(self)@ == old(self)@.reset(cat),
    {
        let mut ui = self.ui;
        ui[cat.index()] = 0;
        self.ui = ui;
        assert(self.ui@ =~= old(self)@.ui.update(cat.index_spec(), 0u16));
    }
}

} // verus!
