//! What the VM sees of an operation while a script runs.

use vstd::prelude::*;
use crate::fe::Fe256;
use crate::isa::regs::IoCat;
use crate::operation::Input;
use crate::state::{AuthToken, StateCell, StateData, StateValue};

verus! {

/// Whether every element of `value` stands for an integer below `order`.
pub open spec fn value_fits(value: StateValue, order: nat) -> bool {
    forall|i: int| 0 <= i < value@.len() ==> (#[trigger] value@[i]).as_nat() < order
}

/// Whether every element of `value` stands for an integer below that of `order`.
pub fn value_is_within(value: &StateValue, order: &Fe256) -> (r: bool)
    ensures
        r == value_fits(*value, order.as_nat()),
{
    let n = value.len();
    let mut i: u8 = 0;
    while i < n
        invariant
            i <= n,
            n == value@.len(),
            forall|j: int| 0 <= j < i ==> (#[trigger] value@[j]).as_nat() < order.as_nat(),
        decreases n - i,
    {
        let el = value.get(i).unwrap();
        if !el.is_below(order) {
            return false;
        }
        i = i + 1;
    }
    true
}

/// Context object provided to the VM instance: the inputs of an operation, resolved against the
/// memory, and its outputs.
#[derive(PartialEq, Eq, Debug)]
pub struct VmContext<'ctx> {
    /// Operation-level witness.
    pub witness: StateValue,
    /// Operation input consisting of the destructible (read-once) memory cells: each input with
    /// the cell that it addresses.
    pub destructible_input: &'ctx [(Input, StateCell)],
    /// Operation input consisting of the immutable (read-only) memory cells.
    pub immutable_input: &'ctx [StateValue],
    /// Operation output defining new destructible (read-once) memory cells.
    pub destructible_output: &'ctx [StateCell],
    /// Operation output defining new immutable (append-only) memory cells.
    pub immutable_output: &'ctx [StateData],
}

impl VmContext<'_> {
    /// No list of the context is longer than an iterator register can count.
    pub open spec fn wf(&self) -> bool {
        &&& self.destructible_input@.len() <= 0xFFFF
        &&& self.immutable_input@.len() <= 0xFFFF
        &&& self.destructible_output@.len() <= 0xFFFF
        &&& self.immutable_output@.len() <= 0xFFFF
    }

    /// The number of state values in category `cat`.
    pub open spec fn count(&self, cat: IoCat) -> nat {
        if cat == IoCat::in_ro_spec() {
            self.destructible_input@.len()
        } else if cat == IoCat::in_ao_spec() {
            self.immutable_input@.len()
        } else if cat == IoCat::out_ro_spec() {
            self.destructible_output@.len()
        } else {
            self.immutable_output@.len()
        }
    }

    /// The state value at `index` in category `cat`, if there is one.
    pub open spec fn state_value_spec(&self, cat: IoCat, index: int) -> Option<StateValue> {
        if !(0 <= index < self.count(cat)) {
            None
        } else if cat == IoCat::in_ro_spec() {
            Some(self.destructible_input@[index].1.data)
        } else if cat == IoCat::in_ao_spec() {
            Some(self.immutable_input@[index])
        } else if cat == IoCat::out_ro_spec() {
            Some(self.destructible_output@[index].data)
        } else {
            Some(self.immutable_output@[index].value)
        }
    }

    /// What the lock of the cell behind the destructible input at `index` carries beside its
    /// script: the unit value, where the input exists and its cell is locked.
    pub open spec fn input_lock_aux_spec(&self, index: int) -> Option<StateValue> {
        if 0 <= index < self.destructible_input@.len() && self.destructible_input@[index].1.lock is Some {
            Some(StateValue::Unit)
        } else {
            None
        }
    }

    /// The witness of the destructible input at `index`, if there is such an input.
    pub open spec fn input_witness_spec(&self, index: int) -> Option<StateValue> {
        if 0 <= index < self.destructible_input@.len() {
            Some(self.destructible_input@[index].0.witness)
        } else {
            None
        }
    }

    /// The token of the cell behind the destructible input at `index`, and whether a script
    /// locks that cell; none where there is no such input.
    pub open spec fn input_auth_token_spec(&self, index: int) -> Option<(AuthToken, bool)> {
        if 0 <= index < self.destructible_input@.len() {
            let cell = self.destructible_input@[index].1;
            Some((cell.auth, cell.lock is Some))
        } else {
            None
        }
    }

    /// Returns a state value from the provided category of operation inputs or outputs at the
    /// given `index`; none if the operation has no input or output there.
    pub fn state_value(&self, cat: IoCat, index: u16) -> (r: Option<StateValue>)
        ensures
            r == self.state_value_spec(cat, index as int),
            r is Some <==> index < self.count(cat),
    {
        let i = index as usize;
        match cat.index() {
            0 => if i < self.destructible_input.len() {
                Some(self.destructible_input[i].1.data)
            } else {
                None
            },
            1 => if i < self.immutable_input.len() {
                Some(self.immutable_input[i])
            } else {
                None
            },
            2 => if i < self.destructible_output.len() {
                Some(self.destructible_output[i].data)
            } else {
                None
            },
            _ => if i < self.immutable_output.len() {
                Some(self.immutable_output[i].value)
            } else {
                None
            },
        }
    }

    /// Returns what the lock of a destructible input's cell carries beside its script.
    pub fn input_lock_aux(&self, index: u16) -> (r: Option<StateValue>)
        ensures
            r == self.input_lock_aux_spec(index as int),
    {
        let i = index as usize;
        if i < self.destructible_input.len() {
            match self.destructible_input[i].1.lock {
                Some(_) => Some(StateValue::Unit),
                None => None,
            }
        } else {
            None
        }
    }

    /// Returns the witness of a destructible input.
    pub fn input_witness(&self, index: u16) -> (r: Option<StateValue>)
        ensures
            r == self.input_witness_spec(index as int),
    {
        let i = index as usize;
        if i < self.destructible_input.len() {
            Some(self.destructible_input[i].0.witness)
        } else {
            None
        }
    }

    /// Returns the token of authority of a destructible input's cell, and whether a script locks
    /// the cell.
    pub fn input_auth_token(&self, index: u16) -> (r: Option<(AuthToken, bool)>)
        ensures
            r == self.input_auth_token_spec(index as int),
    {
        let i = index as usize;
        if i < self.destructible_input.len() {
            let cell = self.destructible_input[i].1;
            Some((cell.auth, cell.lock.is_some()))
        } else {
            None
        }
    }
}

} // verus!
