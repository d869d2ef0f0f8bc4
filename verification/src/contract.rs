//! Values that are fixed by their type.

use vstd::prelude::*;

verus! {

/// A 32-bit integer that can hold one value only: `CONST`.
#[derive(Eq, PartialEq, Ord, PartialOrd, Debug)]
pub struct ConstU32<const CONST: u32> {
    value: u32,
}

/// A value was read in the place of a constant that it does not equal.
#[derive(Clone, Copy, Eq, PartialEq, Debug)]
pub struct ConstMismatch {
    /// The constant that was expected.
    pub expected: u32,
    /// The value that was found.
    pub found: u32,
}

impl<const CONST: u32> Clone for ConstU32<CONST> {
    fn clone(&self) -> (r: Self)
        ensures
            r.value() == CONST,
    {
        ConstU32 { value: CONST }
    }
}

impl<const CONST: u32> Default for ConstU32<CONST> {
    fn default() -> (r: Self)
        ensures
            r.value() == CONST,
    {
        ConstU32 { value: CONST }
    }
}

impl<const CONST: u32> ConstU32<CONST> {
    #[verifier::type_invariant]
    spec fn fixed(&self) -> bool {
        self.value == CONST
    }

    /// The value that is held.
    pub closed spec fn value(&self) -> u32 {
        self.value
    }

    /// The constant.
    pub fn new() -> (r: Self)
        ensures
            r.value() == CONST,
    {
        ConstU32 { value: CONST }
    }

    /// The value that is held: always `CONST`.
    pub fn get(&self) -> (r: u32)
        ensures
            r == CONST,
            r == self.value(),
    {
        proof {
            use_type_invariant(self);
        }
        self.value
    }

    /// The constant, as read from the value `val`: `val` has to be the constant.
    pub fn from_u32(val: u32) -> (r: Result<Self, ConstMismatch>)
        ensures
            val == CONST ==> r is Ok && r->Ok_0.value() == CONST,
            val != CONST ==> r == Err::<Self, ConstMismatch>(ConstMismatch { expected: CONST, found: val }),
    {
        if val != CONST {
            return Err(ConstMismatch { expected: CONST, found: val });
        }
        Ok(ConstU32 { value: CONST })
    }
}

} // verus!
