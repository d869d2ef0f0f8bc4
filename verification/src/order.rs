//! The order of verified operations and of authorization tokens.

use vstd::prelude::*;
use core::cmp::Ordering;
use vstd::std_specs::cmp::PartialOrdSpecImpl;
use crate::bytes::{lex_compare, lex_sign};
use crate::operation::VerifiedOperation;
use crate::state::AuthToken;

verus! {

/// The ordering that a sign stands for: less for a negative, equal for zero, greater for a
/// positive one.
pub open spec fn ordering_of(sign: int) -> Ordering {
    if sign < 0 {
        Ordering::Less
    } else if sign == 0 {
        Ordering::Equal
    } else {
        Ordering::Greater
    }
}

/// How the integer `a` stands to the integer `b`.
pub open spec fn integer_order(a: nat, b: nat) -> Ordering {
    ordering_of(a - b)
}

/// Verified operations are ordered by their identifiers, as byte strings.
impl PartialOrd for VerifiedOperation {
    fn partial_cmp(&self, other: &Self) -> (r: Option<Ordering>) {
        let sign = lex_compare(&self.opid().bytes, &other.opid().bytes);
        if sign < 0 {
            Some(Ordering::Less)
        } else if sign == 0 {
            Some(Ordering::Equal)
        } else {
            Some(Ordering::Greater)
        }
    }
}

impl PartialOrdSpecImpl for VerifiedOperation {
    open spec fn obeys_partial_cmp_spec() -> bool {
        true
    }

    open spec fn partial_cmp_spec(&self, other: &Self) -> Option<Ordering> {
        Some(ordering_of(lex_sign(self.opid_spec()@, other.opid_spec()@)))
    }
}

/// Authorization tokens are ordered by the 256-bit integers that they stand for. The order
/// serves host data structures; no script and no verification depends on it.
impl PartialOrd for AuthToken {
    fn partial_cmp(&self, other: &Self) -> (r: Option<Ordering>) {
        if self.is_below(other) {
            Some(Ordering::Less)
        } else if other.is_below(self) {
            Some(Ordering::Greater)
        } else {
            Some(Ordering::Equal)
        }
    }
}

impl PartialOrdSpecImpl for AuthToken {
    open spec fn obeys_partial_cmp_spec() -> bool {
        true
    }

    open spec fn partial_cmp_spec(&self, other: &Self) -> Option<Ordering> {
        Some(integer_order(self.as_nat(), other.as_nat()))
    }
}

} // verus!
