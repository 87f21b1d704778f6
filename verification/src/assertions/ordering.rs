//! The order of assertions: by stride, then by first step, then by register.

use vstd::prelude::*;
use core::cmp::Ordering;
use vstd::std_specs::cmp::PartialOrdSpecImpl;
use crate::assertions::{Assertion, AssertionView};
use crate::field::traits::StarkField;

verus! {

/// How two assertions compare: by stride, then by first step, then by register,
/// each ascending. The values play no part.
pub open spec fn compare<B>(a: AssertionView<B>, b: AssertionView<B>) -> Ordering {
    if a.stride != b.stride {
        if a.stride < b.stride {
            Ordering::Less
        } else {
            Ordering::Greater
        }
    } else if a.first_step != b.first_step {
        if a.first_step < b.first_step {
            Ordering::Less
        } else {
            Ordering::Greater
        }
    } else if a.register != b.register {
        if a.register < b.register {
            Ordering::Less
        } else {
            Ordering::Greater
        }
    } else {
        Ordering::Equal
    }
}

/// Whether `a` comes before `b`, or compares equal to it.
pub open spec fn precedes<B>(a: AssertionView<B>, b: AssertionView<B>) -> bool {
    compare(a, b) != Ordering::Greater
}

/// Whether two assertions compare equal: they agree in stride, first step and
/// register.
pub open spec fn equivalent<B>(a: AssertionView<B>, b: AssertionView<B>) -> bool {
    compare(a, b) == Ordering::Equal
}

fn order_of(a: usize, b: usize) -> (r: Ordering)
    ensures
        r == if a < b {
            Ordering::Less
        } else if a == b {
            Ordering::Equal
        } else {
            Ordering::Greater
        },
{
    if a < b {
        Ordering::Less
    } else if a == b {
        Ordering::Equal
    } else {
        Ordering::Greater
    }
}

impl<B: StarkField> Assertion<B> {
    /// Compares two assertions by stride, then first step, then register.
    pub fn compare_to(&self, other: &Self) -> (r: Ordering)
        ensures
            r == compare(self@, other@),
    {
        if self.stride() != other.stride() {
            order_of(self.stride(), other.stride())
        } else if self.first_step() != other.first_step() {
            order_of(self.first_step(), other.first_step())
        } else {
            order_of(self.register(), other.register())
        }
    }
}

impl<B: StarkField> Assertion<B> {
    /// Whether this assertion comes after `other` in the order, and does not
    /// compare equal to it.
    pub fn comes_after(&self, other: &Self) -> (r: bool)
        ensures
            r == !precedes(self@, other@),
    {
        match self.compare_to(other) {
            Ordering::Greater => true,
            _ => false,
        }
    }
}

impl<B: StarkField + PartialEq> PartialOrd for Assertion<B> {
    fn partial_cmp(&self, other: &Self) -> (r: Option<Ordering>) {
        Some(self.compare_to(other))
    }
}

impl<B: StarkField + PartialEq> PartialOrdSpecImpl for Assertion<B> {
    open spec fn obeys_partial_cmp_spec() -> bool {
        true
    }

    open spec fn partial_cmp_spec(&self, other: &Self) -> Option<Ordering> {
        Some(compare(self@, other@))
    }
}

/// Every assertion compares equal to itself, and two assertions compare equal
/// exactly when they agree in stride, first step and register.
pub proof fn lemma_compare_equal<B>(a: AssertionView<B>, b: AssertionView<B>)
    ensures
        compare(a, a) == Ordering::Equal,
        compare(a, b) == Ordering::Equal <==> (a.stride == b.stride && a.first_step == b.first_step
            && a.register == b.register),
{
}

/// Swapping the two assertions reverses the comparison; so of any two, one
/// precedes the other.
pub proof fn lemma_compare_total<B>(a: AssertionView<B>, b: AssertionView<B>)
    ensures
        compare(a, b) == Ordering::Less <==> compare(b, a) == Ordering::Greater,
        compare(a, b) == Ordering::Equal <==> compare(b, a) == Ordering::Equal,
        precedes(a, b) || precedes(b, a),
{
}

/// The order is transitive.
pub proof fn lemma_compare_transitive<B>(
    a: AssertionView<B>,
    b: AssertionView<B>,
    c: AssertionView<B>,
)
    requires
        precedes(a, b),
        precedes(b, c),
    ensures
        precedes(a, c),
        compare(a, b) == Ordering::Less || compare(b, c) == Ordering::Less ==> compare(a, c)
            == Ordering::Less,
{
}

/// Of two assertions one precedes the other; one that does not precede the
/// other follows it and does not compare equal to it.
pub proof fn lemma_precedes_total<B>(a: AssertionView<B>, b: AssertionView<B>)
    ensures
        precedes(a, b) || precedes(b, a),
        !precedes(a, b) ==> precedes(b, a) && !equivalent(b, a),
        equivalent(a, b) == equivalent(b, a),
        equivalent(a, b) ==> precedes(a, b) && precedes(b, a),
{
}

/// An assertion that precedes a second, which precedes a third, precedes the
/// third.
pub proof fn lemma_precedes_transitive<B>(
    a: AssertionView<B>,
    b: AssertionView<B>,
    c: AssertionView<B>,
)
    requires
        precedes(a, b),
        precedes(b, c),
    ensures
        precedes(a, c),
{
}

} // verus!
