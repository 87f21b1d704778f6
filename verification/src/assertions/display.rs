//! The text of an assertion.

use vstd::prelude::*;
use vstd::string::StringExecFns;
use crate::assertions::{Assertion, AssertionView};
use crate::field::traits::StarkField;
use crate::text::{decimal, decimal_string};
use crate::utils::lemma_pow2_bound;

verus! {

/// The part of the text that names the asserted steps: the one step of a single
/// assertion, or the first two of a progression.
pub open spec fn steps_text<B>(a: AssertionView<B>) -> Seq<char> {
    if a.stride == 0 {
        "step="@ + decimal(a.first_step as nat) + ", "@
    } else {
        "steps=["@ + decimal(a.first_step as nat) + ", "@ + decimal(
            (a.first_step + a.stride) as nat,
        ) + ", ...], "@
    }
}

/// The part of the text that names the asserted values: the one value, or the
/// first two values of a list, with an ellipsis where there are more.
pub open spec fn values_text<B: StarkField>(a: AssertionView<B>) -> Seq<char> {
    if a.values.len() == 1 {
        "value="@ + decimal(a.values[0].value() as nat) + ")"@
    } else if a.values.len() == 2 {
        "values=["@ + decimal(a.values[0].value() as nat) + ", "@ + decimal(
            a.values[1].value() as nat,
        ) + "])"@
    } else {
        "values=["@ + decimal(a.values[0].value() as nat) + ", "@ + decimal(
            a.values[1].value() as nat,
        ) + ", ...])"@
    }
}

/// The text of an assertion: the register, the steps and the values.
pub open spec fn assertion_text<B: StarkField>(a: AssertionView<B>) -> Seq<char> {
    "(register="@ + decimal(a.register as nat) + ", "@ + steps_text(a) + values_text(a)
}

impl<B: StarkField> Assertion<B> {
    /// The text of the assertion: `(register=R, step=S, value=V)` for a single
    /// one; for the others the steps read `steps=[S, S', ...]` with the first two
    /// steps, and for a sequence the values read `values=[V, V']`, followed by
    /// `, ...` where there are more than two.
    pub fn to_string(&self) -> (s: String)
        ensures
            s@ == assertion_text(self@),
    {
        let s = String::from_str("(register=");
        let s = s.concat(decimal_string(self.register() as u128).as_str());
        let s = s.concat(", ");
        let first = self.first_step();
        let stride = self.stride();
        let values = self.values();
        proof {
            use_type_invariant(self);
            if stride != 0 {
                lemma_pow2_bound(stride as int);
            }
        }
        let s = if stride == 0 {
            let s = s.concat("step=");
            let s = s.concat(decimal_string(first as u128).as_str());
            s.concat(", ")
        } else {
            let second = first + stride;
            let s = s.concat("steps=[");
            let s = s.concat(decimal_string(first as u128).as_str());
            let s = s.concat(", ");
            let s = s.concat(decimal_string(second as u128).as_str());
            s.concat(", ...], ")
        };
        let ghost head = "(register="@ + decimal(self@.register as nat) + ", "@ + steps_text(
            self@,
        );
        proof {
            assert(s@ =~= head);
        }
        let s = if values.len() == 1 {
            let s = s.concat("value=");
            let s = s.concat(values[0].to_string().as_str());
            s.concat(")")
        } else {
            let s = s.concat("values=[");
            let s = s.concat(values[0].to_string().as_str());
            let s = s.concat(", ");
            let s = s.concat(values[1].to_string().as_str());
            if values.len() == 2 {
                s.concat("])")
            } else {
                s.concat(", ...])")
            }
        };
        proof {
            assert(s@ =~= head + values_text(self@));
        }
        s
    }
}

} // verus!
