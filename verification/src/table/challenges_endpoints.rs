//! The bundle of terminal values that the argument endpoints produce. How the
//! terminals are derived belongs to the surrounding protocol; this core only
//! carries them through the transcript.

use vstd::prelude::*;

use twenty_first::math::x_field_element::XFieldElement;

verus! {

/// The terminal values of all running arguments, in a fixed order.
pub struct AllEndpoints {
    pub terminals: Vec<XFieldElement>,
}

impl AllEndpoints {
    pub fn new(terminals: Vec<XFieldElement>) -> (r: Self)
        ensures
            r.terminals == terminals,
    {
        AllEndpoints { terminals }
    }
}

} // verus!
