//! Taking a boolean flag: read it and reset it in one step.

use vstd::prelude::*;

verus! {

pub trait BoolExt {
    fn take(&mut self) -> bool;
}

impl BoolExt for bool {
    /// The flag's value, leaving `false` behind.
    fn take(&mut self) -> (r: bool)
        ensures
            r == *old(self),
            !*final(self),
    {
        let r = *self;
        *self = false;
        r
    }
}

} // verus!
