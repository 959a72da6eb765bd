use vstd::prelude::*;

verus! {

/// A computation unit: it stores an input, then transforms it into an output.
/// Each stage of a pipeline implements it, and a composed pipeline feeds the
/// output of one unit to the next unit's `set_block`.
pub trait Block: Sized {
    type Input;
    type Output;
    type Error;

    /// The unit's own well-formedness, kept by both operations. A unit
    /// without one keeps the default.
    open spec fn inv(&self) -> bool {
        true
    }

    /// Stores `value` as the current input, or rejects it.
    fn set_block(&mut self, value: Self::Input) -> (r: Result<(), Self::Error>)
        requires
            old(self).inv(),
        ensures
            final(self).inv(),
    ;

    /// Transforms the current input and returns the result.
    fn forward_propagate(&mut self) -> (r: Self::Output)
        requires
            old(self).inv(),
        ensures
            final(self).inv(),
    ;
}

} // verus!
