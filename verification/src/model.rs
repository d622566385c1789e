//! The application-supplied model: the single capability the runtime asks of
//! it is to produce a renderable byte view of its current state.

use vstd::prelude::*;

verus! {

/// An application model. `spec_view` is the mathematical image of the
/// renderable state; `view` produces it.
pub trait Model: Sized {
    /// The bytes the model renders to.
    spec fn spec_view(&self) -> Seq<u8>;

    /// The renderable byte view of the current state.
    fn view(&self) -> (r: Vec<u8>)
        ensures
            r@ == self.spec_view(),
    ;
}

} // verus!
