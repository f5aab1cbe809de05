//! Look-up by name.

use vstd::prelude::*;

verus! {

/// Values that are found by a name among those that a source reported.
pub trait ForName: Sized {
    /// The first of the candidates with this name.
    fn for_name(candidates: &Vec<Self>, name: &str) -> Option<Self>;
}

} // verus!
