use vstd::prelude::*;

use crate::object::AttributeDictionary;

verus! {

/// The state shared by every frame of a machine: its global names.
pub struct IodineContext {
    pub globals: AttributeDictionary,
}

} // verus!
