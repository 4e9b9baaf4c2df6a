use vstd::prelude::*;

use crate::object::{bare, AttributeDictionary, IodineObject};

verus! {

/// An empty code object, with no attributes.
pub fn create() -> (r: IodineObject)
    ensures
        bare(r),
        r is CodeObject,
        r->CodeObject_instructions@.len() == 0,
{
    IodineObject::CodeObject { attribs: AttributeDictionary::new(), instructions: Vec::new() }
}

} // verus!
