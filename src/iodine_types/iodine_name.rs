use vstd::prelude::*;

use crate::object::{is_name_of, AttributeDictionary, IodineObject};

verus! {

/// A name value holding `value`, with no attributes.
pub fn create(value: String) -> (r: IodineObject)
    ensures
        is_name_of(r, value@),
{
    IodineObject::IodineName { attribs: AttributeDictionary::new(), value }
}

} // verus!
