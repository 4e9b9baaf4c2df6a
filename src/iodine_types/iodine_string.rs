use std::sync::Arc;
use vstd::prelude::*;

use crate::object::{is_string_of, AttributeDictionary, IodineObject};

verus! {

/// A shared string value holding `value`, with no attributes.
pub fn create(value: String) -> (r: Arc<IodineObject>)
    ensures
        is_string_of(*r, value@),
{
    Arc::new(IodineObject::IodineString { attribs: AttributeDictionary::new(), value })
}

} // verus!
