use std::sync::Arc;
use vstd::prelude::*;

use crate::object::{bare, AttributeDictionary, IodineObject};

verus! {

/// A module named `name` that runs `code`, with no attributes.
pub fn create(name: String, code: Box<IodineObject>) -> (r: IodineObject)
    requires
        *code is CodeObject,
    ensures
        bare(r),
        r is IodineModule,
        r->IodineModule_name@ == name@,
        *r->IodineModule_code == *code,
{
    IodineObject::IodineModule {
        attribs: AttributeDictionary::new(),
        name,
        code: Arc::new(*code),
    }
}

} // verus!
