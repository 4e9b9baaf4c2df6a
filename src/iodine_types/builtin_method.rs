use std::sync::Arc;
use vstd::prelude::*;

use crate::object::{bare, AttributeDictionary, IodineObject};

verus! {

/// A shared builtin value; `callback` is the handle by which the host knows
/// the function to run.
pub fn create(callback: u64) -> (r: Arc<IodineObject>)
    ensures
        bare(*r),
        *r matches IodineObject::BuiltinMethodCallback { callback: c, .. } && c == callback,
{
    Arc::new(IodineObject::BuiltinMethodCallback { attribs: AttributeDictionary::new(), callback })
}

} // verus!
