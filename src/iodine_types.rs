//! Constructors of the value kinds, and the registry of type attributes.

pub mod builtin_method;
pub mod iodine_code_object;
pub mod iodine_module;
pub mod iodine_name;
pub mod iodine_string;

use vstd::prelude::*;

use crate::object::{is_string_of, AttributeDictionary};

verus! {

/// The attributes of the type called `name`: its `__name__`, a string
/// holding `name`. Returned together with the name.
pub fn create_type(name: &str) -> (r: (String, AttributeDictionary))
    ensures
        r.0@ == name@,
        r.1.wf(),
        r.1@.dom() == set!["__name__"@],
        is_string_of(*r.1@["__name__"@], name@),
{
    let mut attribs = AttributeDictionary::new();
    attribs.insert("__name__".to_owned(), iodine_string::create(name.to_owned()));
    assert(attribs@.dom() =~= set!["__name__"@]);
    (name.to_owned(), attribs)
}

/// `r` registers "Object", "Str", "Code", "Module", "Null" and "Name", in
/// that order, each with the attributes that `create_type` gives it.
pub open spec fn is_type_registry(r: Seq<(String, AttributeDictionary)>) -> bool {
    &&& r.len() == 6
    &&& r[0].0@ == "Object"@
    &&& r[1].0@ == "Str"@
    &&& r[2].0@ == "Code"@
    &&& r[3].0@ == "Module"@
    &&& r[4].0@ == "Null"@
    &&& r[5].0@ == "Name"@
    &&& forall|i: int|
        0 <= i < 6 ==> (#[trigger] r[i]).1.wf() && r[i].1@.dom() == set!["__name__"@]
            && is_string_of(*r[i].1@["__name__"@], r[i].0@)
}

/// The type registry: the attributes of "Object", "Str", "Code", "Module",
/// "Null" and "Name", in that order.
pub fn type_registry() -> (r: Vec<(String, AttributeDictionary)>)
    ensures
        is_type_registry(r@),
{
    let mut types: Vec<(String, AttributeDictionary)> = Vec::new();
    types.push(create_type("Object"));
    types.push(create_type("Str"));
    types.push(create_type("Code"));
    types.push(create_type("Module"));
    types.push(create_type("Null"));
    types.push(create_type("Name"));
    types
}

} // verus!
