use std::sync::Arc;
use vstd::prelude::*;

use crate::error::VmError;
use crate::opcode::Opcode;

verus! {

/// Relies on `Arc::clone`: the new handle points to the same value.
#[verifier::external_body]
pub(crate) fn share(v: &Arc<IodineObject>) -> (r: Arc<IodineObject>)
    ensures
        r == *v,
{
    Arc::clone(v)
}

/// A mapping from attribute names to values, with unique names.
pub struct AttributeDictionary {
    entries: Vec<(String, Arc<IodineObject>)>,
}

/// The value stored under `key` among `entries`, searching from the back.
pub open spec fn entries_lookup(entries: Seq<(String, Arc<IodineObject>)>, key: Seq<char>) -> Option<
    Arc<IodineObject>,
>
    decreases entries.len(),
{
    if entries.len() == 0 {
        None
    } else if entries.last().0@ == key {
        Some(entries.last().1)
    } else {
        entries_lookup(entries.drop_last(), key)
    }
}

/// No two entries carry the same name.
pub open spec fn entries_unique(entries: Seq<(String, Arc<IodineObject>)>) -> bool {
    forall|i: int, j: int|
        0 <= i < entries.len() && 0 <= j < entries.len() && i != j ==> entries[i].0@
            != entries[j].0@
}

proof fn lemma_lookup_absent(entries: Seq<(String, Arc<IodineObject>)>, key: Seq<char>)
    ensures
        entries_lookup(entries, key) is None <==> forall|i: int|
            0 <= i < entries.len() ==> entries[i].0@ != key,
    decreases entries.len(),
{
    if entries.len() > 0 {
        lemma_lookup_absent(entries.drop_last(), key);
        assert(forall|i: int| 0 <= i < entries.len() - 1 ==> entries.drop_last()[i] == entries[i]);
    }
}

proof fn lemma_lookup_at(entries: Seq<(String, Arc<IodineObject>)>, i: int)
    requires
        entries_unique(entries),
        0 <= i < entries.len(),
    ensures
        entries_lookup(entries, entries[i].0@) == Some(entries[i].1),
    decreases entries.len(),
{
    if i != entries.len() - 1 {
        let d = entries.drop_last();
        assert(d[i] == entries[i]);
        assert(entries_unique(d)) by {
            assert forall|a: int, b: int|
                0 <= a < d.len() && 0 <= b < d.len() && a != b implies d[a].0@ != d[b].0@ by {
                assert(d[a] == entries[a] && d[b] == entries[b]);
            }
        }
        lemma_lookup_at(d, i);
    }
}

proof fn lemma_lookup_same_key(
    a: Seq<(String, Arc<IodineObject>)>,
    b: Seq<(String, Arc<IodineObject>)>,
    key: Seq<char>,
)
    requires
        a.len() == b.len(),
        forall|j: int|
            0 <= j < a.len() ==> #[trigger] a[j].0@ == b[j].0@ && (a[j].0@ == key ==> a[j].1
                == b[j].1),
    ensures
        entries_lookup(a, key) == entries_lookup(b, key),
    decreases a.len(),
{
    if a.len() > 0 {
        let (da, db) = (a.drop_last(), b.drop_last());
        assert forall|j: int| 0 <= j < da.len() implies #[trigger] da[j].0@ == db[j].0@ && (da[j].0@
            == key ==> da[j].1 == db[j].1) by {
            assert(da[j] == a[j] && db[j] == b[j]);
        }
        lemma_lookup_same_key(da, db, key);
        assert(a.last() == a[a.len() - 1] && b.last() == b[b.len() - 1]);
    }
}

impl AttributeDictionary {
    /// The names and values held, as a map.
    pub closed spec fn view(&self) -> Map<Seq<char>, Arc<IodineObject>> {
        Map::new(
            |k: Seq<char>| entries_lookup(self.entries@, k) is Some,
            |k: Seq<char>| entries_lookup(self.entries@, k)->Some_0,
        )
    }

    /// The entries are keyed uniquely.
    pub closed spec fn wf(&self) -> bool {
        entries_unique(self.entries@)
    }

    /// The number of entries.
    pub closed spec fn spec_len(&self) -> nat {
        self.entries@.len()
    }

    /// An empty dictionary.
    pub fn new() -> (r: AttributeDictionary)
        ensures
            r.wf(),
            r@ == Map::<Seq<char>, Arc<IodineObject>>::empty(),
            r.spec_len() == 0,
    {
        let r = AttributeDictionary { entries: Vec::new() };
        assert(r@ =~= Map::<Seq<char>, Arc<IodineObject>>::empty());
        r
    }

    /// The number of entries.
    pub fn len(&self) -> (r: usize)
        requires
            self.wf(),
        ensures
            r == self.spec_len(),
            r == self@.len(),
    {
        proof {
            self.lemma_len();
        }
        self.entries.len()
    }

    proof fn lemma_len(&self)
        requires
            self.wf(),
        ensures
            self@.dom().finite(),
            self@.len() == self.spec_len(),
        decreases self.entries@.len(),
    {
        let e = self.entries@;
        let keys = Seq::new(e.len(), |i: int| e[i].0@);
        assert forall|k: Seq<char>| #[trigger] self@.dom().contains(k) <==> keys.contains(k) by {
            lemma_lookup_absent(e, k);
            if keys.contains(k) {
                let i = choose|i: int| 0 <= i < keys.len() && keys[i] == k;
                assert(e[i].0@ == k);
            }
            if self@.dom().contains(k) {
                let i = choose|i: int| 0 <= i < e.len() && e[i].0@ == k;
                assert(keys[i] == k);
            }
        }
        assert(self@.dom() =~= keys.to_set());
        assert(keys.no_duplicates()) by {
            assert forall|i: int, j: int|
                0 <= i < keys.len() && 0 <= j < keys.len() && i != j implies keys[i]
                != keys[j] by {
                assert(e[i].0@ != e[j].0@);
            }
        }
        keys.unique_seq_to_set();
    }

    /// The value stored under `key`, if any.
    pub fn get(&self, key: &String) -> (r: Option<Arc<IodineObject>>)
        requires
            self.wf(),
        ensures
            r is Some <==> self@.contains_key(key@),
            r matches Some(v) ==> v == self@[key@],
    {
        let mut i: usize = self.entries.len();
        assert(self.entries@.subrange(0, i as int) =~= self.entries@);
        while i > 0
            invariant
                i <= self.entries@.len(),
                entries_lookup(self.entries@.subrange(0, i as int), key@) == entries_lookup(
                    self.entries@,
                    key@,
                ),
            decreases i,
        {
            let ghost prefix = self.entries@.subrange(0, i as int);
            if self.entries[i - 1].0 == *key {
                return Some(share(&self.entries[i - 1].1));
            }
            assert(prefix.drop_last() =~= self.entries@.subrange(0, i - 1));
            i = i - 1;
        }
        None
    }

    /// Stores `value` under `key`, replacing what was stored there.
    pub fn insert(&mut self, key: String, value: Arc<IodineObject>)
        requires
            old(self).wf(),
        ensures
            final(self).wf(),
            final(self)@ == old(self)@.insert(key@, value),
    {
        let ghost old_entries = self.entries@;
        let mut i: usize = 0;
        while i < self.entries.len()
            invariant
                self.entries@ == old_entries,
                old(self).entries@ == old_entries,
                entries_unique(old_entries),
                i <= old_entries.len(),
                forall|j: int| 0 <= j < i ==> old_entries[j].0@ != key@,
            decreases old_entries.len() - i,
        {
            if self.entries[i].0 == key {
                self.entries.set(i, (key, value));
                proof {
                    let e = self.entries@;
                    assert(entries_unique(e)) by {
                        assert forall|a: int, b: int|
                            0 <= a < e.len() && 0 <= b < e.len() && a != b implies e[a].0@
                            != e[b].0@ by {
                            assert(e[a].0@ == old_entries[a].0@);
                            assert(e[b].0@ == old_entries[b].0@);
                        }
                    }
                    assert forall|k: Seq<char>|
                        #[trigger] entries_lookup(e, k) == (if k == key@ {
                            Some(value)
                        } else {
                            entries_lookup(old_entries, k)
                        }) by {
                        if k == key@ {
                            lemma_lookup_at(e, i as int);
                        } else {
                            lemma_lookup_same_key(e, old_entries, k);
                        }
                    }
                    let m = old(self)@.insert(key@, value);
                    assert forall|k: Seq<char>| #[trigger]
                        self@.dom().contains(k) == m.dom().contains(k) && (self@.dom().contains(k)
                            ==> self@[k] == m[k]) by {
                        assert(entries_lookup(e, k) == (if k == key@ {
                            Some(value)
                        } else {
                            entries_lookup(old_entries, k)
                        }));
                    }
                    assert(self@ =~= m);
                }
                return ;
            }
            i = i + 1;
        }
        self.entries.push((key, value));
        proof {
            let e = self.entries@;
            assert(e.drop_last() =~= old_entries);
            assert(entries_unique(e)) by {
                assert forall|a: int, b: int|
                    0 <= a < e.len() && 0 <= b < e.len() && a != b implies e[a].0@ != e[b].0@ by {
                    if a < old_entries.len() && b < old_entries.len() {
                        assert(e[a] == old_entries[a] && e[b] == old_entries[b]);
                    }
                }
            }
            assert(self@ =~= old(self)@.insert(key@, value));
        }
    }
}

/// Every kind of runtime value. Each one carries an attribute dictionary.
pub enum IodineObject {
    IodineString { attribs: AttributeDictionary, value: String },
    CodeObject { attribs: AttributeDictionary, instructions: Vec<Instruction> },
    IodineObject { attribs: AttributeDictionary },
    IodineModule { attribs: AttributeDictionary, name: String, code: Arc<IodineObject> },
    IodineNull { attribs: AttributeDictionary },
    IodineName { attribs: AttributeDictionary, value: String },
    BuiltinMethodCallback { attribs: AttributeDictionary, callback: u64 },
}

/// One record of an instruction stream.
pub struct Instruction {
    pub opcode: Opcode,
    pub argument: i32,
    pub object: Arc<IodineObject>,
}

} // verus!

verus! {

/// The attribute dictionary of any value.
pub open spec fn attributes_of(o: IodineObject) -> AttributeDictionary {
    match o {
        IodineObject::IodineString { attribs, .. } => attribs,
        IodineObject::CodeObject { attribs, .. } => attribs,
        IodineObject::IodineObject { attribs } => attribs,
        IodineObject::IodineModule { attribs, .. } => attribs,
        IodineObject::IodineNull { attribs } => attribs,
        IodineObject::IodineName { attribs, .. } => attribs,
        IodineObject::BuiltinMethodCallback { attribs, .. } => attribs,
    }
}

/// The short type tag of a value.
pub open spec fn type_tag(o: IodineObject) -> Seq<char> {
    match o {
        IodineObject::IodineString { .. } => "Str"@,
        IodineObject::CodeObject { .. } => "Code"@,
        IodineObject::IodineObject { .. } => "Object"@,
        IodineObject::IodineModule { .. } => "Module"@,
        IodineObject::IodineNull { .. } => "Null"@,
        IodineObject::IodineName { .. } => "Name"@,
        IodineObject::BuiltinMethodCallback { .. } => "Builtin"@,
    }
}

/// How a value prints: strings and names show their text, the rest their tag.
pub open spec fn debug_text(o: IodineObject) -> Seq<char> {
    match o {
        IodineObject::IodineString { value, .. } => value@,
        IodineObject::IodineName { value, .. } => value@,
        IodineObject::CodeObject { .. } => "Code"@,
        IodineObject::IodineObject { .. } => "Object"@,
        IodineObject::IodineModule { .. } => "Module"@,
        IodineObject::IodineNull { .. } => "Null"@,
        IodineObject::BuiltinMethodCallback { .. } => "Builtin"@,
    }
}

/// A value with no attributes.
pub open spec fn bare(o: IodineObject) -> bool {
    attributes_of(o).wf() && attributes_of(o)@ == Map::<Seq<char>, Arc<IodineObject>>::empty()
}

/// A bare string value holding `text`.
pub open spec fn is_string_of(o: IodineObject, text: Seq<char>) -> bool {
    &&& bare(o)
    &&& o matches IodineObject::IodineString { value, .. } && value@ == text
}

/// A bare name value holding `text`.
pub open spec fn is_name_of(o: IodineObject, text: Seq<char>) -> bool {
    &&& bare(o)
    &&& o matches IodineObject::IodineName { value, .. } && value@ == text
}

/// The canonical null: a null value with no attributes.
pub open spec fn is_null_value(o: IodineObject) -> bool {
    bare(o) && o is IodineNull
}

impl IodineObject {
    /// A fresh null value with no attributes.
    pub fn null() -> (r: IodineObject)
        ensures
            is_null_value(r),
    {
        IodineObject::IodineNull { attribs: AttributeDictionary::new() }
    }

    /// Appends an instruction to a code object.
    pub fn push_instruction(&mut self, instruction: Instruction) -> (r: Result<(), VmError>)
        ensures
            r is Ok <==> (*old(self)) is CodeObject,
            (*old(self)) is CodeObject ==> (*final(self)) is CodeObject && (*final(self))->CodeObject_instructions@ == (*old(self))->CodeObject_instructions@.push(instruction)
                && (*final(self))->CodeObject_attribs == (*old(self))->CodeObject_attribs,
            !((*old(self)) is CodeObject) ==> *final(self) == *old(self),
    {
        match self {
            IodineObject::CodeObject { instructions, .. } => {
                instructions.push(instruction);
                Ok(())
            },
            _ => Err(VmError::TypeMismatch),
        }
    }

    /// The instructions of a code object.
    pub fn get_instructions(&self) -> (r: Result<&Vec<Instruction>, VmError>)
        ensures
            r is Ok <==> self is CodeObject,
            r matches Ok(v) ==> *v == self->CodeObject_instructions,
            r matches Err(e) ==> e == VmError::TypeMismatch,
    {
        match self {
            IodineObject::CodeObject { instructions, .. } => Ok(instructions),
            _ => Err(VmError::TypeMismatch),
        }
    }

    /// The instructions of a code object, for changing them in place.
    pub fn get_instructions_mut(&mut self) -> (r: Result<&mut Vec<Instruction>, VmError>)
        ensures
            r is Ok <==> (*old(self)) is CodeObject,
            r matches Ok(v) ==> *v == (*old(self))->CodeObject_instructions && (*final(self)) is CodeObject
                && (*final(self))->CodeObject_instructions == *final(v) && (*final(self))->CodeObject_attribs == (*old(self))->CodeObject_attribs,
            r is Err ==> *final(self) == *old(self),
    {
        match self {
            IodineObject::CodeObject { instructions, .. } => Ok(instructions),
            _ => Err(VmError::TypeMismatch),
        }
    }

    /// The short type tag: "Str", "Code", "Object", "Module", "Null", "Name" or "Builtin".
    pub fn get_type(&self) -> (r: String)
        ensures
            r@ == type_tag(*self),
    {
        match self {
            IodineObject::IodineString { .. } => "Str".to_owned(),
            IodineObject::CodeObject { .. } => "Code".to_owned(),
            IodineObject::IodineObject { .. } => "Object".to_owned(),
            IodineObject::IodineModule { .. } => "Module".to_owned(),
            IodineObject::IodineNull { .. } => "Null".to_owned(),
            IodineObject::IodineName { .. } => "Name".to_owned(),
            IodineObject::BuiltinMethodCallback { .. } => "Builtin".to_owned(),
        }
    }

    /// The base type name, which is "Object" for every value.
    pub fn get_base(&self) -> (r: String)
        ensures
            r@ == "Object"@,
    {
        "Object".to_owned()
    }

    /// Attribute lookup is reserved: no value exposes one yet.
    pub fn has_attribute(&self) -> (r: Option<IodineObject>)
        ensures
            r is None,
    {
        None
    }

    /// The printed form: strings and names show their text, the rest their tag.
    pub fn debug_format(&self) -> (r: String)
        ensures
            r@ == debug_text(*self),
    {
        match self {
            IodineObject::IodineString { value, .. } => value.clone(),
            IodineObject::IodineName { value, .. } => value.clone(),
            IodineObject::CodeObject { .. } => "Code".to_owned(),
            IodineObject::IodineObject { .. } => "Object".to_owned(),
            IodineObject::IodineModule { .. } => "Module".to_owned(),
            IodineObject::IodineNull { .. } => "Null".to_owned(),
            IodineObject::BuiltinMethodCallback { .. } => "Builtin".to_owned(),
        }
    }
}

impl Instruction {
    /// The text of the operand, which must be a name.
    pub fn get_string(&self) -> (r: Result<String, VmError>)
        ensures
            r is Ok <==> *self.object is IodineName,
            r matches Ok(s) ==> s@ == self.object->IodineName_value@,
            r matches Err(e) ==> e == VmError::TypeMismatch,
    {
        match &*self.object {
            IodineObject::IodineName { value, .. } => Ok(value.clone()),
            _ => Err(VmError::TypeMismatch),
        }
    }
}

} // verus!
