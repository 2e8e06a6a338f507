//! The generic value bag: a dynamically typed value used to pass request data
//! across the wire boundary. Objects are ordered lists of key/value pairs.

use vstd::prelude::*;

verus! {

/// A generic, dynamically typed value.
#[derive(Debug, PartialEq)]
pub enum Value {
    /// The "no value" marker.
    Null,
    /// A boolean.
    Bool(bool),
    /// An integer.
    Int(i64),
    /// A text value.
    Str(String),
    /// An ordered list of values.
    List(Vec<Value>),
    /// An ordered mapping of names to values.
    Object(Vec<(String, Value)>),
}

/// Whether the keys of an object's entries are pairwise distinct.
pub open spec fn obj_keys_unique(entries: Seq<(String, Value)>) -> bool {
    forall|i: int, j: int|
        0 <= i < j < entries.len() ==> (#[trigger] entries[i]).0@ != (#[trigger] entries[j]).0@
}

/// Whether an object holds an entry under the given key.
pub open spec fn obj_has_key(entries: Seq<(String, Value)>, name: Seq<char>) -> bool {
    exists|j: int| 0 <= j < entries.len() && (#[trigger] entries[j]).0@ == name
}

/// The value an object holds under a key (meaningful when the keys are unique).
pub open spec fn obj_value(entries: Seq<(String, Value)>, name: Seq<char>) -> Value
    recommends
        obj_has_key(entries, name),
{
    entries[choose|j: int| 0 <= j < entries.len() && (#[trigger] entries[j]).0@ == name].1
}

/// A well-formed value bag: an object whose keys are unique.
pub open spec fn bag_wf(bag: Value) -> bool {
    bag matches Value::Object(entries) ==> obj_keys_unique(entries@)
}

impl Value {
    /// Whether this value is an object.
    pub fn is_object(&self) -> (b: bool)
        ensures
            b == (self matches Value::Object(_)),
    {
        match self {
            Value::Object(_) => true,
            _ => false,
        }
    }
}

/// Index of the first entry with the given key, if any.
pub fn obj_find(entries: &Vec<(String, Value)>, name: &String) -> (r: Option<usize>)
    ensures
        match r {
            Some(j) => {
                &&& j < entries@.len()
                &&& entries@[j as int].0@ == name@
                &&& forall|k: int| 0 <= k < j ==> (#[trigger] entries@[k]).0@ != name@
            },
            None => !obj_has_key(entries@, name@),
        },
{
    let mut i: usize = 0;
    while i < entries.len()
        invariant
            i <= entries@.len(),
            forall|k: int| 0 <= k < i ==> (#[trigger] entries@[k]).0@ != name@,
        decreases entries@.len() - i,
    {
        if entries[i].0.eq(name) {
            return Some(i);
        }
        i += 1;
    }
    None
}

/// With unique keys, the value at any index whose key matches is the object's
/// value under that key.
pub proof fn lemma_obj_value_at(entries: Seq<(String, Value)>, j: int)
    requires
        obj_keys_unique(entries),
        0 <= j < entries.len(),
    ensures
        obj_has_key(entries, entries[j].0@),
        obj_value(entries, entries[j].0@) == entries[j].1,
{
    let name = entries[j].0@;
    assert(obj_has_key(entries, name));
    let k = choose|k: int| 0 <= k < entries.len() && (#[trigger] entries[k]).0@ == name;
    if k != j {
        if k < j {
            assert(entries[k].0@ != entries[j].0@);
        } else {
            assert(entries[j].0@ != entries[k].0@);
        }
    }
}

} // verus!
