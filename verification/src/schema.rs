//! The schema model: the in-memory representation of a validation schema,
//! builder-style constructors, and validation of a generic value against a
//! schema.

use vstd::prelude::*;

use crate::error::SpecError;
use crate::value::obj_has_key;
use crate::value::Value;

verus! {

broadcast use vstd::std_specs::vec::axiom_vec_index_decreases;

use vstd::string::StrSliceExecFns;

/// One allowed wire value of an enum schema, with its description.
#[derive(Debug, PartialEq)]
pub struct EnumEntry {
    /// The value as it appears on the wire.
    pub value: String,
    /// Human-readable description of the value.
    pub description: String,
}

/// One named property of an object schema.
#[derive(Debug, PartialEq)]
pub struct Property {
    /// The property name.
    pub name: String,
    /// Whether the property may be absent.
    pub optional: bool,
    /// The schema of the property's value.
    pub schema: Schema,
}

/// Schema for boolean values.
#[derive(Debug, PartialEq)]
pub struct BooleanSchema {
    /// Description of the value.
    pub description: Option<String>,
    /// Default value, if any.
    pub default: Option<bool>,
}

/// Schema for integer values with optional inclusive bounds.
#[derive(Debug, PartialEq)]
pub struct IntegerSchema {
    /// Description of the value.
    pub description: Option<String>,
    /// Inclusive lower bound.
    pub minimum: Option<i64>,
    /// Inclusive upper bound.
    pub maximum: Option<i64>,
    /// Default value, if any.
    pub default: Option<i64>,
}

/// Schema for text values with an optional format reference and inclusive
/// length bounds, counted in characters.
#[derive(Debug, PartialEq)]
pub struct StringSchema {
    /// Description of the value.
    pub description: Option<String>,
    /// Reference to a named format; the pattern is tested by the collaborator
    /// that performs protocol-level decoding, not here.
    pub format: Option<String>,
    /// Inclusive lower bound on the length in characters.
    pub min_length: Option<usize>,
    /// Inclusive upper bound on the length in characters.
    pub max_length: Option<usize>,
    /// Default value, if any.
    pub default: Option<String>,
}

/// Schema for lists whose items all follow one schema.
#[derive(Debug, PartialEq)]
pub struct ArraySchema {
    /// Description of the value.
    pub description: Option<String>,
    /// Schema of each item.
    pub items: Box<Schema>,
}

/// Schema for objects: an ordered mapping of property names to schemas.
#[derive(Debug, PartialEq)]
pub struct ObjectSchema {
    /// Description of the value.
    pub description: Option<String>,
    /// The ordered properties.
    pub properties: Vec<Property>,
    /// Name of the property a single un-keyed scalar maps onto.
    pub default_key: Option<String>,
}

/// Schema restricting a value to one of a fixed, ordered, described set of
/// wire values.
#[derive(Debug, PartialEq)]
pub struct EnumSchema {
    /// Description of the value.
    pub description: Option<String>,
    /// The ordered wire values.
    pub values: Vec<EnumEntry>,
    /// The default wire value, if any; always one of the listed values.
    pub default: Option<String>,
}

/// A validation schema.
#[derive(Debug, PartialEq)]
pub enum Schema {
    /// Boolean values.
    Boolean(BooleanSchema),
    /// Integer values.
    Integer(IntegerSchema),
    /// Text values.
    String(StringSchema),
    /// Lists of uniformly typed values.
    Array(ArraySchema),
    /// Objects with named, optionally required sub-values.
    Object(ObjectSchema),
    /// One of a fixed set of wire values.
    Enum(EnumSchema),
}

/// Index of the first property with the given name, if any.
pub fn prop_find(props: &Vec<Property>, name: &String) -> (r: Option<usize>)
    ensures
        match r {
            Some(p) => {
                &&& p < props@.len()
                &&& props@[p as int].name@ == name@
                &&& forall|k: int| 0 <= k < p ==> (#[trigger] props@[k]).name@ != name@
            },
            None => forall|k: int|
                0 <= k < props@.len() ==> (#[trigger] props@[k]).name@ != name@,
        },
{
    let mut i: usize = 0;
    while i < props.len()
        invariant
            i <= props@.len(),
            forall|k: int| 0 <= k < i ==> (#[trigger] props@[k]).name@ != name@,
        decreases props@.len() - i,
    {
        if props[i].name.eq(name) {
            return Some(i);
        }
        i += 1;
    }
    None
}

/// Whether a value conforms to a schema.
///
/// Integer bounds and string length bounds are inclusive; an enum value must
/// be one of the listed wire names; an object must hold every non-optional
/// property, and each of its entries must conform to the first property
/// declared under its key. A string format reference is carried for the
/// decoding collaborator and not tested here.
pub open spec fn spec_valid(s: Schema, v: Value) -> bool
    decreases s, 3int, 0int,
{
    match s {
        Schema::Boolean(_) => v is Bool,
        Schema::Integer(ischema) => v matches Value::Int(n) && (ischema.minimum matches Some(m) ==> m <= n)
            && (ischema.maximum matches Some(m) ==> n <= m),
        Schema::String(ss) => v matches Value::Str(x) && (ss.min_length matches Some(m) ==> m
            <= x@.len()) && (ss.max_length matches Some(m) ==> x@.len() <= m),
        Schema::Array(ar) => v matches Value::List(items) && (forall|j: int|
            0 <= j < items@.len() ==> spec_valid(*ar.items, #[trigger] items@[j])),
        Schema::Object(os) => v matches Value::Object(entries) && spec_object_ok(os, entries@),
        Schema::Enum(es) => v matches Value::Str(x) && (exists|j: int|
            0 <= j < es.values@.len() && (#[trigger] es.values@[j]).value@ == x@),
    }
}


/// Whether one object entry conforms: the first property declared under its
/// key exists and the entry's value is valid against that property's schema.
pub open spec fn spec_entry_ok(os: ObjectSchema, entries: Seq<(String, Value)>, j: int) -> bool
    decreases os, 0int, 0int,
{
    exists|p: int|
        {
            &&& 0 <= p < os.properties@.len()
            &&& (#[trigger] os.properties@[p]).name@ == entries[j].0@
            &&& (forall|k: int|
                0 <= k < p ==> (#[trigger] os.properties@[k]).name@ != entries[j].0@)
            &&& spec_valid(os.properties@[p].schema, entries[j].1)
        }
}

/// Whether every entry from index `j` on conforms (see [`spec_entry_ok`]).
pub open spec fn spec_entries_ok(os: ObjectSchema, entries: Seq<(String, Value)>, j: int) -> bool
    decreases os, 1int, entries.len() - j,
{
    j >= entries.len() || (spec_entry_ok(os, entries, j) && spec_entries_ok(os, entries, j + 1))
}

/// Whether every non-optional property from index `p` on is present.
pub open spec fn spec_required_ok(os: ObjectSchema, entries: Seq<(String, Value)>, p: int) -> bool
    decreases os, 1int, os.properties@.len() - p,
{
    p >= os.properties@.len() || ((os.properties@[p].optional || obj_has_key(
        entries,
        os.properties@[p].name@,
    )) && spec_required_ok(os, entries, p + 1))
}

/// Whether an object's entries conform to an object schema: every entry
/// conforms to the first property declared under its key, and every
/// non-optional property is present.
pub open spec fn spec_object_ok(os: ObjectSchema, entries: Seq<(String, Value)>) -> bool
    decreases os, 2int, 0int,
{
    spec_entries_ok(os, entries, 0) && spec_required_ok(os, entries, 0)
}

/// Check a value against a schema.
#[verifier::loop_isolation(false)]
#[verifier::rlimit(50)]
pub fn validate(s: &Schema, v: &Value) -> (b: bool)
    ensures
        b == spec_valid(*s, *v),
    decreases *s, 1int,
{
    match s {
        Schema::Boolean(_) => match v {
            Value::Bool(_) => true,
            _ => false,
        },
        Schema::Integer(ischema) => match v {
            Value::Int(n) => {
                let low_ok = match ischema.minimum {
                    Some(m) => m <= *n,
                    None => true,
                };
                let high_ok = match ischema.maximum {
                    Some(m) => *n <= m,
                    None => true,
                };
                low_ok && high_ok
            },
            _ => false,
        },
        Schema::String(ss) => match v {
            Value::Str(x) => {
                let n = x.as_str().unicode_len();
                let low_ok = match ss.min_length {
                    Some(m) => m <= n,
                    None => true,
                };
                let high_ok = match ss.max_length {
                    Some(m) => n <= m,
                    None => true,
                };
                low_ok && high_ok
            },
            _ => false,
        },
        Schema::Array(ar) => match v {
            Value::List(items) => {
                let mut j: usize = 0;
                while j < items.len()
                    invariant
                        j <= items@.len(),
                        forall|k: int|
                            0 <= k < j ==> spec_valid(*ar.items, #[trigger] items@[k]),
                    decreases items@.len() - j,
                {
                    proof {
                        assert(decreases_to!(*s => (*s)->Array_0.items));
                        assert((*s)->Array_0.items == *ar.items);
                    }
                    if !validate(&ar.items, &items[j]) {
                        return false;
                    }
                    j += 1;
                }
                true
            },
            _ => false,
        },
        Schema::Object(os) => match v {
            Value::Object(entries) => {
                proof {
                    assert(decreases_to!(*s => (*s)->Object_0));
                    assert((*s)->Object_0 == *os);
                }
                validate_object(os, entries)
            },
            _ => false,
        },
        Schema::Enum(es) => match v {
            Value::Str(x) => {
                let mut j: usize = 0;
                while j < es.values.len()
                    invariant
                        j <= es.values@.len(),
                        forall|k: int| 0 <= k < j ==> (#[trigger] es.values@[k]).value@ != x@,
                    decreases es.values@.len() - j,
                {
                    if es.values[j].value.eq(x) {
                        return true;
                    }
                    j += 1;
                }
                false
            },
            _ => false,
        },
    }
}

/// Check an object's entries against an object schema.
#[verifier::loop_isolation(false)]
#[verifier::rlimit(50)]
pub fn validate_object(os: &ObjectSchema, entries: &Vec<(String, Value)>) -> (b: bool)
    ensures
        b == spec_object_ok(*os, entries@),
    decreases *os, 0int,
{
    let mut j: usize = 0;
    while j < entries.len()
        invariant
            j <= entries@.len(),
            spec_entries_ok(*os, entries@, 0) == spec_entries_ok(*os, entries@, j as int),
        decreases entries@.len() - j,
    {
        match prop_find(&os.properties, &entries[j].0) {
            Some(p) => {
                proof {
                    assert(decreases_to!(*os => (*os).properties));
                    assert(decreases_to!((*os).properties => (*os).properties[p as int]));
                    assert(decreases_to!(
                        (*os).properties[p as int] => (*os).properties[p as int].schema));
                    assert((*os).properties[p as int].schema == os.properties@[p as int].schema);
                }
                if !validate(&os.properties[p].schema, &entries[j].1) {
                    proof {
                        assert(!spec_entry_ok(*os, entries@, j as int));
                        assert(!spec_entries_ok(*os, entries@, j as int));
                    }
                    return false;
                }
                proof {
                    assert(spec_entry_ok(*os, entries@, j as int));
                }
            },
            None => {
                proof {
                    assert(!spec_entry_ok(*os, entries@, j as int));
                    assert(!spec_entries_ok(*os, entries@, j as int));
                }
                return false;
            },
        }
        j += 1;
    }
    proof {
        assert(spec_entries_ok(*os, entries@, entries@.len() as int));
    }
    let mut p: usize = 0;
    while p < os.properties.len()
        invariant
            p <= os.properties@.len(),
            spec_required_ok(*os, entries@, 0) == spec_required_ok(*os, entries@, p as int),
        decreases os.properties@.len() - p,
    {
        if !os.properties[p].optional {
            match crate::value::obj_find(entries, &os.properties[p].name) {
                Some(_) => {},
                None => {
                    proof {
                        assert(!spec_required_ok(*os, entries@, p as int));
                    }
                    return false;
                },
            }
        }
        p += 1;
    }
    proof {
        assert(spec_required_ok(*os, entries@, os.properties@.len() as int));
    }
    true
}

impl BooleanSchema {
    /// A boolean schema with the given description.
    pub fn new(description: String) -> (r: BooleanSchema)
        ensures
            r.description == Some(description),
            r.default is None,
    {
        BooleanSchema { description: Some(description), default: None }
    }

    /// Finalize into a schema.
    pub fn schema(self) -> (r: Schema)
        ensures
            r == Schema::Boolean(self),
    {
        Schema::Boolean(self)
    }
}

impl IntegerSchema {
    /// An integer schema with the given description and no bounds.
    pub fn new(description: String) -> (r: IntegerSchema)
        ensures
            r.description == Some(description),
            r.minimum is None,
            r.maximum is None,
            r.default is None,
    {
        IntegerSchema { description: Some(description), minimum: None, maximum: None, default: None }
    }

    /// Set the inclusive lower bound.
    pub fn minimum(self, m: i64) -> (r: IntegerSchema)
        ensures
            r == (IntegerSchema { minimum: Some(m), ..self }),
    {
        IntegerSchema { minimum: Some(m), ..self }
    }

    /// Set the inclusive upper bound.
    pub fn maximum(self, m: i64) -> (r: IntegerSchema)
        ensures
            r == (IntegerSchema { maximum: Some(m), ..self }),
    {
        IntegerSchema { maximum: Some(m), ..self }
    }

    /// Finalize into a schema.
    pub fn schema(self) -> (r: Schema)
        ensures
            r == Schema::Integer(self),
    {
        Schema::Integer(self)
    }
}

impl StringSchema {
    /// A string schema with the given description and no format or bounds.
    pub fn new(description: String) -> (r: StringSchema)
        ensures
            r.description == Some(description),
            r.format is None,
            r.min_length is None,
            r.max_length is None,
            r.default is None,
    {
        StringSchema {
            description: Some(description),
            format: None,
            min_length: None,
            max_length: None,
            default: None,
        }
    }

    /// Set the format reference.
    pub fn format(self, f: String) -> (r: StringSchema)
        ensures
            r == (StringSchema { format: Some(f), ..self }),
    {
        StringSchema { format: Some(f), ..self }
    }

    /// Set the inclusive lower length bound, in characters.
    pub fn min_length(self, n: usize) -> (r: StringSchema)
        ensures
            r == (StringSchema { min_length: Some(n), ..self }),
    {
        StringSchema { min_length: Some(n), ..self }
    }

    /// Set the inclusive upper length bound, in characters.
    pub fn max_length(self, n: usize) -> (r: StringSchema)
        ensures
            r == (StringSchema { max_length: Some(n), ..self }),
    {
        StringSchema { max_length: Some(n), ..self }
    }

    /// Finalize into a schema.
    pub fn schema(self) -> (r: Schema)
        ensures
            r == Schema::String(self),
    {
        Schema::String(self)
    }
}

impl ArraySchema {
    /// An array schema whose items follow the given schema.
    pub fn new(description: String, items: Schema) -> (r: ArraySchema)
        ensures
            r.description == Some(description),
            *r.items == items,
    {
        ArraySchema { description: Some(description), items: Box::new(items) }
    }

    /// Finalize into a schema.
    pub fn schema(self) -> (r: Schema)
        ensures
            r == Schema::Array(self),
    {
        Schema::Array(self)
    }
}

impl ObjectSchema {
    /// An object schema with the given ordered properties.
    pub fn new(description: String, properties: Vec<Property>) -> (r: ObjectSchema)
        ensures
            r.description == Some(description),
            r.properties == properties,
            r.default_key is None,
    {
        ObjectSchema { description: Some(description), properties, default_key: None }
    }

    /// Set the property a single un-keyed scalar maps onto.
    pub fn default_key(self, key: String) -> (r: ObjectSchema)
        ensures
            r == (ObjectSchema { default_key: Some(key), ..self }),
    {
        ObjectSchema { default_key: Some(key), ..self }
    }

    /// Finalize into a schema.
    pub fn schema(self) -> (r: Schema)
        ensures
            r == Schema::Object(self),
    {
        Schema::Object(self)
    }
}

/// Index of the first enum entry from `from` on whose wire value matches.
fn enum_find(values: &Vec<EnumEntry>, name: &String, from: usize) -> (r: Option<usize>)
    ensures
        match r {
            Some(j) => {
                &&& from <= j < values@.len()
                &&& values@[j as int].value@ == name@
                &&& forall|k: int| from <= k < j ==> (#[trigger] values@[k]).value@ != name@
            },
            None => forall|k: int|
                from <= k < values@.len() ==> (#[trigger] values@[k]).value@ != name@,
        },
{
    let mut i: usize = from;
    while i < values.len()
        invariant
            from <= i,
            i <= values@.len() || from >= values@.len(),
            forall|k: int| from <= k < i ==> (#[trigger] values@[k]).value@ != name@,
        decreases values@.len() - i,
    {
        if values[i].value.eq(name) {
            return Some(i);
        }
        i += 1;
    }
    None
}

/// The first index whose wire value equals `name`, if any: the decoding
/// direction of the enum's text conversion.
pub open spec fn spec_enum_decode(values: Seq<EnumEntry>, name: Seq<char>) -> Option<int>
    decreases values.len(),
{
    if values.len() == 0 {
        None
    } else if values[0].value@ == name {
        Some(0)
    } else {
        match spec_enum_decode(values.drop_first(), name) {
            Some(j) => Some(j + 1),
            None => None,
        }
    }
}

/// Decoding skips a prefix without a match: the result on the whole list is
/// the result on the suffix, shifted by the prefix length.
pub proof fn lemma_enum_decode_skip(values: Seq<EnumEntry>, name: Seq<char>, i: int)
    requires
        0 <= i <= values.len(),
        forall|k: int| 0 <= k < i ==> (#[trigger] values[k]).value@ != name,
    ensures
        spec_enum_decode(values, name) == match spec_enum_decode(values.skip(i), name) {
            Some(j) => Some(j + i),
            None => None::<int>,
        },
    decreases i,
{
    if i == 0 {
        assert(values.skip(0) =~= values);
    } else {
        lemma_enum_decode_skip(values, name, i - 1);
        let suffix = values.skip(i - 1);
        assert(suffix[0] == values[i - 1]);
        assert(suffix.drop_first() =~= values.skip(i));
        assert(suffix[0].value@ != name);
    }
}

impl EnumSchema {
    /// An enum schema over the given ordered wire values, without a default.
    pub fn new(description: String, values: Vec<EnumEntry>) -> (r: EnumSchema)
        ensures
            r.description == Some(description),
            r.values == values,
            r.default is None,
    {
        EnumSchema { description: Some(description), values, default: None }
    }

    /// Set the default wire value.
    ///
    /// Fails when the name is unknown or matches more than one listed value.
    pub fn set_default(self, name: String) -> (r: Result<EnumSchema, SpecError>)
        ensures
            match r {
                Ok(s) => {
                    &&& s == (EnumSchema { default: Some(name), ..self })
                    &&& exists|j: int|
                        0 <= j < self.values@.len() && (#[trigger] self.values@[j]).value@ == name@
                    &&& forall|i: int, j: int|
                        0 <= i < j < self.values@.len() && (#[trigger] self.values@[i]).value@
                            == name@ ==> (#[trigger] self.values@[j]).value@ != name@
                },
                Err(e) => {
                    &&& (e is DefaultNotInValues ==> e == SpecError::DefaultNotInValues(name)
                        && !exists|j: int|
                        0 <= j < self.values@.len() && (#[trigger] self.values@[j]).value@ == name@)
                    &&& ((!exists|j: int|
                        0 <= j < self.values@.len() && (#[trigger] self.values@[j]).value@ == name@)
                        ==> e == SpecError::DefaultNotInValues(name))
                    &&& (e is DuplicateDefaultValue ==> e == SpecError::DuplicateDefaultValue(name)
                        && exists|i: int, j: int|
                        0 <= i < j < self.values@.len() && (#[trigger] self.values@[i]).value@
                            == name@ && (#[trigger] self.values@[j]).value@ == name@)
                    &&& (e is DefaultNotInValues || e is DuplicateDefaultValue)
                },
            },
    {
        match enum_find(&self.values, &name, 0) {
            None => Err(SpecError::DefaultNotInValues(name)),
            Some(j) => {
                if j < self.values.len() - 1 {
                    match enum_find(&self.values, &name, j + 1) {
                        Some(_) => {
                            return Err(SpecError::DuplicateDefaultValue(name));
                        },
                        None => {},
                    }
                }
                Ok(EnumSchema { default: Some(name), ..self })
            },
        }
    }

    /// The wire name of the value at an index: the encoding direction of the
    /// enum's text conversion.
    pub fn encode_index(&self, i: usize) -> (r: &String)
        requires
            i < self.values@.len(),
        ensures
            r@ == self.values@[i as int].value@,
    {
        &self.values[i].value
    }

    /// The index of a wire name: the decoding direction of the enum's text
    /// conversion.
    pub fn decode_name(&self, name: &String) -> (r: Option<usize>)
        ensures
            match r {
                Some(j) => spec_enum_decode(self.values@, name@) == Some(j as int),
                None => spec_enum_decode(self.values@, name@) is None,
            },
    {
        let r = enum_find(&self.values, name, 0);
        proof {
            match r {
                Some(j) => {
                    lemma_enum_decode_skip(self.values@, name@, j as int);
                    let suffix = self.values@.skip(j as int);
                    assert(suffix[0] == self.values@[j as int]);
                },
                None => {
                    lemma_enum_decode_skip(self.values@, name@, self.values@.len() as int);
                    assert(self.values@.skip(self.values@.len() as int) =~= Seq::empty());
                },
            }
        }
        r
    }
}

/// Wire names round-trip: for every index, decoding the encoded wire name
/// yields the index again, provided the wire names are pairwise distinct.
pub proof fn lemma_enum_round_trip(values: Seq<EnumEntry>, i: int)
    requires
        0 <= i < values.len(),
        forall|a: int, b: int|
            0 <= a < b < values.len() ==> (#[trigger] values[a]).value@ != (
            #[trigger] values[b]).value@,
    ensures
        spec_enum_decode(values, values[i].value@) == Some(i),
{
    let name = values[i].value@;
    assert forall|k: int| 0 <= k < i implies (#[trigger] values[k]).value@ != name by {
        assert(values[k].value@ != values[i].value@);
    }
    lemma_enum_decode_skip(values, name, i);
    let suffix = values.skip(i);
    assert(suffix[0] == values[i]);
}

/// Structural equality of schemas: equal leaf fields, and componentwise
/// equal children.
pub open spec fn schema_equiv(a: Schema, b: Schema) -> bool
    decreases a,
{
    match a {
        Schema::Boolean(x) => b matches Schema::Boolean(y) && x == y,
        Schema::Integer(x) => b matches Schema::Integer(y) && x == y,
        Schema::String(x) => b matches Schema::String(y) && x == y,
        Schema::Array(x) => b matches Schema::Array(y) && x.description == y.description
            && schema_equiv(*x.items, *y.items),
        Schema::Object(x) => b matches Schema::Object(y) && {
            &&& x.description == y.description
            &&& x.default_key == y.default_key
            &&& x.properties@.len() == y.properties@.len()
            &&& forall|i: int|
                0 <= i < x.properties@.len() ==> {
                    &&& (#[trigger] x.properties@[i]).name == (#[trigger] y.properties@[i]).name
                    &&& x.properties@[i].optional == y.properties@[i].optional
                    &&& schema_equiv(x.properties@[i].schema, y.properties@[i].schema)
                }
        },
        Schema::Enum(x) => b matches Schema::Enum(y) && {
            &&& x.description == y.description
            &&& x.default == y.default
            &&& x.values@.len() == y.values@.len()
            &&& forall|i: int|
                0 <= i < x.values@.len() ==> (#[trigger] x.values@[i]) == (#[trigger] y.values@[i])
        },
    }
}

/// A deep copy of a schema, structurally equal to the original.
#[verifier::loop_isolation(false)]
pub fn clone_schema(s: &Schema) -> (r: Schema)
    ensures
        schema_equiv(*s, r),
    decreases *s,
{
    match s {
        Schema::Boolean(bs) => Schema::Boolean(
            BooleanSchema { description: clone_opt_string(&bs.description), default: bs.default },
        ),
        Schema::Integer(ischema) => Schema::Integer(
            IntegerSchema {
                description: clone_opt_string(&ischema.description),
                minimum: ischema.minimum,
                maximum: ischema.maximum,
                default: ischema.default,
            },
        ),
        Schema::String(ss) => Schema::String(
            StringSchema {
                description: clone_opt_string(&ss.description),
                format: clone_opt_string(&ss.format),
                min_length: ss.min_length,
                max_length: ss.max_length,
                default: clone_opt_string(&ss.default),
            },
        ),
        Schema::Array(ar) => {
            proof {
                assert(decreases_to!(*s => (*s)->Array_0.items));
                assert((*s)->Array_0.items == *ar.items);
            }
            Schema::Array(
                ArraySchema {
                    description: clone_opt_string(&ar.description),
                    items: Box::new(clone_schema(&ar.items)),
                },
            )
        },
        Schema::Object(os) => {
            let mut props: Vec<Property> = Vec::new();
            let mut i: usize = 0;
            while i < os.properties.len()
                invariant
                    i <= os.properties@.len(),
                    props@.len() == i,
                    forall|k: int|
                        0 <= k < i ==> {
                            &&& (#[trigger] os.properties@[k]).name == (#[trigger] props@[k]).name
                            &&& os.properties@[k].optional == props@[k].optional
                            &&& schema_equiv(os.properties@[k].schema, props@[k].schema)
                        },
                decreases os.properties@.len() - i,
            {
                proof {
                    assert(decreases_to!(*s => (*s)->Object_0));
                    assert((*s)->Object_0 == *os);
                    assert(decreases_to!(*os => (*os).properties));
                    assert(decreases_to!((*os).properties => (*os).properties[i as int]));
                    assert(decreases_to!(
                        (*os).properties[i as int] => (*os).properties[i as int].schema));
                    assert((*os).properties[i as int].schema == os.properties@[i as int].schema);
                }
                let p = Property {
                    name: os.properties[i].name.clone(),
                    optional: os.properties[i].optional,
                    schema: clone_schema(&os.properties[i].schema),
                };
                props.push(p);
                i += 1;
            }
            Schema::Object(
                ObjectSchema {
                    description: clone_opt_string(&os.description),
                    properties: props,
                    default_key: clone_opt_string(&os.default_key),
                },
            )
        },
        Schema::Enum(es) => {
            let mut values: Vec<EnumEntry> = Vec::new();
            let mut i: usize = 0;
            while i < es.values.len()
                invariant
                    i <= es.values@.len(),
                    values@.len() == i,
                    forall|k: int| 0 <= k < i ==> values@[k] == es.values@[k],
                decreases es.values@.len() - i,
            {
                values.push(
                    EnumEntry {
                        value: es.values[i].value.clone(),
                        description: es.values[i].description.clone(),
                    },
                );
                i += 1;
            }
            proof {
                assert(values@ =~= es.values@);
            }
            Schema::Enum(
                EnumSchema {
                    description: clone_opt_string(&es.description),
                    values,
                    default: clone_opt_string(&es.default),
                },
            )
        },
    }
}

/// A copy of an optional string, equal to the original.
pub fn clone_opt_string(s: &Option<String>) -> (r: Option<String>)
    ensures
        r == *s,
{
    match s {
        Some(x) => Some(x.clone()),
        None => None,
    }
}

/// Admit a single un-keyed scalar for an object schema that declares a
/// default key: the scalar becomes the value of that named property. An
/// object passes through unchanged; a scalar without a declared default key
/// is refused as a non-object value.
pub fn apply_default_key(os: &ObjectSchema, bag: Value) -> (r: Result<Value, crate::error::DispatchError>)
    ensures
        bag is Object ==> r == Ok::<Value, crate::error::DispatchError>(bag),
        !(bag is Object) && os.default_key is None ==> r == Err::<
            Value,
            crate::error::DispatchError,
        >(crate::error::DispatchError::NonObject),
        !(bag is Object) ==> (os.default_key matches Some(k) ==> (r matches Ok(b) && b matches
            Value::Object(entries) && entries@.len() == 1 && entries@[0].0@ == k@ && entries@[0].1
            == bag)),
{
    match &bag {
        Value::Object(_) => Ok(bag),
        _ => match &os.default_key {
            Some(k) => {
                let entries: Vec<(String, Value)> = vec![(k.clone(), bag)];
                Ok(Value::Object(entries))
            },
            None => Err(crate::error::DispatchError::NonObject),
        },
    }
}

} // verus!
