//! The attribute parser: turns a nested declarative description into a
//! schema tree. Every unknown key, at any nesting level, is a fatal error
//! naming that key.

use vstd::prelude::*;

use crate::error::SpecError;
use crate::registry::spec_registry_find;
use crate::registry::SchemaRegistry;
use crate::schema::clone_schema;
use crate::schema::schema_equiv;
use crate::schema::BooleanSchema;
use crate::schema::IntegerSchema;
use crate::schema::ObjectSchema;
use crate::schema::Property;
use crate::schema::Schema;
use crate::schema::StringSchema;
use crate::strutil::str_eq;

verus! {

broadcast use vstd::std_specs::vec::axiom_vec_index_decreases, vstd::std_specs::vec::axiom_vec_decreases_to_view;

/// One value of a declarative description: a scalar, a reference to a named
/// type's registered schema, or a nested mapping.
#[derive(Debug, PartialEq)]
pub enum DeclValue {
    /// A boolean scalar.
    Bool(bool),
    /// An integer scalar.
    Int(i64),
    /// A text scalar.
    Str(String),
    /// A reference to a named type's schema.
    SchemaRef(String),
    /// A nested mapping of keys to values, in order.
    Mapping(Vec<(String, DeclValue)>),
}

/// The keys the schema description format knows.
pub open spec fn spec_known_key(k: Seq<char>, in_property: bool) -> bool {
    ||| k == "type"@
    ||| k == "schema"@
    ||| k == "description"@
    ||| k == "format"@
    ||| k == "min_length"@
    ||| k == "max_length"@
    ||| k == "minimum"@
    ||| k == "maximum"@
    ||| k == "default"@
    ||| k == "default_key"@
    ||| k == "properties"@
    ||| (in_property && k == "optional"@)
}

/// The builtin names a `type` tag may hold.
pub open spec fn spec_builtin_type(t: Seq<char>) -> bool {
    t == "String"@ || t == "Integer"@ || t == "Boolean"@ || t == "Object"@
}

/// Whether a length bound fits the machine's size type.
pub open spec fn spec_fits_len(n: i64) -> bool {
    0 <= n <= usize::MAX
}

/// Whether one entry of a schema description is acceptable at its place:
/// known key, no earlier entry with the same key, and a rightly shaped value.
pub open spec fn spec_entry_shape_ok(
    entries: Seq<(String, DeclValue)>,
    i: int,
    in_property: bool,
    reg: Seq<(String, Schema)>,
) -> bool {
    let k = entries[i].0@;
    let v = entries[i].1;
    &&& spec_known_key(k, in_property)
    &&& (forall|t: int| 0 <= t < i ==> (#[trigger] entries[t]).0@ != k)
    &&& (k == "type"@ ==> (v matches DeclValue::Str(s) && spec_builtin_type(s@)) || v is SchemaRef)
    &&& (k == "schema"@ ==> v is SchemaRef)
    &&& ((k == "type"@ || k == "schema"@) ==> (v matches DeclValue::SchemaRef(n)
        ==> spec_registry_find(reg, n@) is Some))
    &&& (k == "description"@ ==> v is Str)
    &&& (k == "format"@ ==> v is Str)
    &&& (k == "min_length"@ ==> (v matches DeclValue::Int(n) && spec_fits_len(n)))
    &&& (k == "max_length"@ ==> (v matches DeclValue::Int(n) && spec_fits_len(n)))
    &&& (k == "minimum"@ ==> v is Int)
    &&& (k == "maximum"@ ==> v is Int)
    &&& (k == "default"@ ==> v is Bool || v is Int || v is Str)
    &&& (k == "default_key"@ ==> v is Str)
    &&& (k == "optional"@ ==> v is Bool)
    &&& (k == "properties"@ ==> v is Mapping)
}

/// The error one entry of a schema description produces, when its shape is
/// not acceptable: an unknown key names the key, everything else names the
/// key as badly valued, except an unknown schema reference, which names the
/// referenced type.
pub open spec fn spec_entry_err(
    entries: Seq<(String, DeclValue)>,
    i: int,
    in_property: bool,
    reg: Seq<(String, Schema)>,
) -> SpecError {
    let k = entries[i].0@;
    let v = entries[i].1;
    if !spec_known_key(k, in_property) {
        SpecError::UnknownKey(entries[i].0)
    } else if exists|t: int| 0 <= t < i && (#[trigger] entries[t]).0@ == k {
        SpecError::BadValue(entries[i].0)
    } else if (k == "type"@ || k == "schema"@) && v is SchemaRef && spec_registry_find(
        reg,
        v->SchemaRef_0@,
    ) is None {
        SpecError::UnknownSchemaRef(v->SchemaRef_0)
    } else {
        SpecError::BadValue(entries[i].0)
    }
}

/// The first error of a schema description from entry `i` on: the first
/// entry that is unknown, repeated or badly shaped, then, for a `properties`
/// mapping, the first error inside any property, in order.
pub open spec fn spec_map_err(
    entries: Seq<(String, DeclValue)>,
    i: int,
    in_property: bool,
    reg: Seq<(String, Schema)>,
) -> Option<SpecError>
    decreases entries, 1int, entries.len() - i,
        via spec_map_err_decreases
{
    if i < 0 || i >= entries.len() {
        None
    } else if !spec_entry_shape_ok(entries, i, in_property, reg) {
        Some(spec_entry_err(entries, i, in_property, reg))
    } else {
        let nested: Option<SpecError> = if entries[i].0@ == "properties"@ {
            match entries[i].1 {
                DeclValue::Mapping(props) => spec_props_err(props@, 0, reg),
                _ => Some(SpecError::BadValue(entries[i].0)),
            }
        } else {
            None
        };
        if nested is Some {
            nested
        } else {
            spec_map_err(entries, i + 1, in_property, reg)
        }
    }
}

/// The first error among the properties of an object description from
/// property `j` on.
pub open spec fn spec_props_err(
    props: Seq<(String, DeclValue)>,
    j: int,
    reg: Seq<(String, Schema)>,
) -> Option<SpecError>
    decreases props, 1int, props.len() - j,
        via spec_props_err_decreases
{
    if j < 0 || j >= props.len() {
        None
    } else {
        match props[j].1 {
            DeclValue::Mapping(pe) => {
                let nested = spec_map_err(pe@, 0, true, reg);
                if nested is Some {
                    nested
                } else {
                    spec_props_err(props, j + 1, reg)
                }
            },
            _ => Some(SpecError::BadValue(props[j].0)),
        }
    }
}

#[via_fn]
proof fn spec_map_err_decreases(
    entries: Seq<(String, DeclValue)>,
    i: int,
    in_property: bool,
    reg: Seq<(String, Schema)>,
) {
    if 0 <= i < entries.len() {
        assert(decreases_to!(entries => entries[i]));
        assert(decreases_to!(entries[i] => entries[i].1));
        if entries[i].1 is Mapping {
            assert(decreases_to!(entries[i].1 => entries[i].1->Mapping_0));
            assert(decreases_to!(entries[i].1->Mapping_0 => entries[i].1->Mapping_0@));
            assert(decreases_to!(
                entries, 1int, entries.len() - i =>
                entries[i].1->Mapping_0@, 1int, entries[i].1->Mapping_0@.len() - 0));
        }
    }
}

#[via_fn]
proof fn spec_props_err_decreases(
    props: Seq<(String, DeclValue)>,
    j: int,
    reg: Seq<(String, Schema)>,
) {
    if 0 <= j < props.len() {
        assert(decreases_to!(props => props[j]));
        assert(decreases_to!(props[j] => props[j].1));
        if props[j].1 is Mapping {
            assert(decreases_to!(props[j].1 => props[j].1->Mapping_0));
            assert(decreases_to!(props[j].1->Mapping_0 => props[j].1->Mapping_0@));
            assert(decreases_to!(
                props, 1int, props.len() - j =>
                props[j].1->Mapping_0@, 1int, props[j].1->Mapping_0@.len() - 0));
        }
    }
}

/// The first entry with the given key, if any, by index.
pub open spec fn spec_key_find(entries: Seq<(String, DeclValue)>, key: Seq<char>) -> Option<int> {
    if exists|t: int| 0 <= t < entries.len() && (#[trigger] entries[t]).0@ == key {
        Some(choose|t: int| 0 <= t < entries.len() && (#[trigger] entries[t]).0@ == key)
    } else {
        None
    }
}

/// The value under the given key, if any.
pub open spec fn spec_decl_get(entries: Seq<(String, DeclValue)>, key: Seq<char>) -> Option<
    DeclValue,
> {
    match spec_key_find(entries, key) {
        Some(t) => Some(entries[t].1),
        None => None,
    }
}

/// Whether an option of a string holds exactly the `Str` value declared
/// under a key, and is empty when the key is absent or not a `Str`.
pub open spec fn spec_str_component(
    entries: Seq<(String, DeclValue)>,
    key: Seq<char>,
    v: Option<String>,
) -> bool {
    match spec_decl_get(entries, key) {
        Some(DeclValue::Str(s)) => v matches Some(x) && x@ == s@,
        _ => v is None,
    }
}

/// Whether an option of a length bound holds exactly the `Int` value
/// declared under a key.
pub open spec fn spec_len_component(
    entries: Seq<(String, DeclValue)>,
    key: Seq<char>,
    v: Option<usize>,
) -> bool {
    match spec_decl_get(entries, key) {
        Some(DeclValue::Int(n)) => if spec_fits_len(n) {
            v matches Some(x) && x as int == n as int
        } else {
            v is None
        },
        _ => v is None,
    }
}

/// Whether an option of an integer bound holds exactly the `Int` value
/// declared under a key.
pub open spec fn spec_int_component(
    entries: Seq<(String, DeclValue)>,
    key: Seq<char>,
    v: Option<i64>,
) -> bool {
    match spec_decl_get(entries, key) {
        Some(DeclValue::Int(n)) => v == Some(n),
        _ => v is None,
    }
}

/// Whether a property description marks the property optional.
pub open spec fn spec_prop_optional(pe: Seq<(String, DeclValue)>) -> bool {
    spec_decl_get(pe, "optional"@) == Some(DeclValue::Bool(true))
}

/// Whether a schema is the one a reference names: structurally equal to the
/// registered schema.
pub open spec fn spec_ref_resolves(
    reg: Seq<(String, Schema)>,
    name: Seq<char>,
    s: Schema,
) -> bool {
    spec_registry_find(reg, name) matches Some(t) && schema_equiv(reg[t].1, s)
}

/// Whether a schema is what a (well-shaped) schema description describes:
/// the variant the `type` tag picks, defaulting to an object description
/// when `properties` is present and to a string schema otherwise, with the
/// declared components, and properties parsed in declaration order.
pub open spec fn spec_parses_to(
    entries: Seq<(String, DeclValue)>,
    reg: Seq<(String, Schema)>,
    s: Schema,
) -> bool
    decreases entries, 3int, 0int,
{
    match spec_decl_get(entries, "type"@) {
        Some(DeclValue::Str(t)) => if t@ == "String"@ {
            spec_parses_to_string(entries, s)
        } else if t@ == "Integer"@ {
            spec_parses_to_integer(entries, s)
        } else if t@ == "Boolean"@ {
            spec_parses_to_boolean(entries, s)
        } else if t@ == "Object"@ {
            spec_parses_to_object(entries, reg, s)
        } else {
            false
        },
        Some(DeclValue::SchemaRef(n)) => spec_ref_resolves(reg, n@, s),
        Some(_) => false,
        None => match spec_decl_get(entries, "schema"@) {
            Some(DeclValue::SchemaRef(n)) => spec_ref_resolves(reg, n@, s),
            Some(_) => false,
            None => if spec_decl_get(entries, "properties"@) is Some {
                spec_parses_to_object(entries, reg, s)
            } else {
                spec_parses_to_string(entries, s)
            },
        },
    }
}

/// The string schema a description describes.
pub open spec fn spec_parses_to_string(entries: Seq<(String, DeclValue)>, s: Schema) -> bool {
    s matches Schema::String(ss) && {
        &&& spec_str_component(entries, "description"@, ss.description)
        &&& spec_str_component(entries, "format"@, ss.format)
        &&& spec_len_component(entries, "min_length"@, ss.min_length)
        &&& spec_len_component(entries, "max_length"@, ss.max_length)
        &&& spec_str_component(entries, "default"@, ss.default)
    }
}

/// The integer schema a description describes.
pub open spec fn spec_parses_to_integer(entries: Seq<(String, DeclValue)>, s: Schema) -> bool {
    s matches Schema::Integer(ischema) && {
        &&& spec_str_component(entries, "description"@, ischema.description)
        &&& spec_int_component(entries, "minimum"@, ischema.minimum)
        &&& spec_int_component(entries, "maximum"@, ischema.maximum)
        &&& spec_int_component(entries, "default"@, ischema.default)
    }
}

/// The boolean schema a description describes.
pub open spec fn spec_parses_to_boolean(entries: Seq<(String, DeclValue)>, s: Schema) -> bool {
    s matches Schema::Boolean(bs) && {
        &&& spec_str_component(entries, "description"@, bs.description)
        &&& (match spec_decl_get(entries, "default"@) {
            Some(DeclValue::Bool(b)) => bs.default == Some(b),
            _ => bs.default is None,
        })
    }
}

/// The object schema a description describes: one property per entry of the
/// `properties` mapping, in declaration order.
pub open spec fn spec_parses_to_object(
    entries: Seq<(String, DeclValue)>,
    reg: Seq<(String, Schema)>,
    s: Schema,
) -> bool
    decreases entries, 2int, 0int,
{
    s matches Schema::Object(os) && {
        &&& spec_str_component(entries, "description"@, os.description)
        &&& spec_str_component(entries, "default_key"@, os.default_key)
        &&& (match spec_decl_get(entries, "properties"@) {
            Some(DeclValue::Mapping(props)) => {
                &&& os.properties@.len() == props@.len()
                &&& forall|j: int|
                    0 <= j < props@.len() ==> {
                        &&& (#[trigger] os.properties@[j]).name@ == (#[trigger] props@[j]).0@
                        &&& props@[j].1 matches DeclValue::Mapping(pe) && os.properties@[j].optional
                            == spec_prop_optional(pe@) && spec_parses_to(
                            pe@,
                            reg,
                            os.properties@[j].schema,
                        )
                    }
            },
            Some(_) => false,
            None => os.properties@.len() == 0,
        })
    }
}

/// The key words of the declarative format are pairwise distinct.
pub(crate) proof fn lemma_keys_distinct()
    ensures
        "type"@ != "schema"@,
        "type"@ != "description"@,
        "type"@ != "format"@,
        "type"@ != "min_length"@,
        "type"@ != "max_length"@,
        "type"@ != "minimum"@,
        "type"@ != "maximum"@,
        "type"@ != "default"@,
        "type"@ != "default_key"@,
        "type"@ != "properties"@,
        "type"@ != "optional"@,
        "type"@ != "String"@,
        "type"@ != "Integer"@,
        "type"@ != "Boolean"@,
        "type"@ != "Object"@,
        "schema"@ != "description"@,
        "schema"@ != "format"@,
        "schema"@ != "min_length"@,
        "schema"@ != "max_length"@,
        "schema"@ != "minimum"@,
        "schema"@ != "maximum"@,
        "schema"@ != "default"@,
        "schema"@ != "default_key"@,
        "schema"@ != "properties"@,
        "schema"@ != "optional"@,
        "schema"@ != "String"@,
        "schema"@ != "Integer"@,
        "schema"@ != "Boolean"@,
        "schema"@ != "Object"@,
        "description"@ != "format"@,
        "description"@ != "min_length"@,
        "description"@ != "max_length"@,
        "description"@ != "minimum"@,
        "description"@ != "maximum"@,
        "description"@ != "default"@,
        "description"@ != "default_key"@,
        "description"@ != "properties"@,
        "description"@ != "optional"@,
        "description"@ != "String"@,
        "description"@ != "Integer"@,
        "description"@ != "Boolean"@,
        "description"@ != "Object"@,
        "format"@ != "min_length"@,
        "format"@ != "max_length"@,
        "format"@ != "minimum"@,
        "format"@ != "maximum"@,
        "format"@ != "default"@,
        "format"@ != "default_key"@,
        "format"@ != "properties"@,
        "format"@ != "optional"@,
        "format"@ != "String"@,
        "format"@ != "Integer"@,
        "format"@ != "Boolean"@,
        "format"@ != "Object"@,
        "min_length"@ != "max_length"@,
        "min_length"@ != "minimum"@,
        "min_length"@ != "maximum"@,
        "min_length"@ != "default"@,
        "min_length"@ != "default_key"@,
        "min_length"@ != "properties"@,
        "min_length"@ != "optional"@,
        "min_length"@ != "String"@,
        "min_length"@ != "Integer"@,
        "min_length"@ != "Boolean"@,
        "min_length"@ != "Object"@,
        "max_length"@ != "minimum"@,
        "max_length"@ != "maximum"@,
        "max_length"@ != "default"@,
        "max_length"@ != "default_key"@,
        "max_length"@ != "properties"@,
        "max_length"@ != "optional"@,
        "max_length"@ != "String"@,
        "max_length"@ != "Integer"@,
        "max_length"@ != "Boolean"@,
        "max_length"@ != "Object"@,
        "minimum"@ != "maximum"@,
        "minimum"@ != "default"@,
        "minimum"@ != "default_key"@,
        "minimum"@ != "properties"@,
        "minimum"@ != "optional"@,
        "minimum"@ != "String"@,
        "minimum"@ != "Integer"@,
        "minimum"@ != "Boolean"@,
        "minimum"@ != "Object"@,
        "maximum"@ != "default"@,
        "maximum"@ != "default_key"@,
        "maximum"@ != "properties"@,
        "maximum"@ != "optional"@,
        "maximum"@ != "String"@,
        "maximum"@ != "Integer"@,
        "maximum"@ != "Boolean"@,
        "maximum"@ != "Object"@,
        "default"@ != "default_key"@,
        "default"@ != "properties"@,
        "default"@ != "optional"@,
        "default"@ != "String"@,
        "default"@ != "Integer"@,
        "default"@ != "Boolean"@,
        "default"@ != "Object"@,
        "default_key"@ != "properties"@,
        "default_key"@ != "optional"@,
        "default_key"@ != "String"@,
        "default_key"@ != "Integer"@,
        "default_key"@ != "Boolean"@,
        "default_key"@ != "Object"@,
        "properties"@ != "optional"@,
        "properties"@ != "String"@,
        "properties"@ != "Integer"@,
        "properties"@ != "Boolean"@,
        "properties"@ != "Object"@,
        "optional"@ != "String"@,
        "optional"@ != "Integer"@,
        "optional"@ != "Boolean"@,
        "optional"@ != "Object"@,
        "String"@ != "Integer"@,
        "String"@ != "Boolean"@,
        "String"@ != "Object"@,
        "Integer"@ != "Boolean"@,
        "Integer"@ != "Object"@,
        "Boolean"@ != "Object"@,
{
    reveal_strlit("type");
    reveal_strlit("schema");
    reveal_strlit("description");
    reveal_strlit("format");
    reveal_strlit("min_length");
    reveal_strlit("max_length");
    reveal_strlit("minimum");
    reveal_strlit("maximum");
    reveal_strlit("default");
    reveal_strlit("default_key");
    reveal_strlit("properties");
    reveal_strlit("optional");
    reveal_strlit("String");
    reveal_strlit("Integer");
    reveal_strlit("Boolean");
    reveal_strlit("Object");
    assert("type"@.len() == 4);
    assert("schema"@.len() == 6);
    assert("description"@.len() == 11);
    assert("format"@.len() == 6);
    assert("min_length"@.len() == 10);
    assert("max_length"@.len() == 10);
    assert("minimum"@.len() == 7);
    assert("maximum"@.len() == 7);
    assert("default"@.len() == 7);
    assert("default_key"@.len() == 11);
    assert("properties"@.len() == 10);
    assert("optional"@.len() == 8);
    assert("String"@.len() == 6);
    assert("Integer"@.len() == 7);
    assert("Boolean"@.len() == 7);
    assert("Object"@.len() == 6);
    assert("schema"@[0] != "format"@[0]);
    assert("schema"@[0] != "String"@[0]);
    assert("schema"@[0] != "Object"@[0]);
    assert("format"@[0] != "String"@[0]);
    assert("format"@[0] != "Object"@[0]);
    assert("String"@[0] != "Object"@[0]);
    assert("description"@[2] != "default_key"@[2]);
    assert("min_length"@[1] != "max_length"@[1]);
    assert("min_length"@[0] != "properties"@[0]);
    assert("max_length"@[0] != "properties"@[0]);
    assert("minimum"@[1] != "maximum"@[1]);
    assert("minimum"@[0] != "default"@[0]);
    assert("minimum"@[0] != "Integer"@[0]);
    assert("minimum"@[0] != "Boolean"@[0]);
    assert("maximum"@[0] != "default"@[0]);
    assert("maximum"@[0] != "Integer"@[0]);
    assert("maximum"@[0] != "Boolean"@[0]);
    assert("default"@[0] != "Integer"@[0]);
    assert("default"@[0] != "Boolean"@[0]);
    assert("Integer"@[0] != "Boolean"@[0]);
}

/// Every entry of an error-free description is well shaped.
proof fn lemma_map_ok_shapes(
    entries: Seq<(String, DeclValue)>,
    i: int,
    in_property: bool,
    reg: Seq<(String, Schema)>,
)
    requires
        0 <= i,
        spec_map_err(entries, i, in_property, reg) is None,
    ensures
        forall|t: int| i <= t < entries.len() ==> spec_entry_shape_ok(entries, t, in_property, reg),
    decreases entries.len() - i,
{
    if i < entries.len() {
        lemma_map_ok_shapes(entries, i + 1, in_property, reg);
    }
}

/// In an error-free description the keys are pairwise distinct, so the first
/// entry under a key is the only one.
proof fn lemma_decl_get_at(
    entries: Seq<(String, DeclValue)>,
    in_property: bool,
    reg: Seq<(String, Schema)>,
    key: Seq<char>,
    t: int,
)
    requires
        forall|u: int| 0 <= u < entries.len() ==> spec_entry_shape_ok(entries, u, in_property, reg),
        0 <= t < entries.len(),
        entries[t].0@ == key,
    ensures
        spec_decl_get(entries, key) == Some(entries[t].1),
{
    assert(exists|u: int| 0 <= u < entries.len() && (#[trigger] entries[u]).0@ == key);
    match spec_key_find(entries, key) {
        Some(w) => {
            assert(0 <= w < entries.len() && entries[w].0@ == key);
            if w < t {
                assert(spec_entry_shape_ok(entries, t, in_property, reg));
                assert(entries[w].0@ != entries[t].0@);
            } else if w > t {
                assert(spec_entry_shape_ok(entries, w, in_property, reg));
                assert(entries[t].0@ != entries[w].0@);
            }
            assert(w == t);
        },
        None => {
            assert(false);
        },
    }
}

/// Index of the first entry with the given key, if any.
fn decl_find(entries: &Vec<(String, DeclValue)>, key: &str) -> (r: Option<usize>)
    ensures
        match r {
            Some(t) => {
                &&& t < entries@.len()
                &&& entries@[t as int].0@ == key@
                &&& forall|k: int| 0 <= k < t ==> (#[trigger] entries@[k]).0@ != key@
            },
            None => forall|k: int|
                0 <= k < entries@.len() ==> (#[trigger] entries@[k]).0@ != key@,
        },
{
    let mut i: usize = 0;
    while i < entries.len()
        invariant
            i <= entries@.len(),
            forall|k: int| 0 <= k < i ==> (#[trigger] entries@[k]).0@ != key@,
        decreases entries@.len() - i,
    {
        if str_eq(entries[i].0.as_str(), key) {
            return Some(i);
        }
        i += 1;
    }
    None
}

/// Whether an earlier entry uses the same key.
pub(crate) fn key_before(entries: &Vec<(String, DeclValue)>, i: usize, key: &String) -> (b: bool)
    requires
        i <= entries@.len(),
    ensures
        b == exists|t: int| 0 <= t < i && (#[trigger] entries@[t]).0@ == key@,
{
    let mut t: usize = 0;
    while t < i
        invariant
            t <= i,
            i <= entries@.len(),
            forall|k: int| 0 <= k < t ==> (#[trigger] entries@[k]).0@ != key@,
        decreases i - t,
    {
        if entries[t].0.eq(key) {
            return true;
        }
        t += 1;
    }
    false
}

/// The declared `Str` value under a key, if any.
fn get_str_component(entries: &Vec<(String, DeclValue)>, key: &str, Ghost(in_property): Ghost<
    bool,
>, Ghost(reg): Ghost<Seq<(String, Schema)>>) -> (r: Option<String>)
    requires
        forall|u: int|
            0 <= u < entries@.len() ==> spec_entry_shape_ok(entries@, u, in_property, reg),
    ensures
        spec_str_component(entries@, key@, r),
{
    match decl_find(entries, key) {
        Some(t) => {
            proof {
                lemma_decl_get_at(entries@, in_property, reg, key@, t as int);
            }
            match &entries[t].1 {
                DeclValue::Str(s) => Some(s.clone()),
                _ => None,
            }
        },
        None => None,
    }
}

/// The declared length bound under a key, if any.
fn get_len_component(entries: &Vec<(String, DeclValue)>, key: &str, Ghost(in_property): Ghost<
    bool,
>, Ghost(reg): Ghost<Seq<(String, Schema)>>) -> (r: Option<usize>)
    requires
        forall|u: int|
            0 <= u < entries@.len() ==> spec_entry_shape_ok(entries@, u, in_property, reg),
    ensures
        spec_len_component(entries@, key@, r),
{
    match decl_find(entries, key) {
        Some(t) => {
            proof {
                lemma_decl_get_at(entries@, in_property, reg, key@, t as int);
            }
            match &entries[t].1 {
                DeclValue::Int(n) => {
                    if *n >= 0 && (*n as u64) <= (usize::MAX as u64) {
                        Some(*n as usize)
                    } else {
                        None
                    }
                },
                _ => None,
            }
        },
        None => None,
    }
}

/// The declared `Int` value under a key, if any.
fn get_int_component(entries: &Vec<(String, DeclValue)>, key: &str, Ghost(in_property): Ghost<
    bool,
>, Ghost(reg): Ghost<Seq<(String, Schema)>>) -> (r: Option<i64>)
    requires
        forall|u: int|
            0 <= u < entries@.len() ==> spec_entry_shape_ok(entries@, u, in_property, reg),
    ensures
        spec_int_component(entries@, key@, r),
{
    match decl_find(entries, key) {
        Some(t) => {
            proof {
                lemma_decl_get_at(entries@, in_property, reg, key@, t as int);
            }
            match &entries[t].1 {
                DeclValue::Int(n) => Some(*n),
                _ => None,
            }
        },
        None => None,
    }
}

/// Whether a well-shaped property description marks the property optional.
fn prop_optional(pe: &Vec<(String, DeclValue)>, Ghost(reg): Ghost<Seq<(String, Schema)>>) -> (b:
    bool)
    requires
        forall|u: int| 0 <= u < pe@.len() ==> spec_entry_shape_ok(pe@, u, true, reg),
    ensures
        b == spec_prop_optional(pe@),
{
    match decl_find(pe, "optional") {
        Some(t) => {
            proof {
                lemma_decl_get_at(pe@, true, reg, "optional"@, t as int);
            }
            match &pe[t].1 {
                DeclValue::Bool(b) => *b,
                _ => false,
            }
        },
        None => false,
    }
}

/// Parse a schema description, given as its ordered entries.
///
/// Fails on the first unknown, repeated or badly valued key, at any nesting
/// level, naming it; on success the result is exactly the described schema.
#[verifier::loop_isolation(false)]
#[verifier::rlimit(100)]
pub fn parse_schema(
    entries: &Vec<(String, DeclValue)>,
    in_property: bool,
    reg: &SchemaRegistry,
) -> (r: Result<Schema, SpecError>)
    requires
        reg.is_published(),
        reg.wf(),
    ensures
        match r {
            Ok(s) => spec_map_err(entries@, 0, in_property, reg.entries()) is None
                && spec_parses_to(entries@, reg.entries(), s),
            Err(e) => spec_map_err(entries@, 0, in_property, reg.entries()) == Some(e),
        },
    decreases entries@,
{
    proof {
        reveal_strlit("type");
        reveal_strlit("schema");
        reveal_strlit("description");
        reveal_strlit("format");
        reveal_strlit("min_length");
        reveal_strlit("max_length");
        reveal_strlit("minimum");
        reveal_strlit("maximum");
        reveal_strlit("default");
        reveal_strlit("default_key");
        reveal_strlit("properties");
        reveal_strlit("optional");
        reveal_strlit("String");
        reveal_strlit("Integer");
        reveal_strlit("Boolean");
        reveal_strlit("Object");
    }
    let ghost regs = reg.entries();
    let mut props_acc: Option<Vec<Property>> = None;
    let ghost mut props_at: int = 0;

    let mut i: usize = 0;
    while i < entries.len()
        invariant
            i <= entries@.len(),
            spec_map_err(entries@, 0, in_property, regs) == spec_map_err(
                entries@,
                i as int,
                in_property,
                regs,
            ),
            forall|t: int| 0 <= t < i ==> spec_entry_shape_ok(entries@, t, in_property, regs),
            (props_acc is Some) == exists|t: int|
                0 <= t < i && (#[trigger] entries@[t]).0@ == "properties"@,
            props_acc matches Some(pv) ==> {
                &&& 0 <= props_at < i
                &&& entries@[props_at].0@ == "properties"@
                &&& entries@[props_at].1 matches DeclValue::Mapping(props) && {
                    &&& pv@.len() == props@.len()
                    &&& forall|j: int|
                        0 <= j < props@.len() ==> {
                            &&& (#[trigger] pv@[j]).name@ == (#[trigger] props@[j]).0@
                            &&& props@[j].1 matches DeclValue::Mapping(pe) && pv@[j].optional
                                == spec_prop_optional(pe@) && spec_parses_to(pe@, regs, pv@[j].schema)
                        }
                }
            },
        decreases entries@.len() - i,
    {
        proof {
            lemma_keys_distinct();
            reveal_strlit("type");
            reveal_strlit("schema");
            reveal_strlit("description");
            reveal_strlit("format");
            reveal_strlit("min_length");
            reveal_strlit("max_length");
            reveal_strlit("minimum");
            reveal_strlit("maximum");
            reveal_strlit("default");
            reveal_strlit("default_key");
            reveal_strlit("properties");
            reveal_strlit("optional");
            reveal_strlit("String");
            reveal_strlit("Integer");
            reveal_strlit("Boolean");
            reveal_strlit("Object");
        }
        let key = &entries[i].0;
        let is_type = str_eq(key.as_str(), "type");
        let is_schema = str_eq(key.as_str(), "schema");
        let is_description = str_eq(key.as_str(), "description");
        let is_format = str_eq(key.as_str(), "format");
        let is_min_length = str_eq(key.as_str(), "min_length");
        let is_max_length = str_eq(key.as_str(), "max_length");
        let is_minimum = str_eq(key.as_str(), "minimum");
        let is_maximum = str_eq(key.as_str(), "maximum");
        let is_default = str_eq(key.as_str(), "default");
        let is_default_key = str_eq(key.as_str(), "default_key");
        let is_properties = str_eq(key.as_str(), "properties");
        let is_optional = str_eq(key.as_str(), "optional");
        let known = is_type || is_schema || is_description || is_format || is_min_length
            || is_max_length || is_minimum || is_maximum || is_default || is_default_key
            || is_properties || (in_property && is_optional);
        if !known {
            return Err(SpecError::UnknownKey(key.clone()));
        }
        if key_before(entries, i, key) {
            return Err(SpecError::BadValue(key.clone()));
        }
        if is_type {
            match &entries[i].1 {
                DeclValue::Str(s) => {
                    if !(str_eq(s.as_str(), "String") || str_eq(s.as_str(), "Integer") || str_eq(
                        s.as_str(),
                        "Boolean",
                    ) || str_eq(s.as_str(), "Object")) {
                        return Err(SpecError::BadValue(key.clone()));
                    }
                },
                DeclValue::SchemaRef(n) => match reg.lookup(n) {
                    Some(_) => {},
                    None => {
                        return Err(SpecError::UnknownSchemaRef(n.clone()));
                    },
                },
                _ => {
                    return Err(SpecError::BadValue(key.clone()));
                },
            }
        } else if is_schema {
            match &entries[i].1 {
                DeclValue::SchemaRef(n) => match reg.lookup(n) {
                    Some(_) => {},
                    None => {
                        return Err(SpecError::UnknownSchemaRef(n.clone()));
                    },
                },
                _ => {
                    return Err(SpecError::BadValue(key.clone()));
                },
            }
        } else if is_description || is_format || is_default_key {
            match &entries[i].1 {
                DeclValue::Str(_) => {},
                _ => {
                    return Err(SpecError::BadValue(key.clone()));
                },
            }
        } else if is_min_length || is_max_length {
            match &entries[i].1 {
                DeclValue::Int(n) => {
                    if !(*n >= 0 && (*n as u64) <= (usize::MAX as u64)) {
                        return Err(SpecError::BadValue(key.clone()));
                    }
                },
                _ => {
                    return Err(SpecError::BadValue(key.clone()));
                },
            }
        } else if is_minimum || is_maximum {
            match &entries[i].1 {
                DeclValue::Int(_) => {},
                _ => {
                    return Err(SpecError::BadValue(key.clone()));
                },
            }
        } else if is_default {
            match &entries[i].1 {
                DeclValue::Bool(_) => {},
                DeclValue::Int(_) => {},
                DeclValue::Str(_) => {},
                _ => {
                    return Err(SpecError::BadValue(key.clone()));
                },
            }
        } else if is_optional {
            match &entries[i].1 {
                DeclValue::Bool(_) => {},
                _ => {
                    return Err(SpecError::BadValue(key.clone()));
                },
            }
        } else if is_properties {
            match &entries[i].1 {
                DeclValue::Mapping(props) => {
                    let mut pv: Vec<Property> = Vec::new();
                    let mut j: usize = 0;
                    while j < props.len()
                        invariant
                            j <= props@.len(),
                            pv@.len() == j,
                            spec_props_err(props@, 0, regs) == spec_props_err(
                                props@,
                                j as int,
                                regs,
                            ),
                            forall|jj: int|
                                0 <= jj < j ==> {
                                    &&& (#[trigger] pv@[jj]).name@ == (#[trigger] props@[jj]).0@
                                    &&& props@[jj].1 matches DeclValue::Mapping(pe) && pv@[jj].optional
                                        == spec_prop_optional(pe@) && spec_parses_to(
                                        pe@,
                                        regs,
                                        pv@[jj].schema,
                                    )
                                },
                        decreases props@.len() - j,
                    {
                        match &props[j].1 {
                            DeclValue::Mapping(pe) => {
                                proof {
                                    assert(decreases_to!(entries@ => entries@[i as int]));
                                    assert(decreases_to!(entries@[i as int] => entries@[i as int].1));
                                    assert(decreases_to!(
                                        entries@[i as int].1 => entries@[i as int].1->Mapping_0));
                                    assert(decreases_to!(
                                        entries@[i as int].1->Mapping_0
                                            => entries@[i as int].1->Mapping_0@));
                                    assert(entries@[i as int].1->Mapping_0@ == props@);
                                    assert(decreases_to!(props@ => props@[j as int]));
                                    assert(decreases_to!(props@[j as int] => props@[j as int].1));
                                    assert(decreases_to!(
                                        props@[j as int].1 => props@[j as int].1->Mapping_0));
                                    assert(decreases_to!(
                                        props@[j as int].1->Mapping_0
                                            => props@[j as int].1->Mapping_0@));
                                    assert(props@[j as int].1->Mapping_0@ == pe@);
                                }
                                match parse_schema(pe, true, reg) {
                                    Ok(s) => {
                                        proof {
                                            lemma_map_ok_shapes(pe@, 0, true, regs);
                                        }
                                        let opt = prop_optional(pe, Ghost(regs));
                                        pv.push(
                                            Property {
                                                name: props[j].0.clone(),
                                                optional: opt,
                                                schema: s,
                                            },
                                        );
                                    },
                                    Err(e) => {
                                        return Err(e);
                                    },
                                }
                            },
                            _ => {
                                return Err(SpecError::BadValue(props[j].0.clone()));
                            },
                        }
                        j += 1;
                    }
                    props_acc = Some(pv);
                    proof {
                        props_at = i as int;
                    }
                },
                _ => {
                    return Err(SpecError::BadValue(key.clone()));
                },
            }
        } else {
            proof {
                assert(false);
            }
            return Err(SpecError::UnknownKey(key.clone()));
        }
        proof {
            assert(spec_entry_shape_ok(entries@, i as int, in_property, regs));
        }
        i += 1;
    }
    proof {
        lemma_keys_distinct();
        lemma_map_ok_shapes(entries@, 0, in_property, regs);
    }

    // Build the schema the description describes.
    let description = get_str_component(entries, "description", Ghost(in_property), Ghost(regs));
    match decl_find(entries, "type") {
        Some(t) => {
            proof {
                lemma_decl_get_at(entries@, in_property, regs, "type"@, t as int);
            }
            match &entries[t].1 {
                DeclValue::Str(tag) => {
                    if str_eq(tag.as_str(), "String") {
                        Ok(build_string(entries, description, Ghost(in_property), Ghost(regs)))
                    } else if str_eq(tag.as_str(), "Integer") {
                        Ok(build_integer(entries, description, Ghost(in_property), Ghost(regs)))
                    } else if str_eq(tag.as_str(), "Boolean") {
                        Ok(build_boolean(entries, description, Ghost(in_property), Ghost(regs)))
                    } else {
                        proof {
                            assert(spec_entry_shape_ok(entries@, t as int, in_property, regs));
                        }
                        Ok(
                            build_object(
                                entries,
                                description,
                                props_acc,
                                Ghost(props_at),
                                Ghost(in_property),
                                Ghost(regs),
                            ),
                        )
                    }
                },
                DeclValue::SchemaRef(n) => match reg.lookup(n) {
                    Some(s) => Ok(clone_schema(s)),
                    None => {
                        proof {
                            assert(spec_entry_shape_ok(entries@, t as int, in_property, regs));
                            assert(false);
                        }
                        Err(SpecError::UnknownSchemaRef(n.clone()))
                    },
                },
                _ => {
                    proof {
                        assert(spec_entry_shape_ok(entries@, t as int, in_property, regs));
                        assert(false);
                    }
                    Err(SpecError::BadValue(entries[t].0.clone()))
                },
            }
        },
        None => match decl_find(entries, "schema") {
            Some(t) => {
                proof {
                    lemma_decl_get_at(entries@, in_property, regs, "schema"@, t as int);
                }
                match &entries[t].1 {
                    DeclValue::SchemaRef(n) => match reg.lookup(n) {
                        Some(s) => Ok(clone_schema(s)),
                        None => {
                            proof {
                                assert(spec_entry_shape_ok(entries@, t as int, in_property, regs));
                                assert(false);
                            }
                            Err(SpecError::UnknownSchemaRef(n.clone()))
                        },
                    },
                    _ => {
                        proof {
                            assert(spec_entry_shape_ok(entries@, t as int, in_property, regs));
                            assert(false);
                        }
                        Err(SpecError::BadValue(entries[t].0.clone()))
                    },
                }
            },
            None => match decl_find(entries, "properties") {
                Some(_) => Ok(
                    build_object(
                        entries,
                        description,
                        props_acc,
                        Ghost(props_at),
                        Ghost(in_property),
                        Ghost(regs),
                    ),
                ),
                None => Ok(build_string(entries, description, Ghost(in_property), Ghost(regs))),
            },
        },
    }
}

/// Build the string schema a well-shaped description describes.
fn build_string(entries: &Vec<(String, DeclValue)>, description: Option<String>, Ghost(
    in_property,
): Ghost<bool>, Ghost(regs): Ghost<Seq<(String, Schema)>>) -> (s: Schema)
    requires
        forall|u: int|
            0 <= u < entries@.len() ==> spec_entry_shape_ok(entries@, u, in_property, regs),
        spec_str_component(entries@, "description"@, description),
    ensures
        spec_parses_to_string(entries@, s),
{
    Schema::String(
        StringSchema {
            description,
            format: get_str_component(entries, "format", Ghost(in_property), Ghost(regs)),
            min_length: get_len_component(entries, "min_length", Ghost(in_property), Ghost(regs)),
            max_length: get_len_component(entries, "max_length", Ghost(in_property), Ghost(regs)),
            default: get_str_component(entries, "default", Ghost(in_property), Ghost(regs)),
        },
    )
}

/// Build the integer schema a well-shaped description describes.
fn build_integer(entries: &Vec<(String, DeclValue)>, description: Option<String>, Ghost(
    in_property,
): Ghost<bool>, Ghost(regs): Ghost<Seq<(String, Schema)>>) -> (s: Schema)
    requires
        forall|u: int|
            0 <= u < entries@.len() ==> spec_entry_shape_ok(entries@, u, in_property, regs),
        spec_str_component(entries@, "description"@, description),
    ensures
        spec_parses_to_integer(entries@, s),
{
    Schema::Integer(
        IntegerSchema {
            description,
            minimum: get_int_component(entries, "minimum", Ghost(in_property), Ghost(regs)),
            maximum: get_int_component(entries, "maximum", Ghost(in_property), Ghost(regs)),
            default: get_int_component(entries, "default", Ghost(in_property), Ghost(regs)),
        },
    )
}

/// Build the boolean schema a well-shaped description describes.
fn build_boolean(entries: &Vec<(String, DeclValue)>, description: Option<String>, Ghost(
    in_property,
): Ghost<bool>, Ghost(regs): Ghost<Seq<(String, Schema)>>) -> (s: Schema)
    requires
        forall|u: int|
            0 <= u < entries@.len() ==> spec_entry_shape_ok(entries@, u, in_property, regs),
        spec_str_component(entries@, "description"@, description),
    ensures
        spec_parses_to_boolean(entries@, s),
{
    let default = match decl_find(entries, "default") {
        Some(t) => {
            proof {
                lemma_decl_get_at(entries@, in_property, regs, "default"@, t as int);
            }
            match &entries[t].1 {
                DeclValue::Bool(b) => Some(*b),
                _ => None,
            }
        },
        None => None,
    };
    Schema::Boolean(BooleanSchema { description, default })
}

/// Build the object schema a well-shaped description describes, from the
/// properties parsed in declaration order.
fn build_object(
    entries: &Vec<(String, DeclValue)>,
    description: Option<String>,
    props_acc: Option<Vec<Property>>,
    Ghost(props_at): Ghost<int>,
    Ghost(in_property): Ghost<bool>,
    Ghost(regs): Ghost<Seq<(String, Schema)>>,
) -> (s: Schema)
    requires
        forall|u: int|
            0 <= u < entries@.len() ==> spec_entry_shape_ok(entries@, u, in_property, regs),
        spec_str_component(entries@, "description"@, description),
        (props_acc is Some) == exists|t: int|
            0 <= t < entries@.len() && (#[trigger] entries@[t]).0@ == "properties"@,
        props_acc matches Some(pv) ==> {
            &&& 0 <= props_at < entries@.len()
            &&& entries@[props_at].0@ == "properties"@
            &&& entries@[props_at].1 matches DeclValue::Mapping(props) && {
                &&& pv@.len() == props@.len()
                &&& forall|j: int|
                    0 <= j < props@.len() ==> {
                        &&& (#[trigger] pv@[j]).name@ == (#[trigger] props@[j]).0@
                        &&& props@[j].1 matches DeclValue::Mapping(pe) && pv@[j].optional
                            == spec_prop_optional(pe@) && spec_parses_to(pe@, regs, pv@[j].schema)
                    }
            }
        },
    ensures
        spec_parses_to_object(entries@, regs, s),
{
    let default_key = get_str_component(entries, "default_key", Ghost(in_property), Ghost(regs));
    match props_acc {
        Some(pv) => {
            proof {
                lemma_decl_get_at(entries@, in_property, regs, "properties"@, props_at);
            }
            Schema::Object(ObjectSchema { description, properties: pv, default_key })
        },
        None => Schema::Object(
            ObjectSchema { description, properties: Vec::new(), default_key },
        ),
    }
}

/// Whether one entry of an enumeration's attributes is acceptable: a `type`
/// tag that is the name of the string type, a `description` text or a
/// `default` wire name, each at most once.
pub open spec fn spec_enum_attr_ok(attribs: Seq<(String, DeclValue)>, i: int) -> bool {
    let k = attribs[i].0@;
    let v = attribs[i].1;
    &&& (k == "type"@ || k == "description"@ || k == "default"@)
    &&& (forall|t: int| 0 <= t < i ==> (#[trigger] attribs[t]).0@ != k)
    &&& (k == "type"@ ==> (v matches DeclValue::Str(s) && s@ == "String"@))
    &&& (k == "description"@ ==> v is Str)
    &&& (k == "default"@ ==> v is Str)
}

/// The first error among an enumeration's attributes from entry `i` on: an
/// unknown key (such as `format`, which is derived, never supplied) names the
/// key; a repeated or badly valued key is named as badly valued.
pub open spec fn spec_enum_attr_err(attribs: Seq<(String, DeclValue)>, i: int) -> Option<
    SpecError,
>
    decreases attribs.len() - i,
{
    if i < 0 || i >= attribs.len() {
        None
    } else if !spec_enum_attr_ok(attribs, i) {
        if !(attribs[i].0@ == "type"@ || attribs[i].0@ == "description"@ || attribs[i].0@
            == "default"@) {
            Some(SpecError::UnknownKey(attribs[i].0))
        } else {
            Some(SpecError::BadValue(attribs[i].0))
        }
    } else {
        spec_enum_attr_err(attribs, i + 1)
    }
}

/// Whether a (well-shaped) schema description describes an object schema:
/// the `type` tag names the object type or references a registered object
/// schema, or, with no tag, a `properties` mapping is present.
pub open spec fn spec_yields_object(
    entries: Seq<(String, DeclValue)>,
    reg: Seq<(String, Schema)>,
) -> bool {
    match spec_decl_get(entries, "type"@) {
        Some(DeclValue::Str(t)) => t@ == "Object"@,
        Some(DeclValue::SchemaRef(n)) => spec_registry_find(reg, n@) matches Some(t) && reg[t].1
            is Object,
        Some(_) => false,
        None => match spec_decl_get(entries, "schema"@) {
            Some(DeclValue::SchemaRef(n)) => spec_registry_find(reg, n@) matches Some(t)
                && reg[t].1 is Object,
            Some(_) => false,
            None => spec_decl_get(entries, "properties"@) is Some,
        },
    }
}

/// A description that yields an object parses to an object schema, and one
/// that does not never does.
pub proof fn lemma_parses_to_object_variant(
    entries: Seq<(String, DeclValue)>,
    reg: Seq<(String, Schema)>,
    s: Schema,
)
    requires
        spec_parses_to(entries, reg, s),
    ensures
        (s is Object) == spec_yields_object(entries, reg),
{
    lemma_keys_distinct();
    match spec_decl_get(entries, "type"@) {
        Some(DeclValue::Str(t)) => {},
        Some(DeclValue::SchemaRef(n)) => {
            match spec_registry_find(reg, n@) {
                Some(t) => {
                    assert(schema_equiv(reg[t].1, s));
                },
                None => {},
            }
        },
        Some(_) => {},
        None => {
            match spec_decl_get(entries, "schema"@) {
                Some(DeclValue::SchemaRef(n)) => {
                    match spec_registry_find(reg, n@) {
                        Some(t) => {
                            assert(schema_equiv(reg[t].1, s));
                        },
                        None => {},
                    }
                },
                _ => {},
            }
        },
    }
}

/// A description holding an unrecognized key from entry `i` on never parses:
/// the walk stops with an error no later than that key.
proof fn lemma_unknown_key_err_from(
    entries: Seq<(String, DeclValue)>,
    i: int,
    in_property: bool,
    reg: Seq<(String, Schema)>,
)
    requires
        0 <= i,
        exists|t: int|
            i <= t < entries.len() && !spec_known_key((#[trigger] entries[t]).0@, in_property),
    ensures
        spec_map_err(entries, i, in_property, reg) is Some,
    decreases entries.len() - i,
{
    if i < entries.len() && spec_entry_shape_ok(entries, i, in_property, reg) {
        let t = choose|t: int|
            i <= t < entries.len() && !spec_known_key((#[trigger] entries[t]).0@, in_property);
        assert(t > i);
        if spec_map_err(entries, i, in_property, reg) is None {
            lemma_unknown_key_err_from(entries, i + 1, in_property, reg);
        }
    }
}

/// A declarative input containing an unrecognized key fails compilation:
/// whatever else the description holds, parsing it reports an error.
pub proof fn lemma_unknown_key_rejected(
    entries: Seq<(String, DeclValue)>,
    in_property: bool,
    reg: Seq<(String, Schema)>,
)
    requires
        exists|t: int|
            0 <= t < entries.len() && !spec_known_key((#[trigger] entries[t]).0@, in_property),
    ensures
        spec_map_err(entries, 0, in_property, reg) is Some,
{
    lemma_unknown_key_err_from(entries, 0, in_property, reg);
}

/// An enumeration's attributes holding an unrecognized key (such as a
/// user-supplied `format`) never pass: the scan reports an error.
pub proof fn lemma_enum_unknown_key_rejected(attribs: Seq<(String, DeclValue)>)
    requires
        exists|t: int|
            0 <= t < attribs.len() && !((#[trigger] attribs[t]).0@ == "type"@ || attribs[t].0@
                == "description"@ || attribs[t].0@ == "default"@),
    ensures
        spec_enum_attr_err(attribs, 0) is Some,
{
    lemma_enum_unknown_key_err_from(attribs, 0);
}

proof fn lemma_enum_unknown_key_err_from(attribs: Seq<(String, DeclValue)>, i: int)
    requires
        0 <= i,
        exists|t: int|
            i <= t < attribs.len() && !((#[trigger] attribs[t]).0@ == "type"@ || attribs[t].0@
                == "description"@ || attribs[t].0@ == "default"@),
    ensures
        spec_enum_attr_err(attribs, i) is Some,
    decreases attribs.len() - i,
{
    if i < attribs.len() && spec_enum_attr_ok(attribs, i) {
        let t = choose|t: int|
            i <= t < attribs.len() && !((#[trigger] attribs[t]).0@ == "type"@ || attribs[t].0@
                == "description"@ || attribs[t].0@ == "default"@);
        assert(t > i);
        lemma_enum_unknown_key_err_from(attribs, i + 1);
    }
}

} // verus!
