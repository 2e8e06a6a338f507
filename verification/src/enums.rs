//! The enum schema deriver: builds an enum string schema from a plain
//! enumeration's ordered variants, deriving wire names from rename
//! directives and preserving declaration order exactly.

use vstd::prelude::*;

use crate::attr::spec_decl_get;
use crate::attr::spec_enum_attr_err;
use crate::attr::spec_enum_attr_ok;
use crate::attr::DeclValue;
use crate::docs::spec_trim;
use crate::docs::trim;
use crate::error::SpecError;
use crate::schema::EnumEntry;
use crate::schema::EnumSchema;
use crate::strutil::push_char;

verus! {

use vstd::string::StrSliceExecFns;

/// A container-wide rule deriving wire names from variant identifiers.
#[derive(Clone, Copy, Debug, PartialEq, Eq, Structural)]
pub enum RenameRule {
    /// All characters lower-cased.
    LowerCase,
    /// Word boundaries marked by dashes, all lower case.
    KebabCase,
    /// Word boundaries marked by underscores, all lower case.
    SnakeCase,
}

/// One declared enum variant.
pub struct VariantDecl {
    /// The variant identifier.
    pub ident: String,
    /// The variant's documentation text; must not be empty.
    pub doc: String,
    /// An explicit rename directive, overriding any container-wide rule.
    pub rename: Option<String>,
    /// Whether the variant carries the default marker.
    pub is_default: bool,
    /// Whether the variant carries associated data; such variants are
    /// rejected, only pure tags are representable.
    pub has_fields: bool,
}

/// A declared enumeration.
pub struct EnumDecl {
    /// The enumeration's name.
    pub name: String,
    /// The enumeration's documentation text.
    pub doc: String,
    /// The container-wide rename rule, if any.
    pub rename_all: Option<RenameRule>,
    /// Whether the enumeration derives a default value.
    pub derives_default: bool,
    /// The ordered variants.
    pub variants: Vec<VariantDecl>,
}

/// Whether a character is an ASCII capital letter.
pub open spec fn spec_is_upper(c: char) -> bool {
    65 <= c as int <= 90
}

/// The ASCII lower-case counterpart of a character.
pub open spec fn spec_lower_char(c: char) -> char {
    match c {
        'A' => 'a',
        'B' => 'b',
        'C' => 'c',
        'D' => 'd',
        'E' => 'e',
        'F' => 'f',
        'G' => 'g',
        'H' => 'h',
        'I' => 'i',
        'J' => 'j',
        'K' => 'k',
        'L' => 'l',
        'M' => 'm',
        'N' => 'n',
        'O' => 'o',
        'P' => 'p',
        'Q' => 'q',
        'R' => 'r',
        'S' => 's',
        'T' => 't',
        'U' => 'u',
        'V' => 'v',
        'W' => 'w',
        'X' => 'x',
        'Y' => 'y',
        'Z' => 'z',
        _ => c,
    }
}

fn is_upper(c: char) -> (r: bool)
    ensures
        r == spec_is_upper(c),
{
    let u = c as u32;
    65 <= u && u <= 90
}

fn lower_char(c: char) -> (r: char)
    ensures
        r == spec_lower_char(c),
{
    match c {
        'A' => 'a',
        'B' => 'b',
        'C' => 'c',
        'D' => 'd',
        'E' => 'e',
        'F' => 'f',
        'G' => 'g',
        'H' => 'h',
        'I' => 'i',
        'J' => 'j',
        'K' => 'k',
        'L' => 'l',
        'M' => 'm',
        'N' => 'n',
        'O' => 'o',
        'P' => 'p',
        'Q' => 'q',
        'R' => 'r',
        'S' => 's',
        'T' => 't',
        'U' => 'u',
        'V' => 'v',
        'W' => 'w',
        'X' => 'x',
        'Y' => 'y',
        'Z' => 'z',
        _ => c,
    }
}

/// The first `n` characters lower-cased, with a separator before each
/// capital letter that does not begin the text.
pub open spec fn spec_snakeish(s: Seq<char>, sep: char, n: int) -> Seq<char>
    decreases n,
{
    if n <= 0 {
        Seq::empty()
    } else {
        spec_snakeish(s, sep, n - 1) + if spec_is_upper(s[n - 1]) && n - 1 > 0 {
            seq![sep, spec_lower_char(s[n - 1])]
        } else {
            seq![spec_lower_char(s[n - 1])]
        }
    }
}

/// All characters lower-cased.
pub open spec fn spec_lowercase(s: Seq<char>) -> Seq<char> {
    Seq::new(s.len(), |i: int| spec_lower_char(s[i]))
}

/// The wire name a rename rule derives from an identifier.
pub open spec fn spec_apply_rename(rule: RenameRule, s: Seq<char>) -> Seq<char> {
    match rule {
        RenameRule::LowerCase => spec_lowercase(s),
        RenameRule::KebabCase => spec_snakeish(s, '-', s.len() as int),
        RenameRule::SnakeCase => spec_snakeish(s, '_', s.len() as int),
    }
}

/// Apply a rename rule to an identifier.
#[verifier::loop_isolation(false)]
pub fn apply_rename(rule: RenameRule, s: &String) -> (r: String)
    ensures
        r@ == spec_apply_rename(rule, s@),
{
    let len = s.as_str().unicode_len();
    let mut out = String::new();
    match rule {
        RenameRule::LowerCase => {
            let mut i: usize = 0;
            while i < len
                invariant
                    i <= len,
                    len == s@.len(),
                    out@ =~= spec_lowercase(s@).take(i as int),
                decreases len - i,
            {
                push_char(&mut out, lower_char(s.as_str().get_char(i)));
                i += 1;
                proof {
                    assert(out@ =~= spec_lowercase(s@).take(i as int));
                }
            }
            proof {
                assert(spec_lowercase(s@).take(len as int) =~= spec_lowercase(s@));
            }
        },
        RenameRule::KebabCase => {
            let mut i: usize = 0;
            while i < len
                invariant
                    i <= len,
                    len == s@.len(),
                    out@ == spec_snakeish(s@, '-', i as int),
                decreases len - i,
            {
                let c = s.as_str().get_char(i);
                if is_upper(c) && i > 0 {
                    push_char(&mut out, '-');
                }
                push_char(&mut out, lower_char(c));
                i += 1;
                proof {
                    assert(out@ =~= spec_snakeish(s@, '-', i as int));
                }
            }
        },
        RenameRule::SnakeCase => {
            let mut i: usize = 0;
            while i < len
                invariant
                    i <= len,
                    len == s@.len(),
                    out@ == spec_snakeish(s@, '_', i as int),
                decreases len - i,
            {
                let c = s.as_str().get_char(i);
                if is_upper(c) && i > 0 {
                    push_char(&mut out, '_');
                }
                push_char(&mut out, lower_char(c));
                i += 1;
                proof {
                    assert(out@ =~= spec_snakeish(s@, '_', i as int));
                }
            }
        },
    }
    out
}

/// The wire name of a variant: its explicit rename, else the container-wide
/// rule applied to its identifier, else the bare identifier.
pub open spec fn spec_wire_name(decl: EnumDecl, i: int) -> Seq<char> {
    match decl.variants@[i].rename {
        Some(r) => r@,
        None => match decl.rename_all {
            Some(rule) => spec_apply_rename(rule, decl.variants@[i].ident@),
            None => decl.variants@[i].ident@,
        },
    }
}

/// The description of a variant: its documentation, or a placeholder when
/// the documentation is empty.
pub open spec fn spec_variant_description(decl: EnumDecl, i: int) -> Seq<char> {
    if decl.variants@[i].doc@.len() == 0 {
        "<missing description>"@
    } else {
        decl.variants@[i].doc@
    }
}

/// The identifiers of the variants without documentation, in order: each one
/// draws a warning beside the placeholder description.
pub open spec fn spec_warnings(variants: Seq<VariantDecl>, n: int) -> Seq<String>
    decreases n,
{
    if n <= 0 {
        Seq::empty()
    } else {
        spec_warnings(variants, n - 1) + if variants[n - 1].doc@.len() == 0 {
            seq![variants[n - 1].ident]
        } else {
            Seq::empty()
        }
    }
}

/// The first fatal error among the variants from index `i` on, carrying the
/// index of an earlier default-marked variant: a variant with associated
/// data; a second default marker, naming both sites; a marker beside an
/// independently supplied `default` option.
pub open spec fn spec_variant_err(
    decl: EnumDecl,
    attribs_have_default: bool,
    i: int,
    marker: Option<int>,
) -> Option<SpecError>
    decreases decl.variants@.len() - i,
{
    if i < 0 || i >= decl.variants@.len() {
        None
    } else {
        let v = decl.variants@[i];
        if v.has_fields {
            Some(SpecError::NonUnitVariant(v.ident))
        } else if decl.derives_default && v.is_default {
            match marker {
                Some(m) => Some(SpecError::MultipleDefaults(decl.variants@[m].ident, v.ident)),
                None => if attribs_have_default {
                    Some(SpecError::DefaultMarkerWithKey(v.ident))
                } else {
                    spec_variant_err(decl, attribs_have_default, i + 1, Some(i))
                },
            }
        } else {
            spec_variant_err(decl, attribs_have_default, i + 1, marker)
        }
    }
}

/// The first default-marked variant, when the enumeration derives a default.
pub open spec fn spec_first_marker(decl: EnumDecl, i: int) -> Option<int>
    decreases decl.variants@.len() - i,
{
    if !decl.derives_default || i < 0 || i >= decl.variants@.len() {
        None
    } else if decl.variants@[i].is_default {
        Some(i)
    } else {
        spec_first_marker(decl, i + 1)
    }
}

/// Derive an enum string schema from an enumeration's declarative attributes
/// and its ordered variants.
///
/// The schema's value list preserves declaration order exactly; the default,
/// if any, comes from the default marker or from the `default` option; a
/// variant without documentation gets a placeholder description and a
/// warning naming it.
#[verifier::loop_isolation(false)]
#[verifier::rlimit(100)]
pub fn handle_enum(attribs: &Vec<(String, DeclValue)>, decl: &EnumDecl) -> (r: Result<
    (EnumSchema, Vec<String>),
    SpecError,
>)
    ensures
        spec_enum_attr_err(attribs@, 0) matches Some(e) ==> r == Err::<
            (EnumSchema, Vec<String>),
            SpecError,
        >(e),
        spec_enum_attr_err(attribs@, 0) is None ==> (spec_variant_err(
            *decl,
            spec_decl_get(attribs@, "default"@) is Some,
            0,
            None,
        ) matches Some(e) ==> r == Err::<(EnumSchema, Vec<String>), SpecError>(e)),
        r matches Ok((s, warnings)) ==> {
            &&& s.values@.len() == decl.variants@.len()
            &&& forall|i: int|
                0 <= i < decl.variants@.len() ==> (#[trigger] s.values@[i]).value@
                    == spec_wire_name(*decl, i)
            &&& forall|i: int|
                0 <= i < decl.variants@.len() ==> (#[trigger] s.values@[i]).description@
                    == spec_variant_description(*decl, i)
            &&& warnings@ == spec_warnings(decl.variants@, decl.variants@.len() as int)
            &&& (match spec_decl_get(attribs@, "description"@) {
                Some(DeclValue::Str(d)) => s.description matches Some(x) && x@ == d@,
                _ => s.description matches Some(x) && x@ == spec_trim(decl.doc@),
            })
            &&& (match spec_first_marker(*decl, 0) {
                Some(m) => s.default matches Some(d) && d@ == spec_wire_name(*decl, m),
                None => match spec_decl_get(attribs@, "default"@) {
                    Some(DeclValue::Str(d)) => s.default matches Some(x) && x@ == d@,
                    _ => s.default is None,
                },
            })
        },
        spec_enum_attr_err(attribs@, 0) is None && spec_variant_err(
            *decl,
            spec_decl_get(attribs@, "default"@) is Some,
            0,
            None,
        ) is None && spec_first_marker(*decl, 0) is None && spec_decl_get(attribs@, "default"@)
            is None ==> r is Ok,
        spec_enum_attr_err(attribs@, 0) is None && spec_variant_err(
            *decl,
            spec_decl_get(attribs@, "default"@) is Some,
            0,
            None,
        ) is None && spec_first_marker(*decl, 0) is Some && (forall|i: int, j: int|
            0 <= i < j < decl.variants@.len() ==> spec_wire_name(*decl, i) != spec_wire_name(
                *decl,
                j,
            )) ==> r is Ok,
{
    let (description_attr, default_attr) = parse_enum_attribs(attribs)?;

    let mut values: Vec<EnumEntry> = Vec::new();
    let mut warnings: Vec<String> = Vec::new();
    let mut marker_idx: Option<usize> = None;

    let ghost has_def = spec_decl_get(attribs@, "default"@) is Some;
    proof {
        assert(has_def == (default_attr is Some));
    }

    let mut i: usize = 0;
    while i < decl.variants.len()
        invariant
            i <= decl.variants@.len(),
            values@.len() == i,
            forall|k: int|
                0 <= k < i ==> (#[trigger] values@[k]).value@ == spec_wire_name(*decl, k),
            forall|k: int|
                0 <= k < i ==> (#[trigger] values@[k]).description@ == spec_variant_description(
                    *decl,
                    k,
                ),
            warnings@ == spec_warnings(decl.variants@, i as int),
            spec_variant_err(*decl, has_def, 0, None) == spec_variant_err(
                *decl,
                has_def,
                i as int,
                match marker_idx {
                    Some(m) => Some(m as int),
                    None => None,
                },
            ),
            spec_first_marker(*decl, 0) == (match marker_idx {
                Some(m) => Some(m as int),
                None => if decl.derives_default {
                    spec_first_marker(*decl, i as int)
                } else {
                    None
                },
            }),
            marker_idx matches Some(m) ==> m < i && decl.derives_default
                && decl.variants@[m as int].is_default,
            has_def == (default_attr is Some),
        decreases decl.variants@.len() - i,
    {
        let v = &decl.variants[i];
        if v.has_fields {
            return Err(SpecError::NonUnitVariant(v.ident.clone()));
        }
        if decl.derives_default && v.is_default {
            match marker_idx {
                Some(m) => {
                    return Err(
                        SpecError::MultipleDefaults(
                            decl.variants[m].ident.clone(),
                            v.ident.clone(),
                        ),
                    );
                },
                None => {
                    if default_attr.is_some() {
                        return Err(SpecError::DefaultMarkerWithKey(v.ident.clone()));
                    }
                    marker_idx = Some(i);
                },
            }
        }
        let wire = match &v.rename {
            Some(r) => r.clone(),
            None => match &decl.rename_all {
                Some(rule) => apply_rename(*rule, &v.ident),
                None => v.ident.clone(),
            },
        };
        let description = if v.doc.as_str().is_empty() {
            warnings.push(v.ident.clone());
            String::from_str("<missing description>")
        } else {
            v.doc.clone()
        };
        proof {
            if v.doc@.len() == 0 {
                assert(warnings@ =~= spec_warnings(decl.variants@, i + 1 as int));
            } else {
                assert(warnings@ =~= spec_warnings(decl.variants@, i + 1 as int));
            }
        }
        values.push(EnumEntry { value: wire, description });
        i += 1;
    }

    let description = match description_attr {
        Some(d) => d,
        None => trim(decl.doc.as_str()),
    };
    let schema = EnumSchema::new(description, values);
    match marker_idx {
        Some(m) => {
            let name = schema.values[m].value.clone();
            let ghost vals = schema.values@;
            match schema.set_default(name) {
                Ok(s) => Ok((s, warnings)),
                Err(e) => {
                    proof {
                        if forall|a: int, b: int|
                            0 <= a < b < decl.variants@.len() ==> spec_wire_name(*decl, a)
                                != spec_wire_name(*decl, b) {
                            assert(vals[m as int].value@ == spec_wire_name(*decl, m as int));
                            assert(exists|j: int|
                                0 <= j < vals.len() && (#[trigger] vals[j]).value@
                                    == spec_wire_name(*decl, m as int));
                            if e is DuplicateDefaultValue {
                                let (a, b) = choose|a: int, b: int|
                                    0 <= a < b < vals.len() && (#[trigger] vals[a]).value@
                                        == spec_wire_name(*decl, m as int) && (
                                    #[trigger] vals[b]).value@ == spec_wire_name(*decl, m as int);
                                assert(spec_wire_name(*decl, a) != spec_wire_name(*decl, b));
                            }
                            assert(false);
                        }
                    }
                    Err(e)
                },
            }
        },
        None => match default_attr {
            Some(name) => {
                let ghost vals = schema.values@;
                match schema.set_default(name) {
                    Ok(s) => Ok((s, warnings)),
                    Err(e) => {
                        proof {
                            match spec_decl_get(attribs@, "default"@) {
                                Some(DeclValue::Str(dv)) => {
                                    if exists|a: int|
                                        {
                                            &&& 0 <= a < decl.variants@.len()
                                            &&& spec_wire_name(*decl, a) == dv@
                                            &&& forall|b: int|
                                                0 <= b < decl.variants@.len() && b != a
                                                    ==> spec_wire_name(*decl, b) != dv@
                                        } {
                                        let a = choose|a: int|
                                            {
                                                &&& 0 <= a < decl.variants@.len()
                                                &&& spec_wire_name(*decl, a) == dv@
                                                &&& forall|b: int|
                                                    0 <= b < decl.variants@.len() && b != a
                                                        ==> spec_wire_name(*decl, b) != dv@
                                            };
                                        assert(vals[a].value@ == dv@);
                                        assert(exists|j: int|
                                            0 <= j < vals.len() && (#[trigger] vals[j]).value@
                                                == dv@);
                                        if e is DuplicateDefaultValue {
                                            let (x, y) = choose|x: int, y: int|
                                                0 <= x < y < vals.len() && (
                                                #[trigger] vals[x]).value@ == dv@ && (
                                                #[trigger] vals[y]).value@ == dv@;
                                            assert(spec_wire_name(*decl, x) == dv@);
                                            assert(spec_wire_name(*decl, y) == dv@);
                                            assert(x != a || y != a);
                                        }
                                        assert(false);
                                    }
                                },
                                _ => {},
                            }
                        }
                        Err(e)
                    },
                }
            },
            None => Ok((schema, warnings)),
        },
    }
}

/// Read an enumeration's declarative attributes: an optional `type` tag that
/// must be `String`, an optional `description`, an optional `default` wire
/// name. A `format` key is rejected: the format is derived from the variants.
#[verifier::loop_isolation(false)]
fn parse_enum_attribs(attribs: &Vec<(String, DeclValue)>) -> (r: Result<
    (Option<String>, Option<String>),
    SpecError,
>)
    ensures
        match r {
            Ok((d, def)) => {
                &&& spec_enum_attr_err(attribs@, 0) is None
                &&& (match spec_decl_get(attribs@, "description"@) {
                    Some(DeclValue::Str(s)) => d matches Some(x) && x@ == s@,
                    _ => d is None,
                })
                &&& (match spec_decl_get(attribs@, "default"@) {
                    Some(DeclValue::Str(s)) => def matches Some(x) && x@ == s@,
                    _ => def is None,
                })
                &&& (spec_decl_get(attribs@, "default"@) is Some) == (def is Some)
            },
            Err(e) => spec_enum_attr_err(attribs@, 0) == Some(e),
        },
{
    let mut description: Option<String> = None;
    let mut default: Option<String> = None;

    let mut i: usize = 0;
    while i < attribs.len()
        invariant
            i <= attribs@.len(),
            spec_enum_attr_err(attribs@, 0) == spec_enum_attr_err(attribs@, i as int),
            forall|t: int| 0 <= t < i ==> spec_enum_attr_ok(attribs@, t),
            description matches Some(x) ==> exists|t: int|
                0 <= t < i && (#[trigger] attribs@[t]).0@ == "description"@ && (
                attribs@[t].1 matches DeclValue::Str(s) && x@ == s@),
            description is None ==> forall|t: int|
                0 <= t < i ==> (#[trigger] attribs@[t]).0@ != "description"@,
            default matches Some(x) ==> exists|t: int|
                0 <= t < i && (#[trigger] attribs@[t]).0@ == "default"@ && (
                attribs@[t].1 matches DeclValue::Str(s) && x@ == s@),
            default is None ==> forall|t: int|
                0 <= t < i ==> (#[trigger] attribs@[t]).0@ != "default"@,
        decreases attribs@.len() - i,
    {
        proof {
            crate::attr::lemma_keys_distinct();
        }
        let key = &attribs[i].0;
        let is_type = crate::strutil::str_eq(key.as_str(), "type");
        let is_description = crate::strutil::str_eq(key.as_str(), "description");
        let is_default = crate::strutil::str_eq(key.as_str(), "default");
        if !(is_type || is_description || is_default) {
            return Err(SpecError::UnknownKey(key.clone()));
        }
        if crate::attr::key_before(attribs, i, key) {
            return Err(SpecError::BadValue(key.clone()));
        }
        if is_type {
            match &attribs[i].1 {
                DeclValue::Str(s) => {
                    if !crate::strutil::str_eq(s.as_str(), "String") {
                        return Err(SpecError::BadValue(key.clone()));
                    }
                },
                _ => {
                    return Err(SpecError::BadValue(key.clone()));
                },
            }
        } else if is_description {
            match &attribs[i].1 {
                DeclValue::Str(s) => {
                    description = Some(s.clone());
                },
                _ => {
                    return Err(SpecError::BadValue(key.clone()));
                },
            }
        } else {
            match &attribs[i].1 {
                DeclValue::Str(s) => {
                    default = Some(s.clone());
                },
                _ => {
                    return Err(SpecError::BadValue(key.clone()));
                },
            }
        }
        proof {
            assert(spec_enum_attr_ok(attribs@, i as int));
        }
        i += 1;
    }
    proof {
        crate::attr::lemma_keys_distinct();
        match description {
            Some(_) => {
                let t = choose|t: int|
                    0 <= t < attribs@.len() && (#[trigger] attribs@[t]).0@ == "description"@ && (
                    attribs@[t].1 matches DeclValue::Str(s) && description->Some_0@ == s@);
                lemma_enum_decl_get_at(attribs@, "description"@, t);
            },
            None => {
                assert(spec_decl_get(attribs@, "description"@) is None);
            },
        }
        match default {
            Some(_) => {
                let t = choose|t: int|
                    0 <= t < attribs@.len() && (#[trigger] attribs@[t]).0@ == "default"@ && (
                    attribs@[t].1 matches DeclValue::Str(s) && default->Some_0@ == s@);
                lemma_enum_decl_get_at(attribs@, "default"@, t);
            },
            None => {
                assert(spec_decl_get(attribs@, "default"@) is None);
            },
        }
    }
    Ok((description, default))
}

/// Among well-formed enumeration attributes, the first entry under a key is
/// the only one.
proof fn lemma_enum_decl_get_at(attribs: Seq<(String, DeclValue)>, key: Seq<char>, t: int)
    requires
        forall|u: int| 0 <= u < attribs.len() ==> spec_enum_attr_ok(attribs, u),
        0 <= t < attribs.len(),
        attribs[t].0@ == key,
    ensures
        spec_decl_get(attribs, key) == Some(attribs[t].1),
{
    assert(exists|u: int| 0 <= u < attribs.len() && (#[trigger] attribs[u]).0@ == key);
    match spec_key_find(attribs, key) {
        Some(w) => {
            assert(0 <= w < attribs.len() && attribs[w].0@ == key);
            if w < t {
                assert(spec_enum_attr_ok(attribs, t));
                assert(attribs[w].0@ != attribs[t].0@);
            } else if w > t {
                assert(spec_enum_attr_ok(attribs, w));
                assert(attribs[t].0@ != attribs[w].0@);
            }
            assert(w == t);
        },
        None => {
            assert(false);
        },
    }
}

use crate::attr::spec_key_find;

/// With the environment already carrying a marker, or two markers ahead, the
/// variant scan fails.
proof fn lemma_marker_conflict(
    decl: EnumDecl,
    attribs_have_default: bool,
    i: int,
    marker: Option<int>,
)
    requires
        0 <= i,
        decl.derives_default,
        (exists|a: int, b: int|
            i <= a < b < decl.variants@.len() && (#[trigger] decl.variants@[a]).is_default && (
            #[trigger] decl.variants@[b]).is_default) || (marker is Some && exists|a: int|
            i <= a < decl.variants@.len() && (#[trigger] decl.variants@[a]).is_default),
    ensures
        spec_variant_err(decl, attribs_have_default, i, marker) is Some,
    decreases decl.variants@.len() - i,
{
    assert(i < decl.variants@.len());
    let v = decl.variants@[i];
    if !v.has_fields {
        if v.is_default {
            match marker {
                Some(_) => {},
                None => {
                    if !attribs_have_default {
                        let (a, b) = choose|a: int, b: int|
                            i <= a < b < decl.variants@.len() && (
                            #[trigger] decl.variants@[a]).is_default && (
                            #[trigger] decl.variants@[b]).is_default;
                        lemma_marker_conflict(decl, attribs_have_default, i + 1, Some(i));
                    }
                },
            }
        } else {
            if exists|a: int, b: int|
                i <= a < b < decl.variants@.len() && (#[trigger] decl.variants@[a]).is_default && (
                #[trigger] decl.variants@[b]).is_default {
                let (a, b) = choose|a: int, b: int|
                    i <= a < b < decl.variants@.len() && (#[trigger] decl.variants@[a]).is_default
                        && (#[trigger] decl.variants@[b]).is_default;
                assert(a > i);
            } else {
                let a = choose|a: int|
                    i <= a < decl.variants@.len() && (#[trigger] decl.variants@[a]).is_default;
                assert(a > i);
            }
            lemma_marker_conflict(decl, attribs_have_default, i + 1, marker);
        }
    }
}

/// An enumeration that derives a default and carries two default markers
/// fails compilation: whatever else the declaration holds, the variant scan
/// reports an error.
pub proof fn lemma_multiple_default_markers_rejected(decl: EnumDecl, attribs_have_default: bool)
    requires
        decl.derives_default,
        exists|a: int, b: int|
            0 <= a < b < decl.variants@.len() && (#[trigger] decl.variants@[a]).is_default && (
            #[trigger] decl.variants@[b]).is_default,
    ensures
        spec_variant_err(decl, attribs_have_default, 0, None) is Some,
{
    lemma_marker_conflict(decl, attribs_have_default, 0, None);
}

} // verus!
