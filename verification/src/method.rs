//! The parameter classifier and the compiled method descriptor: a handler's
//! ordered parameter list is mapped onto the input schema's properties, two
//! reserved ambient roles, and one catch-all role.

use vstd::prelude::*;

use crate::error::SpecError;
use crate::schema::ArraySchema;
use crate::schema::BooleanSchema;
use crate::schema::EnumSchema;
use crate::schema::IntegerSchema;
use crate::schema::ObjectSchema;
use crate::schema::Property;
use crate::schema::Schema;
use crate::schema::StringSchema;
use crate::strutil::str_eq;

verus! {

/// The declared type of a handler parameter, as the registration step
/// describes it: a reference, a trait-object reference, or a plain type path.
pub enum ParamTy {
    /// A reference type.
    Ref(Box<ParamTy>),
    /// A trait-object type, as the paths of its bounds in order.
    TraitObject(Vec<PathTy>),
    /// A plain type path.
    Path(PathTy),
}

/// A type path: whether it is fully qualified, and its segments in order.
pub struct PathTy {
    /// Whether the path carries a qualified-self prefix.
    pub qualified: bool,
    /// The path segments.
    pub segments: Vec<String>,
}

/// One declared handler parameter: its name and its declared type.
pub struct ParamDecl {
    /// The parameter name.
    pub name: String,
    /// The declared type.
    pub ty: ParamTy,
}

/// A handler signature as the registration step describes it.
pub struct FnDecl {
    /// The handler's name.
    pub name: String,
    /// Whether the handler is asynchronous; such handlers are rejected.
    pub is_async: bool,
    /// Whether the first parameter is a receiver; such handlers are rejected.
    pub takes_self: bool,
    /// The ordered parameters.
    pub params: Vec<ParamDecl>,
    /// The leading documentation lines.
    pub doc_lines: Vec<String>,
}

/// How one parameter is filled by the dispatch routine.
#[derive(Debug, PartialEq)]
pub enum ParamClass {
    /// Drawn from the value bag under the parameter's name; `prop_index` is
    /// the index of the matching input-schema property.
    Named { optional: bool, prop_index: usize },
    /// Bound to the method descriptor handle.
    AmbientMethod,
    /// Bound to the runtime-environment handle.
    AmbientEnvironment,
    /// Bound to whatever remains of the bag after named extraction.
    CatchAll,
}

/// A classified handler parameter.
#[derive(Debug, PartialEq)]
pub struct Parameter {
    /// The parameter name.
    pub name: String,
    /// Its classification.
    pub kind: ParamClass,
}

/// The compiled method contract: built once, immutable thereafter.
#[derive(Debug, PartialEq)]
pub struct ApiMethod {
    /// The input schema; always an object schema.
    pub input_schema: ObjectSchema,
    /// The return schema, if the method return_schema a value.
    pub return_schema: Option<Schema>,
    /// Whether the method requires the protected execution path.
    pub protected: bool,
    /// The classified parameters, in handler declaration order.
    pub parameters: Vec<Parameter>,
}

/// Whether a declared type is a reference to the method-descriptor
/// capability: a plain, unqualified path whose last segment is `ApiMethod`.
pub open spec fn spec_is_api_method_type(t: ParamTy) -> bool {
    t matches ParamTy::Ref(inner) && *inner matches ParamTy::Path(p) && !p.qualified
        && p.segments@.len() > 0 && p.segments@[p.segments@.len() - 1]@ == "ApiMethod"@
}

/// Whether a declared type is a reference to the runtime-environment
/// capability: a trait object whose first bound ends in `RpcEnvironment`.
pub open spec fn spec_is_rpc_env_type(t: ParamTy) -> bool {
    t matches ParamTy::Ref(inner) && *inner matches ParamTy::TraitObject(bounds)
        && bounds@.len() > 0 && bounds@[0].segments@.len() > 0 && bounds@[0].segments@[bounds@[
        0
    ].segments@.len() - 1]@ == "RpcEnvironment"@
}

/// Whether a declared type is the generic value type: the unqualified path
/// `Value`, or the two-segment path naming the generic-value codec's type.
pub open spec fn spec_is_value_type(t: ParamTy) -> bool {
    t matches ParamTy::Path(p) && !p.qualified && ((p.segments@.len() == 1 && p.segments@[0]@
        == "Value"@) || (p.segments@.len() == 2 && p.segments@[0]@ == "serde_json"@
        && p.segments@[1]@ == "Value"@))
}

/// Check for a reference to the method-descriptor capability.
pub fn is_api_method_type(ty: &ParamTy) -> (r: bool)
    ensures
        r == spec_is_api_method_type(*ty),
{
    match ty {
        ParamTy::Ref(inner) => match &**inner {
            ParamTy::Path(p) => {
                if p.qualified {
                    return false;
                }
                let n = p.segments.len();
                n > 0 && str_eq(p.segments[n - 1].as_str(), "ApiMethod")
            },
            _ => false,
        },
        _ => false,
    }
}

/// Check for a reference to the runtime-environment capability.
pub fn is_rpc_env_type(ty: &ParamTy) -> (r: bool)
    ensures
        r == spec_is_rpc_env_type(*ty),
{
    match ty {
        ParamTy::Ref(inner) => match &**inner {
            ParamTy::TraitObject(bounds) => {
                if bounds.len() == 0 {
                    return false;
                }
                let n = bounds[0].segments.len();
                n > 0 && str_eq(bounds[0].segments[n - 1].as_str(), "RpcEnvironment")
            },
            _ => false,
        },
        _ => false,
    }
}

/// Check for the generic value type.
pub fn is_value_type(ty: &ParamTy) -> (r: bool)
    ensures
        r == spec_is_value_type(*ty),
{
    match ty {
        ParamTy::Path(p) => {
            if p.qualified {
                return false;
            }
            if p.segments.len() == 1 {
                str_eq(p.segments[0].as_str(), "Value")
            } else if p.segments.len() == 2 {
                str_eq(p.segments[0].as_str(), "serde_json") && str_eq(
                    p.segments[1].as_str(),
                    "Value",
                )
            } else {
                false
            }
        },
        _ => false,
    }
}

/// The first property with the given name, if any, by index.
pub open spec fn spec_prop_find(props: Seq<Property>, name: Seq<char>) -> Option<int>
    decreases props.len(),
{
    if props.len() == 0 {
        None
    } else if props[0].name@ == name {
        Some(0)
    } else {
        match spec_prop_find(props.drop_first(), name) {
            Some(j) => Some(j + 1),
            None => None,
        }
    }
}

/// Finding a property skips a prefix without a match.
pub proof fn lemma_prop_find_skip(props: Seq<Property>, name: Seq<char>, i: int)
    requires
        0 <= i <= props.len(),
        forall|k: int| 0 <= k < i ==> (#[trigger] props[k]).name@ != name,
    ensures
        spec_prop_find(props, name) == match spec_prop_find(props.skip(i), name) {
            Some(j) => Some(j + i),
            None => None::<int>,
        },
    decreases i,
{
    if i == 0 {
        assert(props.skip(0) =~= props);
    } else {
        lemma_prop_find_skip(props, name, i - 1);
        let suffix = props.skip(i - 1);
        assert(suffix[0] == props[i - 1]);
        assert(suffix.drop_first() =~= props.skip(i));
    }
}

/// Classify the parameters from index `i` on; per parameter the first
/// matching rule wins: a name listed in the input schema, the
/// method-descriptor capability (at most once), the runtime-environment
/// capability (at most once), the generic value type (at most once), else the
/// parameter is rejected. The `seen_*` flags say which ambient roles were
/// already taken by earlier parameters.
pub open spec fn spec_classify(
    decls: Seq<ParamDecl>,
    props: Seq<Property>,
    seen_method: bool,
    seen_env: bool,
    seen_value: bool,
) -> Result<Seq<Parameter>, SpecError>
    decreases decls.len(),
{
    if decls.len() == 0 {
        Ok(Seq::empty())
    } else {
        let d = decls[0];
        match spec_prop_find(props, d.name@) {
            Some(p) => match spec_classify(decls.drop_first(), props, seen_method, seen_env,
                seen_value) {
                Ok(rest) => Ok(
                    seq![
                        Parameter {
                            name: d.name,
                            kind: ParamClass::Named {
                                optional: props[p].optional,
                                prop_index: p as usize,
                            },
                        },
                    ] + rest,
                ),
                Err(e) => Err(e),
            },
            None => {
                if spec_is_api_method_type(d.ty) {
                    if seen_method {
                        Err(SpecError::MultipleApiMethodParams(d.name))
                    } else {
                        match spec_classify(decls.drop_first(), props, true, seen_env, seen_value) {
                            Ok(rest) => Ok(
                                seq![Parameter { name: d.name, kind: ParamClass::AmbientMethod }]
                                    + rest,
                            ),
                            Err(e) => Err(e),
                        }
                    }
                } else if spec_is_rpc_env_type(d.ty) {
                    if seen_env {
                        Err(SpecError::MultipleRpcEnvParams(d.name))
                    } else {
                        match spec_classify(decls.drop_first(), props, seen_method, true,
                            seen_value) {
                            Ok(rest) => Ok(
                                seq![
                                    Parameter {
                                        name: d.name,
                                        kind: ParamClass::AmbientEnvironment,
                                    },
                                ] + rest,
                            ),
                            Err(e) => Err(e),
                        }
                    }
                } else if spec_is_value_type(d.ty) {
                    if seen_value {
                        Err(SpecError::MultipleValueParams(d.name))
                    } else {
                        match spec_classify(decls.drop_first(), props, seen_method, seen_env,
                            true) {
                            Ok(rest) => Ok(
                                seq![Parameter { name: d.name, kind: ParamClass::CatchAll }]
                                    + rest,
                            ),
                            Err(e) => Err(e),
                        }
                    }
                } else {
                    Err(SpecError::UnexpectedParameter(d.name))
                }
            },
        }
    }
}

/// Classify a handler's parameters against the finished input object schema.
#[verifier::loop_isolation(false)]
#[verifier::rlimit(60)]
pub fn classify_parameters(decls: &Vec<ParamDecl>, schema: &ObjectSchema) -> (r: Result<
    Vec<Parameter>,
    SpecError,
>)
    ensures
        match spec_classify(decls@, schema.properties@, false, false, false) {
            Ok(ps) => r matches Ok(v) && v@ == ps,
            Err(e) => r == Err::<Vec<Parameter>, SpecError>(e),
        },
{
    let mut out: Vec<Parameter> = Vec::new();
    let mut seen_method = false;
    let mut seen_env = false;
    let mut seen_value = false;
    let props = &schema.properties;

    proof {
        assert(decls@.skip(0int) =~= decls@);
        match spec_classify(decls@, props@, false, false, false) {
            Ok(rest) => {
                assert(Seq::<Parameter>::empty() + rest =~= rest);
            },
            Err(_) => {},
        }
    }
    let mut i: usize = 0;
    while i < decls.len()
        invariant
            i <= decls@.len(),
            out@.len() == i,
            spec_classify(decls@, props@, false, false, false) == (match spec_classify(
                decls@.skip(i as int),
                props@,
                seen_method,
                seen_env,
                seen_value,
            ) {
                Ok(rest) => Ok::<Seq<Parameter>, SpecError>(out@ + rest),
                Err(e) => Err::<Seq<Parameter>, SpecError>(e),
            }),
        decreases decls@.len() - i,
    {
        let ghost prev_out = out@;
        let ghost prev_sm = seen_method;
        let ghost prev_se = seen_env;
        let ghost prev_sv = seen_value;
        proof {
            assert(decls@.skip(i as int)[0] == decls@[i as int]);
            assert(decls@.skip(i as int).drop_first() =~= decls@.skip(i as int + 1));
        }
        let d = &decls[i];
        match crate::schema::prop_find(props, &d.name) {
            Some(p) => {
                proof {
                    lemma_prop_find_skip(props@, d.name@, p as int);
                    assert(props@.skip(p as int)[0] == props@[p as int]);
                    assert(spec_prop_find(props@, d.name@) == Some(p as int));
                }
                out.push(
                    Parameter {
                        name: d.name.clone(),
                        kind: ParamClass::Named { optional: props[p].optional, prop_index: p },
                    },
                );
            },
            None => {
                proof {
                    lemma_prop_find_skip(props@, d.name@, props@.len() as int);
                    assert(props@.skip(props@.len() as int) =~= Seq::<Property>::empty());
                    assert(spec_prop_find(props@, d.name@) is None);
                }
                if is_api_method_type(&d.ty) {
                    if seen_method {
                        return Err(SpecError::MultipleApiMethodParams(d.name.clone()));
                    }
                    seen_method = true;
                    out.push(
                        Parameter { name: d.name.clone(), kind: ParamClass::AmbientMethod },
                    );
                } else if is_rpc_env_type(&d.ty) {
                    if seen_env {
                        return Err(SpecError::MultipleRpcEnvParams(d.name.clone()));
                    }
                    seen_env = true;
                    out.push(
                        Parameter { name: d.name.clone(), kind: ParamClass::AmbientEnvironment },
                    );
                } else if is_value_type(&d.ty) {
                    if seen_value {
                        return Err(SpecError::MultipleValueParams(d.name.clone()));
                    }
                    seen_value = true;
                    out.push(Parameter { name: d.name.clone(), kind: ParamClass::CatchAll });
                } else {
                    return Err(SpecError::UnexpectedParameter(d.name.clone()));
                }
            },
        }
        i += 1;
        proof {
            let last = out@[i - 1];
            assert(out@ =~= prev_out.push(last));
            assert(prev_out.push(last) =~= prev_out + seq![last]);
            match spec_classify(decls@.skip(i as int), props@, seen_method, seen_env, seen_value) {
                Ok(rest) => {
                    assert((prev_out + seq![last]) + rest =~= prev_out + (seq![last] + rest));
                },
                Err(_) => {},
            }
        }
    }
    proof {
        assert(decls@.skip(decls@.len() as int) =~= Seq::<ParamDecl>::empty());
        assert(out@ + Seq::<Parameter>::empty() =~= out@);
    }
    Ok(out)
}

/// Map a handler signature onto the input schema: asynchronous handlers and
/// receiver-style first parameters are rejected outright, then the parameters
/// are classified in declaration order.
pub fn handle_function_signature(func: &FnDecl, input_schema: &ObjectSchema) -> (r: Result<
    Vec<Parameter>,
    SpecError,
>)
    ensures
        func.is_async ==> r == Err::<Vec<Parameter>, SpecError>(SpecError::AsyncHandler),
        !func.is_async && func.takes_self ==> r == Err::<Vec<Parameter>, SpecError>(
            SpecError::ReceiverParameter,
        ),
        !func.is_async && !func.takes_self ==> match spec_classify(
            func.params@,
            input_schema.properties@,
            false,
            false,
            false,
        ) {
            Ok(ps) => r matches Ok(v) && v@ == ps,
            Err(e) => r == Err::<Vec<Parameter>, SpecError>(e),
        },
{
    if func.is_async {
        return Err(SpecError::AsyncHandler);
    }
    if func.takes_self {
        return Err(SpecError::ReceiverParameter);
    }
    classify_parameters(&func.params, input_schema)
}

use crate::attr::lemma_keys_distinct;
use crate::attr::parse_schema;
use crate::attr::spec_decl_get;
use crate::attr::spec_enum_attr_ok;
use crate::attr::spec_key_find;
use crate::attr::spec_map_err;
use crate::attr::spec_parses_to;
use crate::attr::DeclValue;
use crate::docs::split_doc_comment;
use crate::docs::DocParts;
use crate::registry::SchemaRegistry;

/// The description a schema carries.
pub open spec fn spec_schema_description(s: Schema) -> Option<String> {
    match s {
        Schema::Boolean(x) => x.description,
        Schema::Integer(x) => x.description,
        Schema::String(x) => x.description,
        Schema::Array(x) => x.description,
        Schema::Object(x) => x.description,
        Schema::Enum(x) => x.description,
    }
}

/// The same schema carrying the given description.
pub open spec fn spec_with_description(s: Schema, d: String) -> Schema {
    match s {
        Schema::Boolean(x) => Schema::Boolean(BooleanSchema { description: Some(d), ..x }),
        Schema::Integer(x) => Schema::Integer(IntegerSchema { description: Some(d), ..x }),
        Schema::String(x) => Schema::String(StringSchema { description: Some(d), ..x }),
        Schema::Array(x) => Schema::Array(ArraySchema { description: Some(d), ..x }),
        Schema::Object(x) => Schema::Object(ObjectSchema { description: Some(d), ..x }),
        Schema::Enum(x) => Schema::Enum(EnumSchema { description: Some(d), ..x }),
    }
}

/// Put a description on a schema.
pub fn with_description(s: Schema, d: String) -> (r: Schema)
    ensures
        r == spec_with_description(s, d),
{
    match s {
        Schema::Boolean(x) => Schema::Boolean(BooleanSchema { description: Some(d), ..x }),
        Schema::Integer(x) => Schema::Integer(IntegerSchema { description: Some(d), ..x }),
        Schema::String(x) => Schema::String(StringSchema { description: Some(d), ..x }),
        Schema::Array(x) => Schema::Array(ArraySchema { description: Some(d), ..x }),
        Schema::Object(x) => Schema::Object(ObjectSchema { description: Some(d), ..x }),
        Schema::Enum(x) => Schema::Enum(EnumSchema { description: Some(d), ..x }),
    }
}

/// Derive missing descriptions from the documentation text: the trimmed text
/// before the `Returns:` marker line becomes the input description if none
/// was set; the trimmed text after it becomes the return description if a
/// return schema exists and lacks one. More than one marker line is a hard
/// error.
pub fn derive_descriptions(
    input: ObjectSchema,
    return_schema: Option<Schema>,
    doc_lines: &Vec<String>,
) -> (r: Result<(ObjectSchema, Option<Schema>), SpecError>)
    ensures
        r is Err <==> exists|i: int, j: int|
            0 <= i < j < doc_lines@.len() && crate::docs::spec_is_marker(
                #[trigger] doc_lines@[i],
            ) && crate::docs::spec_is_marker(#[trigger] doc_lines@[j]),
        r matches Err(e) ==> e == SpecError::MultipleReturnsSections,
        r matches Ok((i2, r2)) ==> {
            &&& i2 == (ObjectSchema { description: i2.description, ..input })
            &&& (input.description is Some ==> i2.description == input.description)
            &&& (input.description is None && doc_lines@.len() == 0 ==> i2.description is None)
            &&& (input.description is None && doc_lines@.len() > 0 ==> (
            i2.description matches Some(d) && d@ == crate::docs::spec_doc_description(doc_lines@)))
            &&& (return_schema is None ==> r2 is None)
            &&& (return_schema matches Some(s0) ==> r2 matches Some(s1) && (if doc_lines@.len() > 0
                && crate::docs::spec_doc_returns(doc_lines@) is Some && spec_schema_description(s0)
                is None {
                exists|d: String|
                    s1 == spec_with_description(s0, d) && d@ == crate::docs::spec_doc_returns(
                        doc_lines@,
                    )->Some_0
            } else {
                s1 == s0
            }))
        },
{
    if doc_lines.len() == 0 {
        return Ok((input, return_schema));
    }
    let parts = match split_doc_comment(doc_lines) {
        Ok(parts) => parts,
        Err(e) => {
            return Err(e);
        },
    };
    proof {
        match crate::docs::find_first_marker_spec(doc_lines@) {
            Some(m) => {
                assert(crate::docs::spec_doc_returns(doc_lines@) is Some);
            },
            None => {
                assert(crate::docs::spec_doc_returns(doc_lines@) is None);
            },
        }
    }
    let input2 = if input.description.is_none() {
        ObjectSchema { description: Some(parts.description), ..input }
    } else {
        input
    };
    let returns2 = match return_schema {
        None => None,
        Some(s0) => match parts.returns_description {
            Some(rd) => {
                let has_desc = match &s0 {
                    Schema::Boolean(x) => x.description.is_some(),
                    Schema::Integer(x) => x.description.is_some(),
                    Schema::String(x) => x.description.is_some(),
                    Schema::Array(x) => x.description.is_some(),
                    Schema::Object(x) => x.description.is_some(),
                    Schema::Enum(x) => x.description.is_some(),
                };
                proof {
                    assert(has_desc == (spec_schema_description(s0) is Some));
                }
                if has_desc {
                    Some(s0)
                } else {
                    Some(with_description(s0, rd))
                }
            },
            None => Some(s0),
        },
    };
    Ok((input2, returns2))
}

/// Whether one entry of a method's attributes is acceptable: a required
/// `input` object description, an optional `returns` description, an
/// optional `protected` flag, each at most once.
pub open spec fn spec_method_attr_ok(attribs: Seq<(String, DeclValue)>, i: int) -> bool {
    let k = attribs[i].0@;
    let v = attribs[i].1;
    &&& (k == "input"@ || k == "returns"@ || k == "protected"@)
    &&& (forall|t: int| 0 <= t < i ==> (#[trigger] attribs[t]).0@ != k)
    &&& (k == "input"@ ==> v is Mapping)
    &&& (k == "returns"@ ==> v is Mapping)
    &&& (k == "protected"@ ==> v is Bool)
}

/// The first error among a method's attributes from entry `i` on.
pub open spec fn spec_method_attr_err(attribs: Seq<(String, DeclValue)>, i: int) -> Option<
    SpecError,
>
    decreases attribs.len() - i,
{
    if i < 0 || i >= attribs.len() {
        None
    } else if !spec_method_attr_ok(attribs, i) {
        if !(attribs[i].0@ == "input"@ || attribs[i].0@ == "returns"@ || attribs[i].0@
            == "protected"@) {
            Some(SpecError::UnknownKey(attribs[i].0))
        } else {
            Some(SpecError::BadValue(attribs[i].0))
        }
    } else {
        spec_method_attr_err(attribs, i + 1)
    }
}

/// Whether a method declaration compiles: acceptable attributes, an `input`
/// section that describes an object schema without errors, a well-shaped
/// optional `returns` section, at most one `Returns:` marker line in the
/// documentation, a plain synchronous free function, and parameters the
/// classifier accepts against the parsed input schema.
pub open spec fn spec_method_compiles(
    attribs: Seq<(String, DeclValue)>,
    func: FnDecl,
    reg: Seq<(String, Schema)>,
) -> bool {
    &&& spec_method_attr_err(attribs, 0) is None
    &&& !func.is_async
    &&& !func.takes_self
    &&& !(exists|i: int, j: int|
        0 <= i < j < func.doc_lines@.len() && crate::docs::spec_is_marker(
            #[trigger] func.doc_lines@[i],
        ) && crate::docs::spec_is_marker(#[trigger] func.doc_lines@[j]))
    &&& (match spec_decl_get(attribs, "input"@) {
        Some(DeclValue::Mapping(ie)) => {
            &&& spec_map_err(ie@, 0, false, reg) is None
            &&& crate::attr::spec_yields_object(ie@, reg)
            &&& forall|os: ObjectSchema|
                spec_parses_to(ie@, reg, Schema::Object(os)) ==> spec_classify(
                    func.params@,
                    os.properties@,
                    false,
                    false,
                    false,
                ) is Ok
        },
        _ => false,
    })
    &&& (match spec_decl_get(attribs, "returns"@) {
        Some(DeclValue::Mapping(re)) => spec_map_err(re@, 0, false, reg) is None,
        Some(_) => false,
        None => true,
    })
}

/// Compile a method contract: the required `input` object description, the
/// optional `returns` description and `protected` flag are parsed, missing
/// descriptions are derived from the documentation, and the handler's
/// parameters are classified against the finished input schema. A valid
/// declaration always compiles (see [`spec_method_compiles`]).
#[verifier::loop_isolation(false)]
#[verifier::rlimit(100)]
pub fn handle_method(
    attribs: &Vec<(String, DeclValue)>,
    func: &FnDecl,
    reg: &SchemaRegistry,
) -> (r: Result<ApiMethod, SpecError>)
    requires
        reg.is_published(),
        reg.wf(),
        forall|i: int, j: int|
            0 <= i < j < func.params@.len() ==> (#[trigger] func.params@[i]).name@ != (
            #[trigger] func.params@[j]).name@,
    ensures
        spec_method_compiles(attribs@, *func, reg.entries()) ==> r is Ok,
        r matches Ok(m) ==> crate::dispatch::api_method_wf(m),
        spec_method_attr_err(attribs@, 0) matches Some(e) ==> r == Err::<ApiMethod, SpecError>(e),
        spec_method_attr_err(attribs@, 0) is None && spec_decl_get(attribs@, "input"@) is None
            ==> r == Err::<ApiMethod, SpecError>(SpecError::MissingInput),
        r matches Ok(m) ==> {
            &&& (match spec_decl_get(attribs@, "protected"@) {
                Some(DeclValue::Bool(b)) => m.protected == b,
                _ => m.protected == false,
            })
            &&& spec_decl_get(attribs@, "input"@) matches Some(DeclValue::Mapping(ie)) && {
                &&& spec_map_err(ie@, 0, false, reg.entries()) is None
                &&& exists|d0: Option<String>|
                    spec_parses_to(
                        ie@,
                        reg.entries(),
                        Schema::Object(ObjectSchema { description: d0, ..m.input_schema }),
                    )
            }
            &&& (m.return_schema is Some) == (spec_decl_get(attribs@, "returns"@) is Some)
            &&& (spec_decl_get(attribs@, "returns"@) matches Some(DeclValue::Mapping(re)) ==> {
                &&& spec_map_err(re@, 0, false, reg.entries()) is None
                &&& m.return_schema matches Some(s1) && exists|s0: Schema|
                    spec_parses_to(re@, reg.entries(), s0) && (s1 == s0 || (
                    spec_schema_description(s0) is None && exists|d: String|
                        s1 == spec_with_description(s0, d)))
            })
            &&& !func.is_async
            &&& !func.takes_self
            &&& (match spec_classify(func.params@, m.input_schema.properties@, false, false,
                false) {
                Ok(ps) => m.parameters@ == ps,
                Err(_) => false,
            })
        },
        func.is_async && spec_method_attr_err(attribs@, 0) is None && (
        spec_decl_get(attribs@, "input"@) matches Some(DeclValue::Mapping(ie)) && spec_map_err(
            ie@,
            0,
            false,
            reg.entries(),
        ) is None) ==> r is Err,
{
    let mut input_entries: Option<&Vec<(String, DeclValue)>> = None;
    let ghost mut input_at: int = 0;
    let mut returns_entries: Option<&Vec<(String, DeclValue)>> = None;
    let ghost mut returns_at: int = 0;
    let mut protected = false;

    let mut i: usize = 0;
    while i < attribs.len()
        invariant
            i <= attribs@.len(),
            spec_method_attr_err(attribs@, 0) == spec_method_attr_err(attribs@, i as int),
            forall|t: int| 0 <= t < i ==> spec_method_attr_ok(attribs@, t),
            input_entries matches Some(ie) ==> 0 <= input_at < i && attribs@[input_at].0@
                == "input"@ && attribs@[input_at].1 == DeclValue::Mapping(*ie),
            input_entries is None ==> forall|t: int|
                0 <= t < i ==> (#[trigger] attribs@[t]).0@ != "input"@,
            returns_entries matches Some(re) ==> 0 <= returns_at < i && attribs@[returns_at].0@
                == "returns"@ && attribs@[returns_at].1 == DeclValue::Mapping(*re),
            returns_entries is None ==> forall|t: int|
                0 <= t < i ==> (#[trigger] attribs@[t]).0@ != "returns"@,
            (exists|t: int|
                0 <= t < i && (#[trigger] attribs@[t]).0@ == "protected"@ && attribs@[t].1
                    == DeclValue::Bool(protected)) || ((forall|t: int|
                0 <= t < i ==> (#[trigger] attribs@[t]).0@ != "protected"@) && protected == false),
        decreases attribs@.len() - i,
    {
        proof {
            lemma_keys_distinct();
            reveal_strlit("input");
            reveal_strlit("returns");
            reveal_strlit("protected");
            lemma_method_keys_distinct();
        }
        let key = &attribs[i].0;
        let is_input = crate::strutil::str_eq(key.as_str(), "input");
        let is_returns = crate::strutil::str_eq(key.as_str(), "returns");
        let is_protected = crate::strutil::str_eq(key.as_str(), "protected");
        if !(is_input || is_returns || is_protected) {
            return Err(SpecError::UnknownKey(key.clone()));
        }
        if crate::attr::key_before(attribs, i, key) {
            return Err(SpecError::BadValue(key.clone()));
        }
        if is_input {
            match &attribs[i].1 {
                DeclValue::Mapping(ie) => {
                    input_entries = Some(ie);
                    proof {
                        input_at = i as int;
                    }
                },
                _ => {
                    return Err(SpecError::BadValue(key.clone()));
                },
            }
        } else if is_returns {
            match &attribs[i].1 {
                DeclValue::Mapping(re) => {
                    returns_entries = Some(re);
                    proof {
                        returns_at = i as int;
                    }
                },
                _ => {
                    return Err(SpecError::BadValue(key.clone()));
                },
            }
        } else {
            match &attribs[i].1 {
                DeclValue::Bool(b) => {
                    protected = *b;
                },
                _ => {
                    return Err(SpecError::BadValue(key.clone()));
                },
            }
        }
        proof {
            assert(spec_method_attr_ok(attribs@, i as int));
        }
        i += 1;
    }
    proof {
        lemma_method_keys_distinct();
        match input_entries {
            Some(_) => {
                lemma_method_decl_get_at(attribs@, "input"@, input_at);
            },
            None => {
                assert(spec_decl_get(attribs@, "input"@) is None);
            },
        }
        match returns_entries {
            Some(_) => {
                lemma_method_decl_get_at(attribs@, "returns"@, returns_at);
            },
            None => {
                assert(spec_decl_get(attribs@, "returns"@) is None);
            },
        }
        if exists|t: int|
            0 <= t < attribs@.len() && (#[trigger] attribs@[t]).0@ == "protected"@ && attribs@[t].1
                == DeclValue::Bool(protected) {
            let t = choose|t: int|
                0 <= t < attribs@.len() && (#[trigger] attribs@[t]).0@ == "protected"@
                    && attribs@[t].1 == DeclValue::Bool(protected);
            lemma_method_decl_get_at(attribs@, "protected"@, t);
        } else {
            assert(spec_decl_get(attribs@, "protected"@) is None);
        }
    }

    let input_entries = match input_entries {
        Some(ie) => ie,
        None => {
            return Err(SpecError::MissingInput);
        },
    };

    let input_schema = match parse_schema(input_entries, false, reg) {
        Ok(Schema::Object(os)) => os,
        Ok(s) => {
            proof {
                crate::attr::lemma_parses_to_object_variant(input_entries@, reg.entries(), s);
            }
            return Err(SpecError::BadValue(String::from_str("input")));
        },
        Err(e) => {
            return Err(e);
        },
    };

    let return_schema = match returns_entries {
        Some(re) => match parse_schema(re, false, reg) {
            Ok(s) => Some(s),
            Err(e) => {
                return Err(e);
            },
        },
        None => None,
    };

    let ghost input_pre = input_schema;
    let ghost returns_pre = return_schema;
    let (input_schema, return_schema) = match derive_descriptions(
        input_schema,
        return_schema,
        &func.doc_lines,
    ) {
        Ok(pair) => pair,
        Err(e) => {
            return Err(e);
        },
    };

    let parameters = match handle_function_signature(func, &input_schema) {
        Ok(ps) => ps,
        Err(e) => {
            proof {
                if spec_method_compiles(attribs@, *func, reg.entries()) {
                    assert(spec_parses_to(
                        input_entries@,
                        reg.entries(),
                        Schema::Object(input_pre),
                    ));
                    assert(input_schema.properties == input_pre.properties);
                    assert(spec_classify(
                        func.params@,
                        input_pre.properties@,
                        false,
                        false,
                        false,
                    ) is Ok);
                    assert(false);
                }
            }
            return Err(e);
        },
    };
    let prop_count = input_schema.properties.len();
    proof {
        assert(input_schema.properties@.len() == prop_count);
        lemma_classify_wf(func.params@, input_schema.properties@, false, false, false);
    }

    Ok(ApiMethod { input_schema, return_schema, protected, parameters })
}

/// The three method attribute keys are pairwise distinct.
proof fn lemma_method_keys_distinct()
    ensures
        "input"@ != "returns"@,
        "input"@ != "protected"@,
        "returns"@ != "protected"@,
{
    reveal_strlit("input");
    reveal_strlit("returns");
    reveal_strlit("protected");
    assert("input"@.len() == 5);
    assert("returns"@.len() == 7);
    assert("protected"@.len() == 9);
}

/// Among well-formed method attributes, the first entry under a key is the
/// only one.
proof fn lemma_method_decl_get_at(attribs: Seq<(String, DeclValue)>, key: Seq<char>, t: int)
    requires
        forall|u: int| 0 <= u < attribs.len() ==> spec_method_attr_ok(attribs, u),
        0 <= t < attribs.len(),
        attribs[t].0@ == key,
    ensures
        spec_decl_get(attribs, key) == Some(attribs[t].1),
{
    assert(exists|u: int| 0 <= u < attribs.len() && (#[trigger] attribs[u]).0@ == key);
    match spec_key_find(attribs, key) {
        Some(w) => {
            assert(0 <= w < attribs.len() && attribs[w].0@ == key);
            if w < t {
                assert(spec_method_attr_ok(attribs, t));
                assert(attribs[w].0@ != attribs[t].0@);
            } else if w > t {
                assert(spec_method_attr_ok(attribs, w));
                assert(attribs[t].0@ != attribs[w].0@);
            }
            assert(w == t);
        },
        None => {
            assert(false);
        },
    }
}

/// A parameter the environment rule classifies: typed as the
/// runtime-environment capability and not named in the input schema.
pub open spec fn spec_env_candidate(decls: Seq<ParamDecl>, props: Seq<Property>, i: int) -> bool {
    &&& spec_is_rpc_env_type(decls[i].ty)
    &&& spec_prop_find(props, decls[i].name@) is None
}

/// With the environment role already taken, or taken twice over, the
/// classification fails.
proof fn lemma_env_conflict(
    decls: Seq<ParamDecl>,
    props: Seq<Property>,
    seen_method: bool,
    seen_env: bool,
    seen_value: bool,
)
    requires
        (exists|i: int, j: int|
            0 <= i < j < decls.len() && spec_env_candidate(decls, props, i) && spec_env_candidate(
                decls,
                props,
                j,
            )) || (seen_env && exists|i: int|
            0 <= i < decls.len() && spec_env_candidate(decls, props, i)),
    ensures
        spec_classify(decls, props, seen_method, seen_env, seen_value) is Err,
    decreases decls.len(),
{
    let tail = decls.drop_first();
    assert(decls.len() > 0);
    let d = decls[0];
    // Carry the assumption over to the tail for the recursive cases.
    let pair_case = exists|i: int, j: int|
        0 <= i < j < decls.len() && spec_env_candidate(decls, props, i) && spec_env_candidate(
            decls,
            props,
            j,
        );
    if pair_case {
        let (i, j) = choose|i: int, j: int|
            0 <= i < j < decls.len() && spec_env_candidate(decls, props, i) && spec_env_candidate(
                decls,
                props,
                j,
            );
        assert(tail[j - 1] == decls[j]);
        if i > 0 {
            assert(tail[i - 1] == decls[i]);
            assert(spec_env_candidate(tail, props, i - 1) && spec_env_candidate(tail, props, j - 1));
        } else {
            assert(spec_env_candidate(tail, props, j - 1));
        }
    } else {
        let i = choose|i: int| 0 <= i < decls.len() && spec_env_candidate(decls, props, i);
        if i > 0 {
            assert(tail[i - 1] == decls[i]);
            assert(spec_env_candidate(tail, props, i - 1));
        }
    }
    match spec_prop_find(props, d.name@) {
        Some(_) => {
            // The head is named, so both candidates sit in the tail.
            lemma_env_conflict(tail, props, seen_method, seen_env, seen_value);
        },
        None => {
            if spec_is_api_method_type(d.ty) {
                if !seen_method {
                    lemma_env_conflict(tail, props, true, seen_env, seen_value);
                }
            } else if spec_is_rpc_env_type(d.ty) {
                if !seen_env {
                    // The head takes the environment role; a candidate remains
                    // in the tail either way.
                    assert(spec_env_candidate(decls, props, 0));
                    lemma_env_conflict(tail, props, seen_method, true, seen_value);
                }
            } else if spec_is_value_type(d.ty) {
                if !seen_value {
                    lemma_env_conflict(tail, props, seen_method, seen_env, true);
                }
            }
        },
    }
}

/// A handler declaring two parameters both matching the runtime-environment
/// capability, neither of them named in the input schema, fails
/// classification.
pub proof fn lemma_multiple_env_parameters_rejected(decls: Seq<ParamDecl>, props: Seq<Property>)
    requires
        exists|i: int, j: int|
            0 <= i < j < decls.len() && spec_env_candidate(decls, props, i) && spec_env_candidate(
                decls,
                props,
                j,
            ),
    ensures
        spec_classify(decls, props, false, false, false) is Err,
{
    lemma_env_conflict(decls, props, false, false, false);
}

/// A found property bears the searched name.
proof fn lemma_prop_find_names(props: Seq<Property>, name: Seq<char>)
    ensures
        spec_prop_find(props, name) matches Some(j) ==> 0 <= j < props.len() && props[j].name@
            == name,
    decreases props.len(),
{
    if props.len() > 0 && props[0].name@ != name {
        lemma_prop_find_names(props.drop_first(), name);
        match spec_prop_find(props.drop_first(), name) {
            Some(j) => {
                assert(props.drop_first()[j] == props[j + 1]);
            },
            None => {},
        }
    }
}

/// A successful classification is sound: one classified parameter per
/// declared one, under its name; every named classification points at the
/// property of that name; the catch-all role is taken at most once, and not
/// at all when it was already taken.
pub proof fn lemma_classify_wf(
    decls: Seq<ParamDecl>,
    props: Seq<Property>,
    seen_method: bool,
    seen_env: bool,
    seen_value: bool,
)
    requires
        props.len() <= usize::MAX,
    ensures
        spec_classify(decls, props, seen_method, seen_env, seen_value) matches Ok(ps) ==> {
            &&& ps.len() == decls.len()
            &&& forall|k: int| 0 <= k < ps.len() ==> (#[trigger] ps[k]).name == decls[k].name
            &&& forall|k: int|
                0 <= k < ps.len() ==> match (#[trigger] ps[k]).kind {
                    ParamClass::Named { optional, prop_index } => {
                        &&& prop_index < props.len()
                        &&& props[prop_index as int].name@ == ps[k].name@
                        &&& props[prop_index as int].optional == optional
                    },
                    _ => true,
                }
            &&& (seen_value ==> forall|k: int|
                0 <= k < ps.len() ==> !((#[trigger] ps[k]).kind is CatchAll))
            &&& forall|a: int, b: int|
                0 <= a < b < ps.len() ==> !((#[trigger] ps[a]).kind is CatchAll && (
                #[trigger] ps[b]).kind is CatchAll)
        },
    decreases decls.len(),
{
    if decls.len() > 0 {
        let tail = decls.drop_first();
        let d = decls[0];
        lemma_prop_find_names(props, d.name@);
        match spec_prop_find(props, d.name@) {
            Some(p) => {
                lemma_classify_wf(tail, props, seen_method, seen_env, seen_value);
                {
                        match spec_classify(tail, props, seen_method, seen_env, seen_value) {
                            Ok(rest) => {
                                let head = Parameter { name: d.name, kind: ParamClass::Named { optional: props[p].optional, prop_index: p as usize } };
                                let ps = seq![head] + rest;
                                assert(spec_classify(decls, props, seen_method, seen_env, seen_value)
                                    == Ok::<Seq<Parameter>, SpecError>(ps));
                                assert(ps[0] == head);
                                assert(forall|k: int| 1 <= k < ps.len() ==> ps[k] == rest[k - 1]);
                                assert(forall|k: int| 1 <= k < decls.len() ==> tail[k - 1] == decls[k]);
                            },
                            Err(_) => {},
                        }
                    }
            },
            None => {
                if spec_is_api_method_type(d.ty) {
                    if !seen_method {
                        lemma_classify_wf(tail, props, true, seen_env, seen_value);
                        {
                        match spec_classify(tail, props, true, seen_env, seen_value) {
                            Ok(rest) => {
                                let head = Parameter { name: d.name, kind: ParamClass::AmbientMethod };
                                let ps = seq![head] + rest;
                                assert(spec_classify(decls, props, seen_method, seen_env, seen_value)
                                    == Ok::<Seq<Parameter>, SpecError>(ps));
                                assert(ps[0] == head);
                                assert(forall|k: int| 1 <= k < ps.len() ==> ps[k] == rest[k - 1]);
                                assert(forall|k: int| 1 <= k < decls.len() ==> tail[k - 1] == decls[k]);
                            },
                            Err(_) => {},
                        }
                    }
                    }
                } else if spec_is_rpc_env_type(d.ty) {
                    if !seen_env {
                        lemma_classify_wf(tail, props, seen_method, true, seen_value);
                        {
                        match spec_classify(tail, props, seen_method, true, seen_value) {
                            Ok(rest) => {
                                let head = Parameter { name: d.name, kind: ParamClass::AmbientEnvironment };
                                let ps = seq![head] + rest;
                                assert(spec_classify(decls, props, seen_method, seen_env, seen_value)
                                    == Ok::<Seq<Parameter>, SpecError>(ps));
                                assert(ps[0] == head);
                                assert(forall|k: int| 1 <= k < ps.len() ==> ps[k] == rest[k - 1]);
                                assert(forall|k: int| 1 <= k < decls.len() ==> tail[k - 1] == decls[k]);
                            },
                            Err(_) => {},
                        }
                    }
                    }
                } else if spec_is_value_type(d.ty) {
                    if !seen_value {
                        lemma_classify_wf(tail, props, seen_method, seen_env, true);
                        {
                        match spec_classify(tail, props, seen_method, seen_env, true) {
                            Ok(rest) => {
                                let head = Parameter { name: d.name, kind: ParamClass::CatchAll };
                                let ps = seq![head] + rest;
                                assert(spec_classify(decls, props, seen_method, seen_env, seen_value)
                                    == Ok::<Seq<Parameter>, SpecError>(ps));
                                assert(ps[0] == head);
                                assert(forall|k: int| 1 <= k < ps.len() ==> ps[k] == rest[k - 1]);
                                assert(forall|k: int| 1 <= k < decls.len() ==> tail[k - 1] == decls[k]);
                            },
                            Err(_) => {},
                        }
                    }
                    }
                }
            },
        }
    }
}

} // verus!
