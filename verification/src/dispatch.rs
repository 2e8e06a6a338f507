//! The dispatch routine: extraction and validation of handler arguments from
//! a generic value bag, binding of the ambient handles, invocation of the
//! handler, and conversion of its result.

use vstd::prelude::*;

use crate::error::DispatchError;
use crate::method::ApiMethod;
use crate::method::ParamClass;
use crate::method::Parameter;
use crate::schema::Property;
use crate::schema::spec_valid;
use crate::schema::validate;
use crate::value::obj_has_key;
use crate::value::obj_value;
use crate::value::Value;

verus! {

/// The kind of process a dispatch environment belongs to.
#[derive(Clone, Copy, Debug, PartialEq, Eq, Structural)]
pub enum RpcEnvironmentType {
    /// Command line tool.
    Cli,
    /// Public, unprivileged server.
    Public,
    /// Privileged server.
    Privileged,
}

/// The runtime-environment handle the dispatch routine passes to handlers.
pub struct RpcEnvironment {
    /// The kind of process this environment belongs to.
    pub env_type: RpcEnvironmentType,
    /// Attributes a handler may record on its result.
    pub result_attributes: Vec<(String, Value)>,
}

/// One bound handler argument.
#[derive(Debug, PartialEq)]
pub enum Arg {
    /// A value drawn from the bag, or the leftover bag for a catch-all.
    Bound(Value),
    /// An optional named parameter that was absent from the bag.
    Absent,
    /// The method-descriptor handle.
    Method,
    /// The runtime-environment handle.
    Environment,
}

/// A handler the dispatch routine can invoke. Handler errors pass through
/// the dispatch routine unchanged.
pub trait ApiHandler {
    /// Run the handler on the extracted arguments.
    fn call(&self, args: Vec<Arg>, method: &ApiMethod, env: &mut RpcEnvironment) -> Result<
        Value,
        String,
    >;
}

/// A well-formed compiled method: every named parameter points at the
/// property of its own name, named parameters are pairwise distinct, and at
/// most one parameter is a catch-all.
pub open spec fn api_method_wf(m: ApiMethod) -> bool {
    &&& forall|i: int|
        0 <= i < m.parameters@.len() ==> match (#[trigger] m.parameters@[i]).kind {
            ParamClass::Named { optional, prop_index } => {
                &&& prop_index < m.input_schema.properties@.len()
                &&& m.input_schema.properties@[prop_index as int].name@ == m.parameters@[i].name@
                &&& m.input_schema.properties@[prop_index as int].optional == optional
            },
            _ => true,
        }
    &&& forall|i: int, j: int|
        0 <= i < j < m.parameters@.len() && (#[trigger] m.parameters@[i]).kind is Named && (
        #[trigger] m.parameters@[j]).kind is Named ==> m.parameters@[i].name@
            != m.parameters@[j].name@
    &&& forall|i: int, j: int|
        0 <= i < j < m.parameters@.len() ==> !((#[trigger] m.parameters@[i]).kind is CatchAll && (
        #[trigger] m.parameters@[j]).kind is CatchAll)
}

/// Whether some named parameter extracts the given bag key.
pub open spec fn spec_is_named_key(params: Seq<Parameter>, key: Seq<char>) -> bool {
    exists|i: int|
        0 <= i < params.len() && (#[trigger] params[i]).kind is Named && params[i].name@ == key
}

/// What remains of a bag after named extraction: the entries whose keys no
/// named parameter extracts, in their original order.
pub open spec fn spec_leftover(params: Seq<Parameter>, entries: Seq<(String, Value)>) -> Seq<
    (String, Value),
>
    decreases entries.len(),
{
    if entries.len() == 0 {
        Seq::empty()
    } else if spec_is_named_key(params, entries[0].0@) {
        spec_leftover(params, entries.drop_first())
    } else {
        seq![entries[0]] + spec_leftover(params, entries.drop_first())
    }
}

/// The first extraction failure in parameter declaration order, if any: a
/// missing non-optional parameter, or a present value that does not conform
/// to its property schema.
pub open spec fn spec_extract_err(
    params: Seq<Parameter>,
    props: Seq<Property>,
    entries: Seq<(String, Value)>,
) -> Option<DispatchError>
    decreases params.len(),
{
    if params.len() == 0 {
        None
    } else {
        let p = params[0];
        match p.kind {
            ParamClass::Named { optional, prop_index } => {
                if !obj_has_key(entries, p.name@) {
                    if optional {
                        spec_extract_err(params.drop_first(), props, entries)
                    } else {
                        Some(DispatchError::MissingParameter(p.name))
                    }
                } else if !spec_valid(props[prop_index as int].schema, obj_value(entries, p.name@)) {
                    Some(DispatchError::InvalidParameter(p.name))
                } else {
                    spec_extract_err(params.drop_first(), props, entries)
                }
            },
            _ => spec_extract_err(params.drop_first(), props, entries),
        }
    }
}

/// Index of the first named parameter that extracts the given key, if any.
fn param_find(params: &Vec<Parameter>, key: &String) -> (r: Option<usize>)
    ensures
        match r {
            Some(i) => {
                &&& i < params@.len()
                &&& params@[i as int].kind is Named
                &&& params@[i as int].name@ == key@
            },
            None => !spec_is_named_key(params@, key@),
        },
{
    let mut i: usize = 0;
    while i < params.len()
        invariant
            i <= params@.len(),
            forall|k: int|
                0 <= k < i ==> !((#[trigger] params@[k]).kind is Named && params@[k].name@ == key@),
        decreases params@.len() - i,
    {
        let named = match &params[i].kind {
            ParamClass::Named { .. } => true,
            _ => false,
        };
        if named && params[i].name.eq(key) {
            return Some(i);
        }
        i += 1;
    }
    None
}

/// Extract and validate the handler arguments from a value bag.
///
/// The bag must be an object; each named parameter is drawn from it under the
/// parameter's own name, in parameter declaration order, and validated
/// against its property schema; an absent optional parameter binds to an
/// absent value; an absent required parameter fails, naming it; ambient
/// parameters bind to marker values for the supplied handles; a catch-all
/// parameter binds to whatever remains of the bag after named extraction.
#[verifier::loop_isolation(false)]
#[verifier::rlimit(100)]
pub fn extract_arguments(method: &ApiMethod, bag: Value) -> (r: Result<Vec<Arg>, DispatchError>)
    requires
        api_method_wf(*method),
        crate::value::bag_wf(bag),
    ensures
        !(bag is Object) ==> r == Err::<Vec<Arg>, DispatchError>(DispatchError::NonObject),
        bag matches Value::Object(en) ==> match spec_extract_err(
            method.parameters@,
            method.input_schema.properties@,
            en@,
        ) {
            Some(e) => r == Err::<Vec<Arg>, DispatchError>(e),
            None => r matches Ok(args) && {
                &&& args@.len() == method.parameters@.len()
                &&& forall|k: int|
                    0 <= k < method.parameters@.len() ==> match (#[trigger] method.parameters@[k]).kind {
                        ParamClass::Named { .. } => if obj_has_key(
                            en@,
                            method.parameters@[k].name@,
                        ) {
                            args@[k] == Arg::Bound(obj_value(en@, method.parameters@[k].name@))
                        } else {
                            args@[k] == Arg::Absent
                        },
                        ParamClass::AmbientMethod => args@[k] == Arg::Method,
                        ParamClass::AmbientEnvironment => args@[k] == Arg::Environment,
                        ParamClass::CatchAll => args@[k] matches Arg::Bound(v) && v matches
                            Value::Object(lv) && lv@ == spec_leftover(method.parameters@, en@),
                    }
            },
        },
{
    let params = &method.parameters;
    let ghost props = method.input_schema.properties@;

    let mut entries: Vec<(String, Value)> = match bag {
        Value::Object(entries) => entries,
        _ => {
            return Err(DispatchError::NonObject);
        },
    };
    let ghost orig = entries@;

    // Route each entry to the slot of the named parameter that extracts it,
    // or to the leftover bag.
    let mut slots: Vec<Option<Value>> = Vec::new();
    let mut si: usize = 0;
    while si < params.len()
        invariant
            slots@.len() == si,
            si <= params@.len(),
            forall|k: int| 0 <= k < si ==> (#[trigger] slots@[k]) is None,
        decreases params@.len() - si,
    {
        slots.push(None);
        si += 1;
    }

    let mut leftover: Vec<(String, Value)> = Vec::new();
    let ghost mut consumed: int = 0;
    proof {
        assert(orig.skip(0int) =~= orig);
        assert(Seq::<(String, Value)>::empty() + spec_leftover(params@, orig) =~= spec_leftover(
            params@,
            orig,
        ));
    }
    while entries.len() > 0
        invariant
            0 <= consumed <= orig.len(),
            entries@ =~= orig.skip(consumed),
            slots@.len() == params@.len(),
            forall|pi: int|
                0 <= pi < params@.len() ==> match (#[trigger] slots@[pi]) {
                    Some(v) => exists|j: int|
                        {
                            &&& 0 <= j < consumed
                            &&& (#[trigger] orig[j]).0@ == params@[pi].name@
                            &&& v == orig[j].1
                            &&& params@[pi].kind is Named
                        },
                    None => params@[pi].kind is Named ==> forall|j: int|
                        0 <= j < consumed ==> (#[trigger] orig[j]).0@ != params@[pi].name@,
                },
            spec_leftover(params@, orig) =~= leftover@ + spec_leftover(params@, orig.skip(consumed)),
        decreases entries@.len(),
    {
        proof {
            assert(orig.skip(consumed)[0] == orig[consumed]);
            assert(orig.skip(consumed).drop_first() =~= orig.skip(consumed + 1));
        }
        let entry = entries.remove(0);
        let ghost prev_leftover = leftover@;
        match param_find(params, &entry.0) {
            Some(pi) => {
                proof {
                    assert(spec_is_named_key(params@, orig[consumed].0@));
                }
                slots[pi] = Some(entry.1);
            },
            None => {
                leftover.push(entry);
                proof {
                    assert(leftover@ =~= prev_leftover + seq![orig[consumed]]);
                    assert((prev_leftover + seq![orig[consumed]]) + spec_leftover(
                        params@,
                        orig.skip(consumed + 1),
                    ) =~= prev_leftover + (seq![orig[consumed]] + spec_leftover(
                        params@,
                        orig.skip(consumed + 1),
                    )));
                }
            },
        }
        proof {
            consumed = consumed + 1;
        }
    }
    proof {
        assert(orig.skip(consumed).len() == 0);
        assert(consumed == orig.len());
        assert(spec_leftover(params@, orig.skip(consumed)) =~= Seq::<(String, Value)>::empty());
        assert(leftover@ + Seq::<(String, Value)>::empty() =~= leftover@);
        assert(leftover@ =~= spec_leftover(params@, orig));
        // Slots now describe the whole original bag.
        assert forall|pi: int|
            0 <= pi < params@.len() && (#[trigger] params@[pi]).kind is Named implies match slots@[pi] {
            Some(v) => obj_has_key(orig, params@[pi].name@) && v == obj_value(
                orig,
                params@[pi].name@,
            ),
            None => !obj_has_key(orig, params@[pi].name@),
        } by {
            match slots@[pi] {
                Some(v) => {
                    let j = choose|j: int|
                        0 <= j < consumed && (#[trigger] orig[j]).0@ == params@[pi].name@ && v
                            == orig[j].1;
                    crate::value::lemma_obj_value_at(orig, j);
                },
                None => {},
            }
        }
    }

    // Check for extraction failures, in parameter declaration order.
    proof {
        assert(params@.skip(0int) =~= params@);
    }
    let mut i: usize = 0;
    while i < params.len()
        invariant
            i <= params@.len(),
            spec_extract_err(params@, props, orig) == spec_extract_err(
                params@.skip(i as int),
                props,
                orig,
            ),
        decreases params@.len() - i,
    {
        proof {
            assert(params@.skip(i as int)[0] == params@[i as int]);
            assert(params@.skip(i as int).drop_first() =~= params@.skip(i as int + 1));
        }
        let p = &params[i];
        match &p.kind {
            ParamClass::Named { optional, prop_index } => {
                match &slots[i] {
                    Some(v) => {
                        if !validate(&method.input_schema.properties[*prop_index].schema, v) {
                            return Err(DispatchError::InvalidParameter(p.name.clone()));
                        }
                    },
                    None => {
                        if !*optional {
                            return Err(DispatchError::MissingParameter(p.name.clone()));
                        }
                    },
                }
            },
            _ => {},
        }
        i += 1;
    }
    proof {
        assert(params@.skip(params@.len() as int) =~= Seq::<Parameter>::empty());
        assert(spec_extract_err(params@, props, orig) is None);
    }

    // Bind the arguments, in parameter declaration order.
    let mut args: Vec<Arg> = Vec::new();
    let mut leftover_box: Option<Vec<(String, Value)>> = Some(leftover);
    let mut slot_rest = slots;
    let ghost slots_full = slot_rest@;
    let mut k: usize = 0;
    while k < params.len()
        invariant
            k <= params@.len(),
            args@.len() == k,
            slot_rest@ =~= slots_full.skip(k as int),
            leftover_box matches Some(lv) ==> lv@ == spec_leftover(params@, orig),
            (leftover_box is Some) == (forall|t: int|
                0 <= t < k ==> !((#[trigger] params@[t]).kind is CatchAll)),
            forall|t: int|
                0 <= t < k ==> match (#[trigger] params@[t]).kind {
                    ParamClass::Named { .. } => if obj_has_key(orig, params@[t].name@) {
                        args@[t] == Arg::Bound(obj_value(orig, params@[t].name@))
                    } else {
                        args@[t] == Arg::Absent
                    },
                    ParamClass::AmbientMethod => args@[t] == Arg::Method,
                    ParamClass::AmbientEnvironment => args@[t] == Arg::Environment,
                    ParamClass::CatchAll => args@[t] matches Arg::Bound(v) && v matches
                        Value::Object(lv) && lv@ == spec_leftover(params@, orig),
                },
        decreases params@.len() - k,
    {
        proof {
            assert(slots_full.skip(k as int)[0] == slots_full[k as int]);
            assert(slots_full.skip(k as int).drop_first() =~= slots_full.skip(k as int + 1));
        }
        let slot = slot_rest.remove(0);
        let p = &params[k];
        let arg = match &p.kind {
            ParamClass::Named { .. } => match slot {
                Some(v) => Arg::Bound(v),
                None => Arg::Absent,
            },
            ParamClass::AmbientMethod => Arg::Method,
            ParamClass::AmbientEnvironment => Arg::Environment,
            ParamClass::CatchAll => {
                match leftover_box {
                    Some(lv) => {
                        leftover_box = None;
                        Arg::Bound(Value::Object(lv))
                    },
                    None => {
                        proof {
                            let t = choose|t: int|
                                0 <= t < k && (#[trigger] params@[t]).kind is CatchAll;
                            assert(false);
                        }
                        Arg::Absent
                    },
                }
            },
        };
        args.push(arg);
        k += 1;
    }

    Ok(args)
}

/// What the dispatch routine return_schema once the handler ran: a handler error
/// passes through unchanged; on success the result is kept when a return
/// schema exists and replaced by the no-value marker otherwise.
pub open spec fn spec_convert(return_schema: Option<Schema>, handed: Result<Value, String>) -> Result<
    Value,
    DispatchError,
> {
    match handed {
        Err(msg) => Err(DispatchError::Handler(msg)),
        Ok(out) => if return_schema is Some {
            Ok(out)
        } else {
            Ok(Value::Null)
        },
    }
}

use crate::schema::Schema;

/// Dispatch a call: extract and validate the arguments from the bag, invoke
/// the handler with them in declaration order, and convert its result.
pub fn dispatch<H: ApiHandler>(
    method: &ApiMethod,
    handler: &H,
    bag: Value,
    env: &mut RpcEnvironment,
) -> (r: Result<Value, DispatchError>)
    requires
        api_method_wf(*method),
        crate::value::bag_wf(bag),
    ensures
        !(bag is Object) ==> r == Err::<Value, DispatchError>(DispatchError::NonObject),
        bag matches Value::Object(en) ==> match spec_extract_err(
            method.parameters@,
            method.input_schema.properties@,
            en@,
        ) {
            Some(e) => r == Err::<Value, DispatchError>(e),
            None => exists|handed: Result<Value, String>|
                r == spec_convert(method.return_schema, handed),
        },
{
    let args = match extract_arguments(method, bag) {
        Ok(args) => args,
        Err(e) => {
            return Err(e);
        },
    };
    match handler.call(args, method, env) {
        Err(msg) => {
            let ghost handed = Err::<Value, String>(msg);
            proof {
                assert(Err::<Value, DispatchError>(DispatchError::Handler(handed->Err_0))
                    == spec_convert(method.return_schema, handed));
            }
            Err(DispatchError::Handler(msg))
        },
        Ok(out) => match &method.return_schema {
            Some(_) => {
                let ghost handed = Ok::<Value, String>(out);
                proof {
                    assert(Ok::<Value, DispatchError>(out) == spec_convert(method.return_schema, handed));
                }
                Ok(out)
            },
            None => {
                let ghost handed = Ok::<Value, String>(out);
                proof {
                    assert(Ok::<Value, DispatchError>(Value::Null) == spec_convert(
                        method.return_schema,
                        handed,
                    ));
                }
                let _ = out;
                Ok(Value::Null)
            },
        },
    }
}

} // verus!
