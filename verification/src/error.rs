//! Error taxonomy: declaration-time specification errors and call-time
//! validation errors. Every error names the offending key, parameter or field.

use vstd::prelude::*;

verus! {

/// A fatal error in a declarative description, an enum declaration or a
/// handler signature, found while the contract is compiled.
#[derive(Debug, Clone, PartialEq, Eq)]
pub enum SpecError {
    /// A key that the declarative format does not know, at any nesting level.
    UnknownKey(String),
    /// A known key whose value has the wrong shape; names the key.
    BadValue(String),
    /// A function target without the required `input` section.
    MissingInput,
    /// A reference to a named schema that the registry does not hold.
    UnknownSchemaRef(String),
    /// An enum default that is not among the listed wire names.
    DefaultNotInValues(String),
    /// An enum default that matches more than one listed wire name.
    DuplicateDefaultValue(String),
    /// Two enum variants both carry the default marker; names both sites.
    MultipleDefaults(String, String),
    /// A default marker beside an independently supplied `default` option;
    /// names the marked variant.
    DefaultMarkerWithKey(String),
    /// An enum variant with associated data; only pure tags are supported.
    NonUnitVariant(String),
    /// A second parameter matching the method-descriptor capability.
    MultipleApiMethodParams(String),
    /// A second parameter matching the runtime-environment capability.
    MultipleRpcEnvParams(String),
    /// A second catch-all value parameter.
    MultipleValueParams(String),
    /// A parameter that no classification rule accepts.
    UnexpectedParameter(String),
    /// A receiver-style first parameter; only free functions are supported.
    ReceiverParameter,
    /// An asynchronous handler signature.
    AsyncHandler,
    /// More than one `Returns:` marker in the documentation.
    MultipleReturnsSections,
    /// A schema registered twice under one name.
    DuplicateSchemaName(String),
}

/// A runtime validation error raised by the dispatch routine.
#[derive(Debug, Clone, PartialEq, Eq)]
pub enum DispatchError {
    /// The wrapper was called with a non-object value.
    NonObject,
    /// A required parameter is missing from the value bag; names it.
    MissingParameter(String),
    /// A bag field does not conform to its property schema; names the field.
    InvalidParameter(String),
    /// An error returned by the wrapped handler, passed through unchanged.
    Handler(String),
}

} // verus!
