//! Calling an engine function from the host, and reading back what it did.
use crate::marshal::{
    py_to_v8, v8_to_py, converts_to_engine, converts_to_host, has_fault,
    host_of_number, is_convertible,
};
use crate::number::{host_number, IntegerConversion};
use crate::value::{ConversionError, EngineTemplate, EngineValue, HostValue, JsFunction};
use vstd::prelude::*;

verus! {

/// What the engine is asked to do for a call: the function's slot, the receiver (none:
/// the engine's `undefined`) and the arguments, all ready to be made in the engine.
#[derive(Debug, PartialEq)]
pub struct CallRequest {
    pub function: u64,
    pub receiver: Option<EngineTemplate>,
    pub args: Vec<EngineTemplate>,
}

/// What a call did in the engine.
#[derive(Debug, PartialEq)]
pub enum CallOutcome {
    /// The call threw: the engine's formatted description of the exception, and the
    /// thrown value.
    Threw(String, EngineValue),
    /// The call returned a value.
    Returned(EngineValue),
    /// The call ended with no value and no exception.
    Empty,
}

/// An exception thrown in the engine, as the host sees it.
#[derive(Debug, PartialEq)]
pub struct ThrownError {
    /// The formatted stack or description of the exception; never empty.
    pub description: String,
    /// The thrown value, converted under the call's policy.
    pub value: HostValue,
}

/// The description used for an exception of which the engine gives none.
pub open spec fn fallback_description() -> Seq<char> {
    seq!['U', 'n', 'c', 'a', 'u', 'g', 'h', 't', ' ', 'e', 'x', 'c', 'e', 'p', 't', 'i', 'o', 'n']
}

/// The description that a thrown error carries for the engine's description `d`.
pub open spec fn thrown_description(d: Seq<char>) -> Seq<char> {
    if d.len() == 0 {
        fallback_description()
    } else {
        d
    }
}

/// Whether every argument and the receiver of a call have engine counterparts in
/// `instance`, and the function belongs to it.
pub open spec fn call_is_convertible(
    function: JsFunction,
    args: Seq<HostValue>,
    receiver: Option<HostValue>,
    instance: u64,
) -> bool {
    &&& function.handle.instance == instance
    &&& forall|i: int| 0 <= i < args.len() ==> is_convertible(#[trigger] args[i], instance)
    &&& receiver matches Some(v) ==> is_convertible(v, instance)
}

/// Whether `e` describes a part of a call that has no counterpart in `instance`.
pub open spec fn call_fault(
    function: JsFunction,
    args: Seq<HostValue>,
    receiver: Option<HostValue>,
    instance: u64,
    e: ConversionError,
) -> bool {
    ||| function.handle.instance != instance && e == ConversionError::ForeignHandle(
        function.handle.instance,
    )
    ||| exists|i: int| 0 <= i < args.len() && has_fault(#[trigger] args[i], instance, e)
    ||| receiver matches Some(v) && has_fault(v, instance, e)
}

/// Prepares a call of the function `function` in the engine instance `instance`, with
/// these arguments and receiver (none: the engine's `undefined`).
pub fn prepare_call(
    function: JsFunction,
    args: &Vec<HostValue>,
    receiver: &Option<HostValue>,
    instance: u64,
) -> (r: Result<CallRequest, ConversionError>)
    ensures
        r is Ok <==> call_is_convertible(function, args@, *receiver, instance),
        r matches Ok(req) ==> {
            &&& req.function == function.handle.slot
            &&& match *receiver {
                Some(v) => req.receiver matches Some(t) && converts_to_engine(v, t),
                None => req.receiver is None,
            }
            &&& req.args.len() == args.len()
            &&& forall|i: int|
                0 <= i < args.len() ==> converts_to_engine(#[trigger] args@[i], req.args@[i])
        },
        r matches Err(e) ==> call_fault(function, args@, *receiver, instance, e),
{
    if function.handle.instance != instance {
        return Err(ConversionError::ForeignHandle(function.handle.instance));
    }
    let receiver_value = match receiver {
        Some(v) => match py_to_v8(v, instance) {
            Ok(t) => Some(t),
            Err(e) => {
                return Err(e);
            },
        },
        None => None,
    };
    let mut converted: Vec<EngineTemplate> = Vec::new();
    let mut i: usize = 0;
    while i < args.len()
        invariant
            i <= args.len(),
            converted.len() == i,
            forall|j: int| 0 <= j < i ==> converts_to_engine(#[trigger] args@[j], converted@[j]),
            forall|j: int| 0 <= j < i ==> is_convertible(#[trigger] args@[j], instance),
        decreases args.len() - i,
    {
        match py_to_v8(&args[i], instance) {
            Ok(t) => converted.push(t),
            Err(e) => {
                assert(has_fault(args@[i as int], instance, e));
                return Err(e);
            },
        }
        i = i + 1;
    }
    Ok(CallRequest { function: function.handle.slot, receiver: receiver_value, args: converted })
}

/// Makes the host's view of an exception thrown in `instance`.
pub fn thrown_error(
    description: String,
    exception: &EngineValue,
    instance: u64,
    unwrap: bool,
    policy: IntegerConversion,
) -> (r: ThrownError)
    ensures
        r.description@ == thrown_description(description@),
        r.description@.len() > 0,
        converts_to_host(*exception, r.value, instance, unwrap, policy),
{
    let value = v8_to_py(exception, instance, unwrap, policy);
    let description = if description.as_str().is_empty() {
        let d = String::from_str("Uncaught exception");
        proof {
            reveal_strlit("Uncaught exception");
        }
        d
    } else {
        description
    };
    ThrownError { description, value }
}

/// Whether `r` is the host's result of a call that ended with `outcome` in `instance`.
pub open spec fn call_result(
    outcome: CallOutcome,
    r: Result<HostValue, ThrownError>,
    instance: u64,
    unwrap: bool,
    policy: IntegerConversion,
) -> bool {
    match outcome {
        CallOutcome::Threw(d, exception) => r matches Err(err) && err.description@
            == thrown_description(d@) && converts_to_host(
            exception,
            err.value,
            instance,
            unwrap,
            policy,
        ),
        CallOutcome::Returned(v) => r matches Ok(h) && converts_to_host(
            v,
            h,
            instance,
            unwrap,
            policy,
        ),
        CallOutcome::Empty => r matches Ok(h) && h is Nothing,
    }
}

/// The host's result of a call that ended with `outcome` in `instance`: the returned
/// value converted, "no value" when there was none, or the thrown error.
pub fn finish_call(
    outcome: &CallOutcome,
    instance: u64,
    unwrap: bool,
    policy: IntegerConversion,
) -> (r: Result<HostValue, ThrownError>)
    ensures
        call_result(*outcome, r, instance, unwrap, policy),
{
    match outcome {
        CallOutcome::Threw(d, exception) => Err(
            thrown_error(d.clone(), exception, instance, unwrap, policy),
        ),
        CallOutcome::Returned(v) => Ok(v8_to_py(v, instance, unwrap, policy)),
        CallOutcome::Empty => Ok(HostValue::Nothing),
    }
}

/// The host's result of reading a property in `instance`: the value found, converted, or
/// "no value" when the target is no object or has no such property.
pub fn finish_lookup(
    found: &Option<EngineValue>,
    instance: u64,
    unwrap: bool,
    policy: IntegerConversion,
) -> (r: HostValue)
    ensures
        match *found {
            Some(v) => converts_to_host(v, r, instance, unwrap, policy),
            None => r is Nothing,
        },
{
    match found {
        Some(v) => v8_to_py(v, instance, unwrap, policy),
        None => HostValue::Nothing,
    }
}

/// A call that throws ends in a thrown error with a non-empty description; a thrown
/// string, boolean, number or `null` arrives in it as the host's own value whatever `unwrap` says.
pub proof fn lemma_thrown_error_carries_value(
    description: String,
    exception: EngineValue,
    r: Result<HostValue, ThrownError>,
    instance: u64,
    unwrap: bool,
    policy: IntegerConversion,
)
    requires
        call_result(CallOutcome::Threw(description, exception), r, instance, unwrap, policy),
    ensures
        r matches Err(err) && err.description@.len() > 0 && match exception {
            EngineValue::String(s) => err.value matches HostValue::Text(t) && t@ == s@,
            EngineValue::Boolean(b) => err.value == HostValue::Boolean(b),
            EngineValue::Null => err.value is Nothing,
            EngineValue::Number(bits) => err.value == host_of_number(host_number(bits, policy)),
            _ => true,
        },
{
}

} // verus!
