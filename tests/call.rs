use denopy::call::{finish_call, finish_lookup, prepare_call, thrown_error, CallOutcome};
use denopy::number::IntegerConversion;
use denopy::value::{
    ConversionError, EngineTemplate, EngineValue, Handle, HostValue, JsFunction, JsObject,
};

const INSTANCE: u64 = 0;

#[test]
fn thrown_error_carries_description_and_value() {
    let outcome = CallOutcome::Threw(
        "Uncaught boom\n    at f (<eval>:1:20)".to_string(),
        EngineValue::String("boom".to_string()),
    );
    let err = finish_call(&outcome, INSTANCE, true, IntegerConversion::Safe).unwrap_err();
    assert!(!err.description.is_empty());
    assert_eq!(err.description, "Uncaught boom\n    at f (<eval>:1:20)");
    assert_eq!(err.value, HostValue::Text("boom".to_string()));
}

#[test]
fn thrown_error_without_description_gets_one() {
    let err = thrown_error(String::new(), &EngineValue::Number(3.0f64.to_bits()), INSTANCE, true, IntegerConversion::Safe);
    assert_eq!(err.description, "Uncaught exception");
    assert_eq!(err.value, HostValue::Integer(3));
}

#[test]
fn thrown_object_follows_unwrap() {
    let thrown = EngineValue::Object(8, vec![(EngineValue::String("message".to_string()), EngineValue::String("bad".to_string()))]);
    let err = thrown_error("Uncaught Error: bad".to_string(), &thrown, INSTANCE, false, IntegerConversion::Safe);
    assert_eq!(err.value, HostValue::Object(JsObject { handle: Handle { instance: INSTANCE, slot: 8 } }));
    let err = thrown_error("Uncaught Error: bad".to_string(), &thrown, INSTANCE, true, IntegerConversion::Safe);
    assert_eq!(err.value, HostValue::Mapping(vec![(HostValue::Text("message".to_string()), HostValue::Text("bad".to_string()))]));
}

#[test]
fn returned_value_is_converted() {
    let outcome = CallOutcome::Returned(EngineValue::Number(2.5f64.to_bits()));
    assert_eq!(finish_call(&outcome, INSTANCE, false, IntegerConversion::Safe), Ok(HostValue::Double(2.5f64.to_bits())));
    let outcome = CallOutcome::Returned(EngineValue::Number(10.0f64.to_bits()));
    assert_eq!(finish_call(&outcome, INSTANCE, false, IntegerConversion::I32), Ok(HostValue::Integer(10)));
    assert_eq!(finish_call(&CallOutcome::Empty, INSTANCE, false, IntegerConversion::Safe), Ok(HostValue::Nothing));
}

#[test]
fn call_arguments_and_receiver_are_prepared() {
    let f = JsFunction { handle: Handle { instance: INSTANCE, slot: 4 } };
    let args = vec![HostValue::Integer(1), HostValue::Text("x".to_string())];
    let req = prepare_call(f, &args, &None, INSTANCE).unwrap();
    assert_eq!(req.function, 4);
    assert_eq!(req.receiver, None);
    assert_eq!(req.args, vec![EngineTemplate::Number(1.0f64.to_bits()), EngineTemplate::String("x".to_string())]);
    let this = Some(HostValue::Object(JsObject { handle: Handle { instance: INSTANCE, slot: 9 } }));
    let req = prepare_call(f, &vec![], &this, INSTANCE).unwrap();
    assert_eq!(req.receiver, Some(EngineTemplate::Existing(9)));
    assert!(req.args.is_empty());
}

#[test]
fn call_faults_are_reported() {
    let foreign = JsFunction { handle: Handle { instance: 2, slot: 4 } };
    assert_eq!(prepare_call(foreign, &vec![], &None, INSTANCE).unwrap_err(), ConversionError::ForeignHandle(2));
    let f = JsFunction { handle: Handle { instance: INSTANCE, slot: 4 } };
    let args = vec![HostValue::Integer(i64::MAX)];
    assert_eq!(prepare_call(f, &args, &None, INSTANCE).unwrap_err(), ConversionError::InexactInteger(i64::MAX));
    let this = Some(HostValue::Function(JsFunction { handle: Handle { instance: 5, slot: 1 } }));
    assert_eq!(prepare_call(f, &vec![], &this, INSTANCE).unwrap_err(), ConversionError::ForeignHandle(5));
}

#[test]
fn lookup_result() {
    assert_eq!(finish_lookup(&None, INSTANCE, true, IntegerConversion::Safe), HostValue::Nothing);
    let found = Some(EngineValue::Boolean(true));
    assert_eq!(finish_lookup(&found, INSTANCE, true, IntegerConversion::Safe), HostValue::Boolean(true));
}
