use denopy::marshal::{py_to_v8, v8_to_py};
use denopy::number::IntegerConversion;
use denopy::value::{
    classify, ConversionError, EngineTemplate, EngineValue, Handle, HostValue, JsArray, JsFunction,
    JsObject, JsValue, TypeProbe, ValueKind,
};

const INSTANCE: u64 = 3;

fn num(x: f64) -> EngineValue {
    EngineValue::Number(x.to_bits())
}

fn text(s: &str) -> HostValue {
    HostValue::Text(s.to_string())
}

/// What an engine that keeps what it is given holds after making `t`.
fn make(t: &EngineTemplate, next_slot: &mut u64) -> EngineValue {
    match t {
        EngineTemplate::Null => EngineValue::Null,
        EngineTemplate::Boolean(b) => EngineValue::Boolean(*b),
        EngineTemplate::Number(bits) => EngineValue::Number(*bits),
        EngineTemplate::String(s) => EngineValue::String(s.clone()),
        EngineTemplate::Array(elems) => {
            *next_slot += 1;
            let slot = *next_slot;
            EngineValue::Array(slot, elems.iter().map(|e| make(e, next_slot)).collect())
        }
        EngineTemplate::Object(props) => {
            *next_slot += 1;
            let slot = *next_slot;
            let props = props.iter().map(|(k, v)| (make(k, next_slot), make(v, next_slot))).collect();
            EngineValue::Object(slot, props)
        }
        EngineTemplate::Existing(slot) => EngineValue::Function(*slot),
    }
}

fn sample_array() -> EngineValue {
    EngineValue::Array(7, vec![num(1.0), EngineValue::String("a".to_string()), EngineValue::Boolean(true)])
}

#[test]
fn unwrapped_array_becomes_sequence() {
    let r = v8_to_py(&sample_array(), INSTANCE, true, IntegerConversion::Safe);
    assert_eq!(r, HostValue::Sequence(vec![HostValue::Integer(1), text("a"), HostValue::Boolean(true)]));
}

#[test]
fn wrapped_array_becomes_handle_that_unwraps_later() {
    let engine_value = sample_array();
    let r = v8_to_py(&engine_value, INSTANCE, false, IntegerConversion::Safe);
    let handle = Handle { instance: INSTANCE, slot: 7 };
    assert_eq!(r, HostValue::Array(JsArray { handle }));
    assert_eq!(py_to_v8(&r, INSTANCE), Ok(EngineTemplate::Existing(7)));
    let again = v8_to_py(&engine_value, INSTANCE, true, IntegerConversion::Safe);
    assert_eq!(again, HostValue::Sequence(vec![HostValue::Integer(1), text("a"), HostValue::Boolean(true)]));
}

#[test]
fn mapping_round_trips_with_nested_sequence() {
    let mapping = HostValue::Mapping(vec![
        (text("x"), HostValue::Integer(1)),
        (text("y"), HostValue::Sequence(vec![HostValue::Integer(2), HostValue::Integer(3)])),
    ]);
    let t = py_to_v8(&mapping, INSTANCE).unwrap();
    assert_eq!(
        t,
        EngineTemplate::Object(vec![
            (EngineTemplate::String("x".to_string()), EngineTemplate::Number(1.0f64.to_bits())),
            (
                EngineTemplate::String("y".to_string()),
                EngineTemplate::Array(vec![
                    EngineTemplate::Number(2.0f64.to_bits()),
                    EngineTemplate::Number(3.0f64.to_bits()),
                ]),
            ),
        ])
    );
    let mut slots = 0u64;
    let w = make(&t, &mut slots);
    let back = v8_to_py(&w, INSTANCE, true, IntegerConversion::Safe);
    assert_eq!(back, mapping);
}

#[test]
fn primitives_round_trip() {
    let policies = [IntegerConversion::I32, IntegerConversion::Safe, IntegerConversion::Aggressive];
    let values = [
        text("héllo"),
        text(""),
        HostValue::Boolean(false),
        HostValue::Integer(-2147483648),
        HostValue::Integer(99),
        HostValue::Double(2.5f64.to_bits()),
        HostValue::Double(f64::NAN.to_bits()),
        HostValue::Nothing,
    ];
    for v in values.iter() {
        for policy in policies {
            let t = py_to_v8(v, INSTANCE).unwrap();
            let mut slots = 0u64;
            let back = v8_to_py(&make(&t, &mut slots), INSTANCE, true, policy);
            assert_eq!(&back, v);
        }
    }
    let t = py_to_v8(&HostValue::Integer(4), INSTANCE).unwrap();
    let mut slots = 0u64;
    let back = v8_to_py(&make(&t, &mut slots), INSTANCE, true, IntegerConversion::Never);
    assert_eq!(back, HostValue::Double(4.0f64.to_bits()));
}

#[test]
fn whole_double_comes_back_as_integer_under_safe() {
    let t = py_to_v8(&HostValue::Double(6.0f64.to_bits()), INSTANCE).unwrap();
    let mut slots = 0u64;
    let back = v8_to_py(&make(&t, &mut slots), INSTANCE, true, IntegerConversion::Safe);
    assert_eq!(back, HostValue::Integer(6));
}

#[test]
fn functions_are_never_unwrapped() {
    let r = v8_to_py(&EngineValue::Function(11), INSTANCE, true, IntegerConversion::Safe);
    assert_eq!(r, HostValue::Function(JsFunction { handle: Handle { instance: INSTANCE, slot: 11 } }));
}

#[test]
fn object_without_unwrap_becomes_handle() {
    let object = EngineValue::Object(4, vec![(EngineValue::String("k".to_string()), num(2.0))]);
    let r = v8_to_py(&object, INSTANCE, false, IntegerConversion::Safe);
    assert_eq!(r, HostValue::Object(JsObject { handle: Handle { instance: INSTANCE, slot: 4 } }));
    let r = v8_to_py(&object, INSTANCE, true, IntegerConversion::Never);
    assert_eq!(r, HostValue::Mapping(vec![(text("k"), HostValue::Double(2.0f64.to_bits()))]));
}

#[test]
fn other_values_keep_their_type_name() {
    let r = v8_to_py(&EngineValue::Other(5, "symbol".to_string()), INSTANCE, true, IntegerConversion::Safe);
    assert_eq!(r, HostValue::Value(JsValue { handle: Handle { instance: INSTANCE, slot: 5 }, type_repr: "symbol".to_string() }));
    assert_eq!(py_to_v8(&r, INSTANCE), Ok(EngineTemplate::Existing(5)));
}

#[test]
fn null_becomes_nothing_and_back() {
    assert_eq!(v8_to_py(&EngineValue::Null, INSTANCE, false, IntegerConversion::Safe), HostValue::Nothing);
    assert_eq!(py_to_v8(&HostValue::Nothing, INSTANCE), Ok(EngineTemplate::Null));
}

#[test]
fn nested_unwrap_converts_every_level() {
    let v = EngineValue::Array(1, vec![EngineValue::Array(2, vec![num(0.5)]), EngineValue::Function(3)]);
    let r = v8_to_py(&v, INSTANCE, true, IntegerConversion::Safe);
    assert_eq!(
        r,
        HostValue::Sequence(vec![
            HostValue::Sequence(vec![HostValue::Double(0.5f64.to_bits())]),
            HostValue::Function(JsFunction { handle: Handle { instance: INSTANCE, slot: 3 } }),
        ])
    );
}

#[test]
fn foreign_handle_is_refused() {
    let v = HostValue::Sequence(vec![HostValue::Integer(1), HostValue::Object(JsObject { handle: Handle { instance: 9, slot: 2 } })]);
    assert_eq!(py_to_v8(&v, INSTANCE), Err(ConversionError::ForeignHandle(9)));
}

#[test]
fn inexact_integer_is_refused() {
    let v = HostValue::Mapping(vec![(text("big"), HostValue::Integer(9007199254740993))]);
    assert_eq!(py_to_v8(&v, INSTANCE), Err(ConversionError::InexactInteger(9007199254740993)));
}

#[test]
fn empty_containers_convert() {
    assert_eq!(py_to_v8(&HostValue::Sequence(vec![]), INSTANCE), Ok(EngineTemplate::Array(vec![])));
    assert_eq!(py_to_v8(&HostValue::Mapping(vec![]), INSTANCE), Ok(EngineTemplate::Object(vec![])));
    assert_eq!(v8_to_py(&EngineValue::Array(1, vec![]), INSTANCE, true, IntegerConversion::Safe), HostValue::Sequence(vec![]));
}

#[test]
fn classification_follows_precedence() {
    let none = TypeProbe {
        is_null_or_undefined: false,
        is_string: false,
        is_boolean: false,
        is_number: false,
        is_function: false,
        is_array: false,
        is_object: false,
    };
    assert_eq!(classify(&none), ValueKind::Other);
    let function = TypeProbe { is_function: true, is_object: true, ..none };
    assert_eq!(classify(&function), ValueKind::Function);
    let array = TypeProbe { is_array: true, is_object: true, ..none };
    assert_eq!(classify(&array), ValueKind::Array);
    let object = TypeProbe { is_object: true, ..none };
    assert_eq!(classify(&object), ValueKind::Object);
    let null = TypeProbe { is_null_or_undefined: true, is_object: true, ..none };
    assert_eq!(classify(&null), ValueKind::Null);
    let number = TypeProbe { is_number: true, ..none };
    assert_eq!(classify(&number), ValueKind::Number);
    let string = TypeProbe { is_string: true, ..none };
    assert_eq!(classify(&string), ValueKind::String);
    let boolean = TypeProbe { is_boolean: true, ..none };
    assert_eq!(classify(&boolean), ValueKind::Boolean);
}
