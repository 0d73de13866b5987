//! Conversion between engine values and host values.
use crate::number::{
    host_number, integer_to_double, is_double_exact, lemma_int32_is_double_exact, number_to_host,
    whole_value, HostNumber, IntegerConversion, NEGATIVE_ZERO,
};
use crate::value::{
    ConversionError, EngineTemplate, EngineValue, Handle, HostValue, JsArray, JsFunction, JsObject,
    JsValue,
};
use vstd::prelude::*;

verus! {

/// The host value for a host number.
pub open spec fn host_of_number(n: HostNumber) -> HostValue {
    match n {
        HostNumber::Integer(i) => HostValue::Integer(i),
        HostNumber::Double(b) => HostValue::Double(b),
    }
}

/// Whether `r` is the conversion of the engine value `v` into a host value, for the
/// engine instance `instance`.
///
/// With `unwrap`, arrays and objects become sequences and mappings, converted element
/// by element; without it they become handles. Functions always become handles.
pub open spec fn converts_to_host(
    v: EngineValue,
    r: HostValue,
    instance: u64,
    unwrap: bool,
    policy: IntegerConversion,
) -> bool
    decreases v,
{
    match v {
        EngineValue::Null => r is Nothing,
        EngineValue::Boolean(b) => r == HostValue::Boolean(b),
        EngineValue::Number(bits) => r == host_of_number(host_number(bits, policy)),
        EngineValue::String(s) => r matches HostValue::Text(t) && t@ == s@,
        EngineValue::Function(slot) => r == HostValue::Function(JsFunction { handle: Handle { instance, slot } }),
        EngineValue::Array(slot, elems) => if unwrap {
            r matches HostValue::Sequence(items) && items.len() == elems.len() && forall|i: int|
                0 <= i < elems.len() ==> converts_to_host(
                    #[trigger] elems@[i],
                    items@[i],
                    instance,
                    unwrap,
                    policy,
                )
        } else {
            r == HostValue::Array(JsArray { handle: Handle { instance, slot } })
        },
        EngineValue::Object(slot, props) => if unwrap {
            r matches HostValue::Mapping(entries) && entries.len() == props.len() && forall|i: int|
                0 <= i < props.len() ==> converts_to_host(
                    (#[trigger] props@[i]).0,
                    entries@[i].0,
                    instance,
                    unwrap,
                    policy,
                ) && converts_to_host(props@[i].1, entries@[i].1, instance, unwrap, policy)
        } else {
            r == HostValue::Object(JsObject { handle: Handle { instance, slot } })
        },
        EngineValue::Other(slot, tag) => r matches HostValue::Value(jv) && jv.handle == Handle {
            instance,
            slot,
        } && jv.type_repr@ == tag@,
    }
}

/// Converts an engine value into a host value for the engine instance `instance`.
pub fn v8_to_py(
    v: &EngineValue,
    instance: u64,
    unwrap: bool,
    policy: IntegerConversion,
) -> (r: HostValue)
    ensures
        converts_to_host(*v, r, instance, unwrap, policy),
    decreases v,
{
    match v {
        EngineValue::Null => HostValue::Nothing,
        EngineValue::Boolean(b) => HostValue::Boolean(*b),
        EngineValue::Number(bits) => match number_to_host(*bits, policy) {
            HostNumber::Integer(i) => HostValue::Integer(i),
            HostNumber::Double(d) => HostValue::Double(d),
        },
        EngineValue::String(s) => HostValue::Text(s.clone()),
        EngineValue::Function(slot) => HostValue::Function(
            JsFunction { handle: Handle { instance, slot: *slot } },
        ),
        EngineValue::Array(slot, elems) => {
            if !unwrap {
                return HostValue::Array(JsArray { handle: Handle { instance, slot: *slot } });
            }
            let mut items: Vec<HostValue> = Vec::new();
            let mut i: usize = 0;
            while i < elems.len()
                invariant
                    *v == EngineValue::Array(*slot, *elems),
                    i <= elems.len(),
                    items.len() == i,
                    forall|j: int|
                        0 <= j < i ==> converts_to_host(
                            #[trigger] elems@[j],
                            items@[j],
                            instance,
                            unwrap,
                            policy,
                        ),
                decreases elems.len() - i,
            {
                proof {
                    assert(decreases_to!(*v => v->Array_1));
                    assert(decreases_to!(*v => elems@[i as int]));
                }
                let item = v8_to_py(&elems[i], instance, unwrap, policy);
                items.push(item);
                i = i + 1;
            }
            HostValue::Sequence(items)
        },
        EngineValue::Object(slot, props) => {
            if !unwrap {
                return HostValue::Object(JsObject { handle: Handle { instance, slot: *slot } });
            }
            let mut entries: Vec<(HostValue, HostValue)> = Vec::new();
            let mut i: usize = 0;
            while i < props.len()
                invariant
                    *v == EngineValue::Object(*slot, *props),
                    i <= props.len(),
                    entries.len() == i,
                    forall|j: int|
                        0 <= j < i ==> converts_to_host(
                            (#[trigger] props@[j]).0,
                            entries@[j].0,
                            instance,
                            unwrap,
                            policy,
                        ) && converts_to_host(
                            props@[j].1,
                            entries@[j].1,
                            instance,
                            unwrap,
                            policy,
                        ),
                decreases props.len() - i,
            {
                proof {
                    assert(decreases_to!(*v => v->Object_1));
                    assert(decreases_to!(*v => props@[i as int].0));
                    assert(decreases_to!(*v => props@[i as int].1));
                }
                let key = v8_to_py(&props[i].0, instance, unwrap, policy);
                let value = v8_to_py(&props[i].1, instance, unwrap, policy);
                entries.push((key, value));
                i = i + 1;
            }
            HostValue::Mapping(entries)
        },
        EngineValue::Other(slot, tag) => HostValue::Value(
            JsValue { handle: Handle { instance, slot: *slot }, type_repr: tag.clone() },
        ),
    }
}

/// The handle that a host value is, if it is one.
pub open spec fn handle_of(v: HostValue) -> Option<Handle> {
    match v {
        HostValue::Function(f) => Some(f.handle),
        HostValue::Object(o) => Some(o.handle),
        HostValue::Array(a) => Some(a.handle),
        HostValue::Value(jv) => Some(jv.handle),
        _ => None,
    }
}

/// Whether `e` describes a part of the host value `v` that has no engine counterpart in
/// the engine instance `instance`.
pub open spec fn has_fault(v: HostValue, instance: u64, e: ConversionError) -> bool
    decreases v,
{
    match v {
        HostValue::Integer(n) => e == ConversionError::InexactInteger(n) && !is_double_exact(
            n as int,
        ),
        HostValue::Sequence(items) => exists|i: int|
            0 <= i < items.len() && has_fault(#[trigger] items@[i], instance, e),
        HostValue::Mapping(entries) => exists|i: int|
            0 <= i < entries.len() && (has_fault((#[trigger] entries@[i]).0, instance, e)
                || has_fault(entries@[i].1, instance, e)),
        _ => match handle_of(v) {
            Some(h) => h.instance != instance && e == ConversionError::ForeignHandle(h.instance),
            None => false,
        },
    }
}

/// Whether the host value `v` has an engine counterpart in the engine instance `instance`.
pub open spec fn is_convertible(v: HostValue, instance: u64) -> bool {
    !exists|e: ConversionError| has_fault(v, instance, e)
}

/// Whether `t` is the engine counterpart of the host value `v`: primitives become the
/// equal engine primitive, sequences and mappings new arrays and objects converted
/// element by element, and handles the engine values they refer to.
pub open spec fn converts_to_engine(v: HostValue, t: EngineTemplate) -> bool
    decreases v,
{
    match v {
        HostValue::Nothing => t is Null,
        HostValue::Boolean(b) => t == EngineTemplate::Boolean(b),
        HostValue::Integer(n) => t matches EngineTemplate::Number(bits) && whole_value(bits) == Some(
            n as int,
        ) && bits != NEGATIVE_ZERO,
        HostValue::Double(bits) => t == EngineTemplate::Number(bits),
        HostValue::Text(s) => t matches EngineTemplate::String(u) && u@ == s@,
        HostValue::Sequence(items) => t matches EngineTemplate::Array(elems) && elems.len()
            == items.len() && forall|i: int|
            0 <= i < items.len() ==> converts_to_engine(#[trigger] items@[i], elems@[i]),
        HostValue::Mapping(entries) => t matches EngineTemplate::Object(props) && props.len()
            == entries.len() && forall|i: int|
            0 <= i < entries.len() ==> converts_to_engine((#[trigger] entries@[i]).0, props@[i].0)
                && converts_to_engine(entries@[i].1, props@[i].1),
        _ => t == EngineTemplate::Existing(handle_of(v)->0.slot),
    }
}

/// Converts a host value into the engine value to be made for it in the engine
/// instance `instance`; fails where a part of it has no counterpart there.
pub fn py_to_v8(v: &HostValue, instance: u64) -> (r: Result<
    EngineTemplate,
    ConversionError,
>)
    ensures
        r is Ok <==> is_convertible(*v, instance),
        r matches Ok(t) ==> converts_to_engine(*v, t),
        r matches Err(e) ==> has_fault(*v, instance, e),
    decreases v,
{
    proof {
        lemma_scalar_convertible(*v, instance);
    }
    match v {
        HostValue::Nothing => Ok(EngineTemplate::Null),
        HostValue::Boolean(b) => Ok(EngineTemplate::Boolean(*b)),
        HostValue::Integer(n) => match integer_to_double(*n) {
            Some(bits) => Ok(EngineTemplate::Number(bits)),
            None => {
                assert(has_fault(*v, instance, ConversionError::InexactInteger(*n)));
                Err(ConversionError::InexactInteger(*n))
            },
        },
        HostValue::Double(bits) => Ok(EngineTemplate::Number(*bits)),
        HostValue::Text(s) => Ok(EngineTemplate::String(s.clone())),
        HostValue::Sequence(items) => {
            let mut elems: Vec<EngineTemplate> = Vec::new();
            let mut i: usize = 0;
            while i < items.len()
                invariant
                    *v == HostValue::Sequence(*items),
                    i <= items.len(),
                    elems.len() == i,
                    forall|j: int|
                        0 <= j < i ==> converts_to_engine(#[trigger] items@[j], elems@[j]),
                    forall|j: int, e: ConversionError|
                        0 <= j < i ==> !#[trigger] has_fault(items@[j], instance, e),
                decreases items.len() - i,
            {
                proof {
                    assert(decreases_to!(*v => v->Sequence_0));
                    assert(decreases_to!(*v => items@[i as int]));
                }
                match py_to_v8(&items[i], instance) {
                    Ok(t) => elems.push(t),
                    Err(e) => {
                        assert(has_fault(items@[i as int], instance, e));
                        assert(has_fault(*v, instance, e));
                        return Err(e);
                    },
                }
                i = i + 1;
            }
            assert forall|e: ConversionError| !has_fault(*v, instance, e) by {
                if has_fault(*v, instance, e) {
                    let j = choose|j: int|
                        0 <= j < items.len() && has_fault(#[trigger] items@[j], instance, e);
                    assert(!has_fault(items@[j], instance, e));
                }
            }
            Ok(EngineTemplate::Array(elems))
        },
        HostValue::Mapping(entries) => {
            let mut props: Vec<(EngineTemplate, EngineTemplate)> = Vec::new();
            let mut i: usize = 0;
            while i < entries.len()
                invariant
                    *v == HostValue::Mapping(*entries),
                    i <= entries.len(),
                    props.len() == i,
                    forall|j: int|
                        0 <= j < i ==> converts_to_engine((#[trigger] entries@[j]).0, props@[j].0)
                            && converts_to_engine(entries@[j].1, props@[j].1),
                    forall|j: int, e: ConversionError|
                        0 <= j < i ==> !#[trigger] has_fault(entries@[j].0, instance, e),
                    forall|j: int, e: ConversionError|
                        0 <= j < i ==> !#[trigger] has_fault(entries@[j].1, instance, e),
                decreases entries.len() - i,
            {
                proof {
                    assert(decreases_to!(*v => v->Mapping_0));
                    assert(decreases_to!(*v => entries@[i as int].0));
                    assert(decreases_to!(*v => entries@[i as int].1));
                }
                let key = match py_to_v8(&entries[i].0, instance) {
                    Ok(t) => t,
                    Err(e) => {
                        assert(has_fault(entries@[i as int].0, instance, e));
                        assert(has_fault(*v, instance, e));
                        return Err(e);
                    },
                };
                let value = match py_to_v8(&entries[i].1, instance) {
                    Ok(t) => t,
                    Err(e) => {
                        assert(has_fault(entries@[i as int].1, instance, e));
                        assert(has_fault(*v, instance, e));
                        return Err(e);
                    },
                };
                props.push((key, value));
                i = i + 1;
            }
            assert forall|e: ConversionError| !has_fault(*v, instance, e) by {
                if has_fault(*v, instance, e) {
                    let j = choose|j: int|
                        0 <= j < entries.len() && (has_fault((#[trigger] entries@[j]).0, instance, e)
                            || has_fault(entries@[j].1, instance, e));
                    assert(!has_fault(entries@[j].0, instance, e));
                    assert(!has_fault(entries@[j].1, instance, e));
                }
            }
            Ok(EngineTemplate::Object(props))
        },
        HostValue::Function(f) => handle_to_engine(v, f.handle, instance),
        HostValue::Object(o) => handle_to_engine(v, o.handle, instance),
        HostValue::Array(a) => handle_to_engine(v, a.handle, instance),
        HostValue::Value(jv) => handle_to_engine(v, jv.handle, instance),
    }
}

/// A scalar host value has an engine counterpart unless it is an integer that no double equals.
proof fn lemma_scalar_convertible(v: HostValue, instance: u64)
    ensures
        match v {
            HostValue::Nothing | HostValue::Boolean(_) | HostValue::Double(_) | HostValue::Text(_) => is_convertible(v, instance),
            HostValue::Integer(n) => is_double_exact(n as int) ==> is_convertible(v, instance),
            _ => true,
        },
{
    assert forall|e: ConversionError| #[trigger] has_fault(v, instance, e) implies match v {
        HostValue::Integer(n) => !is_double_exact(n as int),
        HostValue::Nothing | HostValue::Boolean(_) | HostValue::Double(_) | HostValue::Text(_) => false,
        _ => true,
    } by {}
}

/// Passes a handle back to the engine instance `instance`, which must own it.
fn handle_to_engine(v: &HostValue, h: Handle, instance: u64) -> (r: Result<
    EngineTemplate,
    ConversionError,
>)
    requires
        handle_of(*v) == Some(h),
    ensures
        r is Ok <==> is_convertible(*v, instance),
        r matches Ok(t) ==> converts_to_engine(*v, t),
        r matches Err(e) ==> has_fault(*v, instance, e),
{
    if h.instance != instance {
        let e = ConversionError::ForeignHandle(h.instance);
        assert(has_fault(*v, instance, e));
        Err(e)
    } else {
        Ok(EngineTemplate::Existing(h.slot))
    }
}

/// Whether a host value holds no handle.
pub open spec fn is_plain(v: HostValue) -> bool
    decreases v,
{
    match v {
        HostValue::Sequence(items) => forall|i: int|
            0 <= i < items.len() ==> is_plain(#[trigger] items@[i]),
        HostValue::Mapping(entries) => forall|i: int|
            0 <= i < entries.len() ==> is_plain((#[trigger] entries@[i]).0) && is_plain(
                entries@[i].1,
            ),
        _ => handle_of(v) is None,
    }
}

/// Whether the integer policy keeps every double in a host value at its value: it does,
/// but `Aggressive` clamps whole doubles beyond the `i64` range.
pub open spec fn kept_by_policy(v: HostValue, policy: IntegerConversion) -> bool
    decreases v,
{
    match v {
        HostValue::Double(bits) => policy != IntegerConversion::Aggressive || match whole_value(
            bits,
        ) {
            Some(n) => i64::MIN <= n <= i64::MAX,
            None => true,
        },
        HostValue::Sequence(items) => forall|i: int|
            0 <= i < items.len() ==> kept_by_policy(#[trigger] items@[i], policy),
        HostValue::Mapping(entries) => forall|i: int|
            0 <= i < entries.len() ==> kept_by_policy((#[trigger] entries@[i]).0, policy)
                && kept_by_policy(entries@[i].1, policy),
        _ => true,
    }
}

/// Whether the engine value `w` is what the engine holds once it has made `t`: the same
/// primitives, arrays and objects with the elements and properties given, in order, and
/// for `Existing`, the very engine value that the slot refers to.
pub open spec fn made_as(t: EngineTemplate, w: EngineValue) -> bool
    decreases t,
{
    match t {
        EngineTemplate::Null => w is Null,
        EngineTemplate::Boolean(b) => w == EngineValue::Boolean(b),
        EngineTemplate::Number(bits) => w == EngineValue::Number(bits),
        EngineTemplate::String(s) => w matches EngineValue::String(u) && u@ == s@,
        EngineTemplate::Array(elems) => w matches EngineValue::Array(_, ws) && ws.len()
            == elems.len() && forall|i: int|
            0 <= i < elems.len() ==> made_as(#[trigger] elems@[i], ws@[i]),
        EngineTemplate::Object(props) => w matches EngineValue::Object(_, ws) && ws.len()
            == props.len() && forall|i: int|
            0 <= i < props.len() ==> made_as((#[trigger] props@[i]).0, ws@[i].0) && made_as(
                props@[i].1,
                ws@[i].1,
            ),
        EngineTemplate::Existing(slot) => match w {
            EngineValue::Function(s) => s == slot,
            EngineValue::Array(s, _) => s == slot,
            EngineValue::Object(s, _) => s == slot,
            EngineValue::Other(s, _) => s == slot,
            _ => false,
        },
    }
}

/// Whether two host values are equal as values: numbers by the number they denote (a
/// double equals the integer that it is, and otherwise only itself), strings by their
/// characters, containers element by element, handles by identity.
pub open spec fn host_equiv(a: HostValue, b: HostValue) -> bool
    decreases a,
{
    match a {
        HostValue::Nothing => b is Nothing,
        HostValue::Boolean(x) => b == HostValue::Boolean(x),
        HostValue::Integer(x) => match b {
            HostValue::Integer(y) => x == y,
            HostValue::Double(d) => whole_value(d) == Some(x as int),
            _ => false,
        },
        HostValue::Double(d) => match b {
            HostValue::Double(e) => d == e,
            HostValue::Integer(y) => whole_value(d) == Some(y as int),
            _ => false,
        },
        HostValue::Text(s) => b matches HostValue::Text(u) && u@ == s@,
        HostValue::Sequence(xs) => b matches HostValue::Sequence(ys) && ys.len() == xs.len()
            && forall|i: int| 0 <= i < xs.len() ==> host_equiv(#[trigger] xs@[i], ys@[i]),
        HostValue::Mapping(xs) => b matches HostValue::Mapping(ys) && ys.len() == xs.len()
            && forall|i: int|
            0 <= i < xs.len() ==> host_equiv((#[trigger] xs@[i]).0, ys@[i].0) && host_equiv(
                xs@[i].1,
                ys@[i].1,
            ),
        _ => handle_of(b) == handle_of(a) && match (a, b) {
            (HostValue::Function(_), HostValue::Function(_)) => true,
            (HostValue::Object(_), HostValue::Object(_)) => true,
            (HostValue::Array(_), HostValue::Array(_)) => true,
            (HostValue::Value(x), HostValue::Value(y)) => x.type_repr@ == y.type_repr@,
            _ => false,
        },
    }
}

/// A host number converted to the engine and back is the same number.
proof fn lemma_number_round_trip(bits: u64, policy: IntegerConversion)
    requires
        policy != IntegerConversion::Aggressive || match whole_value(bits) {
            Some(n) => i64::MIN <= n <= i64::MAX,
            None => true,
        },
    ensures
        host_equiv(host_of_number(host_number(bits, policy)), HostValue::Double(bits)),
        whole_value(bits) matches Some(n) ==> i64::MIN <= n <= i64::MAX ==> host_equiv(
            host_of_number(host_number(bits, policy)),
            HostValue::Integer(n as i64),
        ),
{
}

/// Plain host data sent to the engine, made there and read back with `unwrap` is equal,
/// as a value, to what was sent: under any integer policy, with `Aggressive` only where
/// it keeps the doubles' values.
pub proof fn lemma_round_trip(
    v: HostValue,
    t: EngineTemplate,
    w: EngineValue,
    r: HostValue,
    instance: u64,
    policy: IntegerConversion,
)
    requires
        is_plain(v),
        kept_by_policy(v, policy),
        converts_to_engine(v, t),
        made_as(t, w),
        converts_to_host(w, r, instance, true, policy),
    ensures
        host_equiv(r, v),
    decreases v,
{
    match v {
        HostValue::Integer(n) => {
            let bits = t->Number_0;
            lemma_number_round_trip(bits, policy);
        },
        HostValue::Double(bits) => {
            lemma_number_round_trip(bits, policy);
        },
        HostValue::Sequence(items) => {
            let elems = t->Array_0;
            let ws = w->Array_1;
            let rs = r->Sequence_0;
            assert forall|i: int| 0 <= i < items.len() implies host_equiv(
                #[trigger] rs@[i],
                items@[i],
            ) by {
                assert(decreases_to!(v => v->Sequence_0));
                assert(decreases_to!(v => items@[i]));
                lemma_round_trip(items@[i], elems@[i], ws@[i], rs@[i], instance, policy);
            }
        },
        HostValue::Mapping(entries) => {
            let props = t->Object_0;
            let ws = w->Object_1;
            let rs = r->Mapping_0;
            assert forall|i: int| 0 <= i < entries.len() implies host_equiv(
                (#[trigger] rs@[i]).0,
                entries@[i].0,
            ) && host_equiv(rs@[i].1, entries@[i].1) by {
                assert(decreases_to!(v => v->Mapping_0));
                assert(decreases_to!(v => entries@[i].0));
                assert(decreases_to!(v => entries@[i].1));
                lemma_round_trip(entries@[i].0, props@[i].0, ws@[i].0, rs@[i].0, instance, policy);
                lemma_round_trip(entries@[i].1, props@[i].1, ws@[i].1, rs@[i].1, instance, policy);
            }
        },
        _ => {},
    }
}

/// A string, boolean, 32-bit integer or double sent to the engine and converted back is
/// equal to itself as a value, under any integer policy (`Aggressive` clamps whole
/// doubles beyond the `i64` range, which are left out).
pub proof fn lemma_primitive_round_trip(
    v: HostValue,
    t: EngineTemplate,
    w: EngineValue,
    r: HostValue,
    instance: u64,
    unwrap: bool,
    policy: IntegerConversion,
)
    requires
        match v {
            HostValue::Text(_) | HostValue::Boolean(_) => true,
            HostValue::Integer(n) => i32::MIN <= n <= i32::MAX,
            HostValue::Double(_) => kept_by_policy(v, policy),
            _ => false,
        },
        converts_to_engine(v, t),
        made_as(t, w),
        converts_to_host(w, r, instance, unwrap, policy),
    ensures
        is_convertible(v, instance),
        host_equiv(r, v),
{
    lemma_scalar_convertible(v, instance);
    if let HostValue::Integer(n) = v {
        lemma_int32_is_double_exact(n as int);
    }
    lemma_round_trip(v, t, w, r, instance, policy);
}

} // verus!
