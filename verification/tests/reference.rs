use nova_vm::environment::{Binding, EnvironmentData};
use nova_vm::heap::Agent;
use nova_vm::ordinary::{
    ordinary_define_own_property, ordinary_delete, ordinary_get, ordinary_has_property,
    ordinary_own_property_keys, ObjectHeapData,
};
use nova_vm::reference::{
    get_this_value, get_value, initialize_referenced_binding, is_private_reference,
    is_property_reference, is_super_reference, is_unresolvable_reference, put_value,
    try_get_value, try_initialize_referenced_binding, try_put_value, Base, Reference,
};
use nova_vm::small_string::SmallString;
use nova_vm::value::{
    is_strictly_equal, same_value, ExceptionType, JsString, Object, PrivateName,
    PropertyDescriptor, PropertyKey, Symbol, TryResult, Value,
};

fn name_key(s: &str) -> PropertyKey {
    PropertyKey::SmallString(SmallString::try_from(s).unwrap())
}

fn short(s: &str) -> SmallString {
    SmallString::try_from(s).unwrap()
}

fn property_of(base: Value, name: PropertyKey, strict: bool) -> Reference {
    Reference { base: Base::Value(base), referenced_name: name, strict, this_value: None }
}

#[test]
fn unresolvable_reference() {
    let mut agent = Agent::new();
    let strict = Reference {
        base: Base::Unresolvable,
        referenced_name: name_key("foo"),
        strict: true,
        this_value: None,
    };
    let err = get_value(&agent, &strict).unwrap_err();
    assert_eq!(err.kind, ExceptionType::ReferenceError);
    assert!(err.message.contains("foo"));
    assert_eq!(err.message, "Cannot access undeclared variable 'foo'.");
    let err = put_value(&mut agent, &strict, Value::Integer(1)).unwrap_err();
    assert_eq!(err.kind, ExceptionType::ReferenceError);
    assert_eq!(err.message, "Cannot assign to undeclared variable 'foo'.");
    let sloppy = Reference { strict: false, ..strict };
    put_value(&mut agent, &sloppy, Value::Integer(5)).unwrap();
    let global = agent.global_object;
    assert_eq!(
        ordinary_get(&agent, global, name_key("foo"), Value::Object(global)),
        Value::Integer(5)
    );
    let on_global = property_of(Value::Object(global), name_key("foo"), true);
    assert_eq!(get_value(&agent, &on_global).unwrap(), Value::Integer(5));
    assert!(matches!(try_get_value(&agent, &sloppy), TryResult::Continue(Err(_))));
}

#[test]
fn reference_kinds() {
    let r = property_of(Value::Integer(1), name_key("x"), false);
    assert!(is_property_reference(&r));
    assert!(!is_unresolvable_reference(&r));
    assert!(!is_super_reference(&r));
    assert!(!is_private_reference(&r));
    assert_eq!(get_this_value(&r), Value::Integer(1));
    let s = Reference { this_value: Some(Value::Null), ..r };
    assert!(is_super_reference(&s));
    assert_eq!(get_this_value(&s), Value::Null);
    let p = property_of(Value::Integer(1), PropertyKey::PrivateName(PrivateName(0)), false);
    assert!(is_private_reference(&p));
    let u = Reference { base: Base::Unresolvable, ..r };
    assert!(is_unresolvable_reference(&u));
    assert!(!is_property_reference(&u));
}

#[test]
fn read_of_undefined_or_null_is_a_type_error() {
    let agent = Agent::new();
    let err = get_value(&agent, &property_of(Value::Undefined, name_key("x"), false)).unwrap_err();
    assert_eq!(err.kind, ExceptionType::TypeError);
    assert_eq!(err.message, "Cannot read property 'x' of undefined.");
    let err =
        get_value(&agent, &property_of(Value::Null, PropertyKey::Integer(-12), false)).unwrap_err();
    assert_eq!(err.message, "Cannot read property '-12' of null.");
    let err = get_value(
        &agent,
        &property_of(Value::Integer(1), PropertyKey::PrivateName(PrivateName(1)), false),
    )
    .unwrap_err();
    assert_eq!(err.kind, ExceptionType::TypeError);
}

#[test]
fn primitives_read_from_their_prototypes() {
    let mut agent = Agent::new();
    let number_prototype = agent.intrinsics.number_prototype;
    let object_prototype = agent.intrinsics.object_prototype;
    let d = PropertyDescriptor::new_data(Value::Integer(10), true, true, true);
    assert!(ordinary_define_own_property(&mut agent, number_prototype, name_key("n"), d));
    let d = PropertyDescriptor::new_data(Value::Integer(20), true, true, true);
    assert!(ordinary_define_own_property(&mut agent, object_prototype, name_key("o"), d));
    assert_eq!(
        get_value(&agent, &property_of(Value::Integer(3), name_key("n"), false)).unwrap(),
        Value::Integer(10)
    );
    assert_eq!(
        get_value(&agent, &property_of(Value::Float(0x4008_0000_0000_0000), name_key("o"), false)).unwrap(),
        Value::Integer(20)
    );
    assert_eq!(
        get_value(&agent, &property_of(Value::Boolean(true), name_key("n"), false)).unwrap(),
        Value::Undefined
    );
    assert_eq!(
        get_value(&agent, &property_of(Value::Boolean(true), name_key("o"), false)).unwrap(),
        Value::Integer(20)
    );
    assert!(matches!(
        try_get_value(&agent, &property_of(Value::Symbol(Symbol(0)), name_key("o"), false)),
        TryResult::Continue(Ok(Value::Integer(20)))
    ));
}

#[test]
fn strings_have_length_and_characters() {
    let mut agent = Agent::new();
    let s = Value::SmallString(short("aé💩"));
    assert_eq!(get_value(&agent, &property_of(s, name_key("length"), false)).unwrap(), Value::Integer(4));
    assert_eq!(
        get_value(&agent, &property_of(s, PropertyKey::Integer(1), false)).unwrap(),
        Value::SmallString(short("é"))
    );
    assert_eq!(
        get_value(&agent, &property_of(s, PropertyKey::Integer(2), false)).unwrap(),
        Value::Undefined
    );
    assert_eq!(
        get_value(&agent, &property_of(s, PropertyKey::Integer(9), false)).unwrap(),
        Value::Undefined
    );
    let h = agent.heap.create_string("hello, world".to_string());
    let long = Value::String(h);
    assert_eq!(
        get_value(&agent, &property_of(long, name_key("length"), false)).unwrap(),
        Value::Integer(12)
    );
    assert_eq!(
        get_value(&agent, &property_of(long, PropertyKey::Integer(7), false)).unwrap(),
        Value::SmallString(short("w"))
    );
}

#[test]
fn objects_read_and_write_properties() {
    let mut agent = Agent::new();
    let proto = agent.intrinsics.object_prototype;
    let o = agent.heap.create_object(ObjectHeapData::new(Some(proto)));
    let r = property_of(Value::Object(o), name_key("x"), true);
    assert_eq!(get_value(&agent, &r).unwrap(), Value::Undefined);
    put_value(&mut agent, &r, Value::Integer(4)).unwrap();
    assert_eq!(get_value(&agent, &r).unwrap(), Value::Integer(4));
    assert!(matches!(try_put_value(&mut agent, &r, Value::Integer(5)), TryResult::Continue(Ok(()))));
    assert_eq!(get_value(&agent, &r).unwrap(), Value::Integer(5));
    let frozen = PropertyDescriptor::new_data(Value::Integer(1), false, true, false);
    assert!(ordinary_define_own_property(&mut agent, o, name_key("y"), frozen));
    let y = property_of(Value::Object(o), name_key("y"), true);
    let err = put_value(&mut agent, &y, Value::Integer(2)).unwrap_err();
    assert_eq!(err.kind, ExceptionType::TypeError);
    assert_eq!(err.message, "Could not set property 'y'.");
    let y = property_of(Value::Object(o), name_key("y"), false);
    put_value(&mut agent, &y, Value::Integer(2)).unwrap();
    assert_eq!(get_value(&agent, &y).unwrap(), Value::Integer(1));
    assert!(ordinary_has_property(&agent, o, name_key("x")));
    assert!(ordinary_delete(&mut agent, o, name_key("x")));
    assert!(!ordinary_delete(&mut agent, o, name_key("y")));
    assert!(!ordinary_has_property(&agent, o, name_key("x")));
}

#[test]
fn writes_on_primitives_are_refused() {
    let mut agent = Agent::new();
    let r = property_of(Value::Integer(1), name_key("x"), false);
    put_value(&mut agent, &r, Value::Integer(2)).unwrap();
    let r = property_of(Value::Integer(1), name_key("x"), true);
    assert_eq!(
        put_value(&mut agent, &r, Value::Integer(2)).unwrap_err().kind,
        ExceptionType::TypeError
    );
    let r = property_of(Value::Undefined, name_key("x"), false);
    assert_eq!(
        put_value(&mut agent, &r, Value::Integer(2)).unwrap_err().kind,
        ExceptionType::TypeError
    );
    assert_eq!(agent.heap.objects.len(), 9);
}

#[test]
fn exotic_objects_get_a_backing_object_on_write() {
    let mut agent = Agent::new();
    let buf = nova_vm::array_buffer::allocate_array_buffer(&mut agent, 4, None).unwrap();
    let r = property_of(Value::ArrayBuffer(buf), name_key("tag"), true);
    assert_eq!(get_value(&agent, &r).unwrap(), Value::Undefined);
    assert!(matches!(try_put_value(&mut agent, &r, Value::Integer(1)), TryResult::Break));
    assert_eq!(agent.heap.objects.len(), 9);
    put_value(&mut agent, &r, Value::Integer(1)).unwrap();
    assert_eq!(agent.heap.objects.len(), 10);
    assert_eq!(get_value(&agent, &r).unwrap(), Value::Integer(1));
    assert!(matches!(try_put_value(&mut agent, &r, Value::Integer(2)), TryResult::Continue(Ok(()))));
    assert_eq!(get_value(&agent, &r).unwrap(), Value::Integer(2));
    let backing =
        nova_vm::object::get_backing_object(&agent, Object::ArrayBuffer(buf)).unwrap();
    assert_eq!(backing.0, 9);
    assert_eq!(
        agent.heap.objects[9].as_ref().unwrap().prototype,
        Some(agent.intrinsics.array_buffer_prototype)
    );
}

#[test]
fn private_elements() {
    let mut agent = Agent::new();
    let o = agent.heap.create_object(ObjectHeapData::new(None));
    let name = PropertyKey::PrivateName(PrivateName(3));
    let r = property_of(Value::Object(o), name, true);
    assert_eq!(get_value(&agent, &r).unwrap_err().kind, ExceptionType::TypeError);
    assert_eq!(
        put_value(&mut agent, &r, Value::Integer(1)).unwrap_err().kind,
        ExceptionType::TypeError
    );
    let d = PropertyDescriptor::new_data(Value::Integer(1), true, false, false);
    assert!(ordinary_define_own_property(&mut agent, o, name, d));
    assert_eq!(get_value(&agent, &r).unwrap(), Value::Integer(1));
    put_value(&mut agent, &r, Value::Integer(2)).unwrap();
    assert_eq!(get_value(&agent, &r).unwrap(), Value::Integer(2));
    assert!(matches!(try_get_value(&agent, &r), TryResult::Continue(Ok(Value::Integer(2)))));
    assert_eq!(ordinary_own_property_keys(&agent, o), vec![]);
}

#[test]
fn environment_references() {
    let mut agent = Agent::new();
    let x = JsString::SmallString(short("x"));
    let c = JsString::SmallString(short("c"));
    let env = agent.heap.create_environment(EnvironmentData {
        bindings: vec![
            Binding { name: x, value: None, mutable: true },
            Binding { name: c, value: Some(Value::Integer(1)), mutable: false },
        ],
    });
    let rx = Reference {
        base: Base::Environment(env),
        referenced_name: name_key("x"),
        strict: true,
        this_value: None,
    };
    assert_eq!(get_value(&agent, &rx).unwrap_err().kind, ExceptionType::ReferenceError);
    assert_eq!(
        put_value(&mut agent, &rx, Value::Integer(1)).unwrap_err().kind,
        ExceptionType::ReferenceError
    );
    initialize_referenced_binding(&mut agent, rx, Value::Integer(7)).unwrap();
    assert_eq!(get_value(&agent, &rx).unwrap(), Value::Integer(7));
    put_value(&mut agent, &rx, Value::Integer(8)).unwrap();
    assert_eq!(get_value(&agent, &rx).unwrap(), Value::Integer(8));
    let rc = Reference { referenced_name: name_key("c"), ..rx };
    assert_eq!(
        put_value(&mut agent, &rc, Value::Integer(2)).unwrap_err().kind,
        ExceptionType::TypeError
    );
    let rc = Reference { strict: false, ..rc };
    put_value(&mut agent, &rc, Value::Integer(2)).unwrap();
    assert_eq!(get_value(&agent, &rc).unwrap(), Value::Integer(1));
    let missing = Reference { referenced_name: name_key("m"), ..rx };
    assert_eq!(get_value(&agent, &missing).unwrap_err().kind, ExceptionType::ReferenceError);
    let missing = Reference { strict: false, ..missing };
    assert_eq!(get_value(&agent, &missing).unwrap(), Value::Undefined);
    put_value(&mut agent, &missing, Value::Integer(3)).unwrap();
    assert_eq!(get_value(&agent, &missing).unwrap(), Value::Integer(3));
    let y = JsString::SmallString(short("y"));
    match agent.heap.environments[env.0 as usize].as_mut() {
        Some(data) => data.create_binding(y, true),
        None => panic!("no environment"),
    }
    let ry = Reference { referenced_name: name_key("y"), ..rx };
    assert!(matches!(
        try_initialize_referenced_binding(&mut agent, ry, Value::Null),
        TryResult::Continue(Ok(()))
    ));
    assert_eq!(get_value(&agent, &ry).unwrap(), Value::Null);
}

#[test]
fn own_keys_follow_the_order_of_the_language() {
    let mut agent = Agent::new();
    let o = agent.heap.create_object(ObjectHeapData::new(None));
    let d = PropertyDescriptor::new_data(Value::Null, true, true, true);
    let keys = [
        name_key("b"),
        PropertyKey::Integer(10),
        PropertyKey::Symbol(Symbol(2)),
        PropertyKey::Integer(2),
        name_key("a"),
        PropertyKey::PrivateName(PrivateName(0)),
        PropertyKey::Symbol(Symbol(1)),
        PropertyKey::Integer(-1),
    ];
    for k in keys {
        assert!(ordinary_define_own_property(&mut agent, o, k, d));
    }
    assert_eq!(
        ordinary_own_property_keys(&agent, o),
        vec![
            PropertyKey::Integer(-1),
            PropertyKey::Integer(2),
            PropertyKey::Integer(10),
            name_key("b"),
            name_key("a"),
            PropertyKey::Symbol(Symbol(2)),
            PropertyKey::Symbol(Symbol(1)),
        ]
    );
}

#[test]
fn same_value_and_strict_equality() {
    let nan = Value::Float(0x7FF8_0000_0000_0000);
    let other_nan = Value::Float(0x7FF0_0000_0000_0001);
    let plus_zero = Value::Integer(0);
    let minus_zero = Value::Float(0x8000_0000_0000_0000);
    let infinity = Value::Float(0x7FF0_0000_0000_0000);
    assert!(same_value(nan, nan));
    assert!(same_value(nan, other_nan));
    assert!(!is_strictly_equal(nan, nan));
    assert!(!same_value(plus_zero, minus_zero));
    assert!(!same_value(minus_zero, plus_zero));
    assert!(is_strictly_equal(plus_zero, minus_zero));
    assert!(same_value(infinity, infinity));
    assert!(is_strictly_equal(infinity, infinity));
    assert!(!same_value(infinity, nan));
    let values = [
        Value::Undefined,
        Value::Null,
        Value::Boolean(true),
        Value::Integer(3),
        Value::SmallBigInt(3),
        Value::SmallString(short("3")),
        Value::Symbol(Symbol(3)),
        nan,
        minus_zero,
    ];
    for (i, x) in values.iter().enumerate() {
        for (j, y) in values.iter().enumerate() {
            assert_eq!(same_value(*x, *y), i == j);
            assert_eq!(same_value(*x, *y), same_value(*y, *x));
            if *x != nan {
                assert_eq!(is_strictly_equal(*x, *y), i == j);
            }
        }
    }
}
