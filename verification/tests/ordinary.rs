use nova_vm::heap::Agent;
use nova_vm::object::set_property;
use nova_vm::ordinary::{
    ordinary_define_own_property, ordinary_get, ordinary_get_own_property,
    ordinary_get_prototype_of, ordinary_is_extensible, ordinary_prevent_extensions,
    ordinary_set, ordinary_set_prototype_of, reaches, ObjectHeapData,
};
use nova_vm::small_string::SmallString;
use nova_vm::string::{create_string, key_display, string_to_owned};
use nova_vm::value::{
    ExceptionType, JsString, Object, PrivateName, PropertyDescriptor, PropertyKey, Symbol, Value,
};

fn word(s: &str) -> PropertyKey {
    PropertyKey::SmallString(SmallString::try_from(s).unwrap())
}

#[test]
fn prototype_chains_stay_free_of_circles() {
    let mut agent = Agent::new();
    let a = agent.heap.create_object(ObjectHeapData::new(None));
    let b = agent.heap.create_object(ObjectHeapData::new(Some(a)));
    let c = agent.heap.create_object(ObjectHeapData::new(Some(b)));
    assert_eq!(ordinary_get_prototype_of(&agent, c), Some(b));
    assert!(reaches(&agent, c, a));
    assert!(!reaches(&agent, a, c));
    assert!(!ordinary_set_prototype_of(&mut agent, a, Some(c)));
    assert!(!ordinary_set_prototype_of(&mut agent, a, Some(a)));
    assert_eq!(ordinary_get_prototype_of(&agent, a), None);
    assert!(ordinary_set_prototype_of(&mut agent, c, Some(a)));
    assert_eq!(ordinary_get_prototype_of(&agent, c), Some(a));
    assert!(ordinary_set_prototype_of(&mut agent, c, None));
    assert!(ordinary_is_extensible(&agent, c));
    assert!(ordinary_prevent_extensions(&mut agent, c));
    assert!(!ordinary_is_extensible(&agent, c));
    assert!(ordinary_set_prototype_of(&mut agent, c, None));
    assert!(!ordinary_set_prototype_of(&mut agent, c, Some(a)));
    let d = PropertyDescriptor::new_data(Value::Null, true, true, true);
    assert!(!ordinary_define_own_property(&mut agent, c, word("x"), d));
}

#[test]
fn inherited_properties_and_assignment() {
    let mut agent = Agent::new();
    let proto = agent.heap.create_object(ObjectHeapData::new(None));
    let o = agent.heap.create_object(ObjectHeapData::new(Some(proto)));
    let frozen = PropertyDescriptor::new_data(Value::Integer(1), false, true, true);
    let open = PropertyDescriptor::new_data(Value::Integer(2), true, true, true);
    assert!(ordinary_define_own_property(&mut agent, proto, word("ro"), frozen));
    assert!(ordinary_define_own_property(&mut agent, proto, word("rw"), open));
    let this = Value::Object(o);
    assert_eq!(ordinary_get(&agent, o, word("ro"), this), Value::Integer(1));
    assert!(!ordinary_set(&mut agent, o, word("ro"), Value::Integer(5), this));
    assert!(ordinary_set(&mut agent, o, word("rw"), Value::Integer(6), this));
    assert_eq!(ordinary_get(&agent, o, word("rw"), this), Value::Integer(6));
    assert_eq!(ordinary_get(&agent, proto, word("rw"), this), Value::Integer(2));
    assert!(ordinary_get_own_property(&agent, o, word("ro")).is_none());
    let own = ordinary_get_own_property(&agent, o, word("rw")).unwrap();
    assert_eq!(own.value, Some(Value::Integer(6)));
    assert_eq!(own.writable, Some(true));
    assert_eq!(own.enumerable, Some(true));
    assert_eq!(own.configurable, Some(true));
    assert!(!ordinary_set(&mut agent, o, word("n"), Value::Null, Value::Integer(1)));
    assert!(set_property(&mut agent, Object::Object(o), word("n"), Value::Null, true).is_ok());
    let err = set_property(&mut agent, Object::Object(o), word("ro"), Value::Null, true).unwrap_err();
    assert_eq!(err.kind, ExceptionType::TypeError);
    assert!(set_property(&mut agent, Object::Object(o), word("ro"), Value::Null, false).is_ok());
}

#[test]
fn strings_of_either_form() {
    let mut agent = Agent::new();
    let short = create_string(&mut agent, "seven77");
    assert_eq!(short, JsString::SmallString(SmallString::try_from("seven77").unwrap()));
    assert_eq!(agent.heap.strings.len(), 0);
    let long = create_string(&mut agent, "eight888");
    assert!(matches!(long, JsString::String(h) if h.0 == 0));
    assert_eq!(string_to_owned(&agent, long), "eight888");
    assert_eq!(string_to_owned(&agent, short), "seven77");
    assert_eq!(key_display(&agent, PropertyKey::Integer(0)), "0");
    assert_eq!(key_display(&agent, PropertyKey::Integer(12345)), "12345");
    assert_eq!(key_display(&agent, PropertyKey::Integer(i64::MIN)), "-9223372036854775808");
    assert_eq!(key_display(&agent, long.into_property_key()), "eight888");
    assert_eq!(key_display(&agent, PropertyKey::Symbol(Symbol(1))), "Symbol()");
    assert_eq!(key_display(&agent, PropertyKey::PrivateName(PrivateName(1))), "#private");
    assert!(long.same(&long));
    assert!(!long.same(&short));
    assert_eq!(long.into_value(), Value::String(nova_vm::value::HeapString(0)));
}
