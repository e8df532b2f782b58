use nova_vm::collector::collect;
use nova_vm::data_block::Numeric;
use nova_vm::heap::Agent;
use nova_vm::gc::HeapRef;
use nova_vm::object::{object_internal_set, object_try_set, to_object};
use nova_vm::ordinary::{ordinary_define_own_property, ObjectHeapData};
use nova_vm::reference::{get_value, Base, Reference};
use nova_vm::rootable::Scoped;
use nova_vm::small_string::SmallString;
use nova_vm::value::{
    same_value_zero, ArrayIterator, Module, TryResult, ExceptionType, HeapString, Object, OrdinaryObject, PrivateName,
    PropertyDescriptor, PropertyKey, Symbol, Value,
};

#[test]
fn same_value_zero_joins_the_zeros() {
    let minus_zero = Value::Float(0x8000_0000_0000_0000);
    let plus_zero = Value::Float(0);
    let nan = Value::Float(0x7FF8_0000_0000_0000);
    assert!(same_value_zero(minus_zero, plus_zero));
    assert!(same_value_zero(Value::Integer(0), minus_zero));
    assert!(same_value_zero(nan, nan));
    assert!(same_value_zero(Value::Integer(2), Value::Integer(2)));
    assert!(!same_value_zero(Value::Integer(2), Value::Integer(3)));
    assert!(!same_value_zero(Value::Null, Value::Undefined));
}

#[test]
fn numeric_values_convert_both_ways() {
    assert_eq!(Numeric::try_from_value(Value::Integer(5)), Ok(Numeric::Number(5)));
    assert_eq!(Numeric::try_from_value(Value::SmallBigInt(-5)), Ok(Numeric::BigInt(-5)));
    assert_eq!(Numeric::try_from_value(Value::Null), Err(()));
    assert_eq!(Numeric::Number(7).try_into_value(), Ok(Value::Integer(7)));
    assert_eq!(Numeric::BigInt(-7).try_into_value(), Ok(Value::SmallBigInt(-7)));
    assert_eq!(Numeric::BigInt(1 << 64).try_into_value(), Err(()));
}

#[test]
fn property_keys_convert_both_ways() {
    let s = SmallString::try_from("k").unwrap();
    let keys = [
        (PropertyKey::Integer(4), Value::Integer(4)),
        (PropertyKey::SmallString(s), Value::SmallString(s)),
        (PropertyKey::String(HeapString(2)), Value::String(HeapString(2))),
        (PropertyKey::Symbol(Symbol(3)), Value::Symbol(Symbol(3))),
    ];
    for (key, value) in keys {
        assert_eq!(PropertyKey::try_from_value(value), Ok(key));
        assert_eq!(key.try_into_value(), Ok(value));
    }
    assert_eq!(PropertyKey::try_from_value(Value::Boolean(true)), Err(()));
    assert_eq!(PropertyKey::PrivateName(PrivateName(1)).try_into_value(), Err(()));
    assert_eq!(Object::try_from(Value::Object(OrdinaryObject(3))), Ok(Object::Object(OrdinaryObject(3))));
    assert_eq!(Object::try_from(Value::Integer(3)), Err(()));
}

#[test]
fn to_object_wraps_primitives() {
    let mut agent = Agent::new();
    let o = OrdinaryObject(2);
    assert_eq!(to_object(&mut agent, Value::Object(o)).unwrap(), Object::Object(o));
    assert_eq!(
        to_object(&mut agent, Value::Undefined).unwrap_err().kind,
        ExceptionType::TypeError
    );
    assert_eq!(to_object(&mut agent, Value::Null).unwrap_err().kind, ExceptionType::TypeError);
    assert_eq!(agent.heap.objects.len(), 9);
    let wrapper = to_object(&mut agent, Value::Boolean(true)).unwrap();
    assert_eq!(wrapper, Object::Object(OrdinaryObject(9)));
    assert_eq!(
        agent.heap.objects[9].as_ref().unwrap().prototype,
        Some(agent.intrinsics.boolean_prototype)
    );
    let wrapper = to_object(&mut agent, Value::Integer(1)).unwrap();
    assert_eq!(wrapper, Object::Object(OrdinaryObject(10)));
    assert_eq!(
        agent.heap.objects[10].as_ref().unwrap().prototype,
        Some(agent.intrinsics.number_prototype)
    );
}

#[test]
fn rooted_handles_follow_their_records() {
    let mut agent = Agent::new();
    let mut roots = Vec::new();
    for _ in 0..20 {
        agent.heap.create_object(ObjectHeapData::new(None));
    }
    let kept = agent.heap.create_object(ObjectHeapData::new(None));
    let tag = PropertyKey::SmallString(SmallString::try_from("tag").unwrap());
    assert!(ordinary_define_own_property(
        &mut agent,
        kept,
        tag,
        PropertyDescriptor::new_data(Value::Boolean(true), true, true, true)
    ));
    let first = Scoped::scope(&mut roots, Value::Object(kept));
    let second = Scoped::scope(&mut roots, Value::Integer(3));
    assert_eq!(first.get(&roots), Value::Object(kept));
    collect(&mut agent, &mut roots).expect("the heap has no stale handle");
    assert_eq!(first.get(&roots), Value::Object(OrdinaryObject(9)));
    assert_eq!(second.get(&roots), Value::Integer(3));
    let reference = Reference {
        base: Base::Value(first.get(&roots)),
        referenced_name: tag,
        strict: true,
        this_value: None,
    };
    assert_eq!(get_value(&agent, &reference).unwrap(), Value::Boolean(true));
    second.release(&mut roots);
    assert_eq!(roots.len(), 1);
    first.release(&mut roots);
    assert!(roots.is_empty());
    collect(&mut agent, &mut roots).expect("the heap has no stale handle");
    assert_eq!(agent.heap.objects.len(), 9);
}

#[test]
fn handles_of_one_kind_out_of_any_kind() {
    assert_eq!(Module::try_from_heap_ref(HeapRef::Module(Module(4))), Ok(Module(4)));
    assert_eq!(Module::try_from_heap_ref(HeapRef::Object(OrdinaryObject(4))), Err(()));
    assert_eq!(
        ArrayIterator::try_from_heap_ref(HeapRef::ArrayIterator(ArrayIterator(1))),
        Ok(ArrayIterator(1))
    );
    assert_eq!(ArrayIterator::try_from_heap_ref(HeapRef::Module(Module(1))), Err(()));
}

#[test]
fn assignment_without_allocation() {
    let mut agent = Agent::new();
    let it = ArrayIterator::from_object(
        &mut agent,
        Object::Object(OrdinaryObject(0)),
        nova_vm::array_iterator::CollectionIteratorKind::Key,
    );
    let o = Object::ArrayIterator(it);
    let k = PropertyKey::Integer(0);
    let this = Value::ArrayIterator(it);
    assert!(matches!(
        object_try_set(&mut agent, o, k, Value::Null, this),
        TryResult::Break
    ));
    assert!(object_internal_set(&mut agent, o, k, Value::Null, this));
    assert!(matches!(
        object_try_set(&mut agent, o, k, Value::Integer(1), this),
        TryResult::Continue(true)
    ));
    assert!(matches!(
        object_try_set(&mut agent, Object::Object(OrdinaryObject(0)), k, Value::Null, Value::Null),
        TryResult::Continue(false)
    ));
}
