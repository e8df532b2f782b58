use nova_vm::array_buffer::{
    allocate_array_buffer, float_to_index, get_array_buffer_max_byte_length_option,
    get_modify_set_value_in_buffer, get_modify_set_value_in_buffer_in_order, get_value_from_buffer,
    modify_raw_bytes, try_to_index, ModifyOp, MemoryOrder, MAX_INDEX,
};
use nova_vm::array_iterator::{
    array_iterator_next, ArrayIteratorHeapData, CollectionIteratorKind, IteratorStep,
};
use nova_vm::builtins::{AsyncFunctionConstructor, RegExpConstructor};
use nova_vm::data_block::{ElementType, Numeric};
use nova_vm::heap::Agent;
use nova_vm::ordinary::{ordinary_define_own_property, ObjectHeapData};
use nova_vm::small_string::SmallString;
use nova_vm::value::{
    ArrayIterator, ExceptionType, Module, Object, OrdinaryObject, PropertyDescriptor, PropertyKey,
    TryResult, Value,
};

fn short_key(s: &str) -> PropertyKey {
    PropertyKey::SmallString(SmallString::try_from(s).unwrap())
}

fn plain_data(value: Value) -> PropertyDescriptor {
    PropertyDescriptor::new_data(value, true, true, true)
}

fn array_like(agent: &mut Agent, elements: &[i64]) -> OrdinaryObject {
    let o = agent.heap.create_object(ObjectHeapData::new(None));
    for (i, v) in elements.iter().enumerate() {
        assert!(ordinary_define_own_property(
            agent,
            o,
            PropertyKey::Integer(i as i64),
            plain_data(Value::Integer(*v))
        ));
    }
    assert!(ordinary_define_own_property(
        agent,
        o,
        short_key("length"),
        plain_data(Value::Integer(elements.len() as i64))
    ));
    o
}

#[test]
fn iterator_walks_the_target_and_ends() {
    let mut agent = Agent::new();
    let target = array_like(&mut agent, &[10, 20]);
    let it = ArrayIterator::from_object(
        &mut agent,
        Object::Object(target),
        CollectionIteratorKind::KeyAndValue,
    );
    assert_eq!(
        array_iterator_next(&mut agent, it).unwrap(),
        IteratorStep::KeyAndValue(0, Value::Integer(10))
    );
    assert_eq!(
        array_iterator_next(&mut agent, it).unwrap(),
        IteratorStep::KeyAndValue(1, Value::Integer(20))
    );
    assert_eq!(array_iterator_next(&mut agent, it).unwrap(), IteratorStep::Done);
    assert!(agent.heap.array_iterators[it.get_index()].as_ref().unwrap().array.is_none());
    assert_eq!(array_iterator_next(&mut agent, it).unwrap(), IteratorStep::Done);
}

#[test]
fn iterator_follows_the_target() {
    let mut agent = Agent::new();
    let target = array_like(&mut agent, &[1]);
    let keys = ArrayIterator::from_object(&mut agent, Object::Object(target), CollectionIteratorKind::Key);
    let values = ArrayIterator::from_vm_iterator(&mut agent, Object::Object(target), 1);
    assert_eq!(array_iterator_next(&mut agent, keys).unwrap(), IteratorStep::Key(0));
    assert!(ordinary_define_own_property(
        &mut agent,
        target,
        PropertyKey::Integer(1),
        plain_data(Value::Integer(5))
    ));
    assert!(ordinary_define_own_property(&mut agent, target, short_key("length"), plain_data(Value::Integer(2))));
    assert_eq!(array_iterator_next(&mut agent, keys).unwrap(), IteratorStep::Key(1));
    assert_eq!(
        array_iterator_next(&mut agent, values).unwrap(),
        IteratorStep::Value(Value::Integer(5))
    );
    assert_eq!(array_iterator_next(&mut agent, values).unwrap(), IteratorStep::Done);
    assert_eq!(array_iterator_next(&mut agent, keys).unwrap(), IteratorStep::Done);
}

#[test]
fn iterator_handles_and_records() {
    let mut agent = Agent::new();
    let it = ArrayIterator::from_object(
        &mut agent,
        Object::Module(Module(0)),
        CollectionIteratorKind::default(),
    );
    assert_eq!(it, ArrayIterator::_def());
    assert_eq!(ArrayIterator::try_from_value(Value::ArrayIterator(it)), Ok(it));
    assert_eq!(ArrayIterator::try_from_value(Value::Null), Err(()));
    assert_eq!(ArrayIterator::try_from_object(Object::ArrayIterator(it)), Ok(it));
    assert_eq!(ArrayIterator::try_from_object(Object::Module(Module(0))), Err(()));
    assert_eq!(it.get_backing_object(&agent), None);
    it.set_backing_object(&mut agent, OrdinaryObject(0));
    assert_eq!(it.get_backing_object(&agent), Some(OrdinaryObject(0)));
    let record = ArrayIteratorHeapData::default();
    assert!(record.array.is_none());
    assert_eq!(record.next_index, 0);
    assert_eq!(Value::from(it), Value::ArrayIterator(it));
    assert_eq!(Object::from(it), Object::ArrayIterator(it));
    assert_eq!(Value::from(Module(2)), Value::Module(Module(2)));
    assert_eq!(Object::from(Module(2)), Object::Module(Module(2)));
    assert_eq!(Value::from(Object::Object(OrdinaryObject(1))), Value::Object(OrdinaryObject(1)));
    assert_eq!(SmallString::from('é').as_str(), "é");
}

#[test]
fn indices_from_values() {
    let agent = Agent::new();
    let ok = |v: Value| match try_to_index(&agent, v) {
        TryResult::Continue(Ok(n)) => n,
        _ => panic!("no index"),
    };
    let kind = |v: Value| match try_to_index(&agent, v) {
        TryResult::Continue(Err(e)) => e.kind,
        _ => panic!("no error"),
    };
    assert_eq!(ok(Value::Undefined), 0);
    assert_eq!(ok(Value::Null), 0);
    assert_eq!(ok(Value::Boolean(true)), 1);
    assert_eq!(ok(Value::Integer(7)), 7);
    assert_eq!(ok(Value::Integer(MAX_INDEX)), MAX_INDEX);
    assert_eq!(kind(Value::Integer(-1)), ExceptionType::RangeError);
    assert_eq!(kind(Value::Integer(MAX_INDEX + 1)), ExceptionType::RangeError);
    assert_eq!(kind(Value::Symbol(nova_vm::value::Symbol(0))), ExceptionType::TypeError);
    assert_eq!(kind(Value::SmallBigInt(1)), ExceptionType::TypeError);
    assert!(matches!(
        try_to_index(&agent, Value::SmallString(SmallString::try_from("5").unwrap())),
        TryResult::Break
    ));
    assert_eq!(ok(Value::Float(2.5f64.to_bits())), 2);
    assert_eq!(ok(Value::Float(0.75f64.to_bits())), 0);
    assert_eq!(ok(Value::Float((-0.75f64).to_bits())), 0);
    assert_eq!(ok(Value::Float(f64::NAN.to_bits())), 0);
    assert_eq!(ok(Value::Float(9007199254740991.0f64.to_bits())), MAX_INDEX);
    assert_eq!(kind(Value::Float(9007199254740992.0f64.to_bits())), ExceptionType::RangeError);
    assert_eq!(kind(Value::Float((-1.0f64).to_bits())), ExceptionType::RangeError);
    assert_eq!(kind(Value::Float(f64::INFINITY.to_bits())), ExceptionType::RangeError);
    assert_eq!(float_to_index(1e300f64.to_bits()), None);
    assert_eq!(float_to_index(4294967296.5f64.to_bits()), Some(4294967296));
}

#[test]
fn max_byte_length_option() {
    let mut agent = Agent::new();
    let name = agent.heap.create_string("maxByteLength".to_string());
    let k = PropertyKey::String(name);
    let read = |agent: &Agent, options: Value| {
        match get_array_buffer_max_byte_length_option(agent, options, k) {
            TryResult::Continue(r) => r,
            TryResult::Break => panic!("stopped"),
        }
    };
    assert_eq!(read(&agent, Value::Undefined).unwrap(), None);
    assert_eq!(read(&agent, Value::Integer(3)).unwrap(), None);
    let options = agent.heap.create_object(ObjectHeapData::new(None));
    assert_eq!(read(&agent, Value::Object(options)).unwrap(), None);
    assert!(ordinary_define_own_property(&mut agent, options, k, plain_data(Value::Integer(64))));
    assert_eq!(read(&agent, Value::Object(options)).unwrap(), Some(64));
    assert!(ordinary_define_own_property(&mut agent, options, k, plain_data(Value::Integer(-64))));
    assert_eq!(read(&agent, Value::Object(options)).unwrap_err().kind, ExceptionType::RangeError);
    assert!(ordinary_define_own_property(&mut agent, options, k, plain_data(Value::Object(options))));
    assert!(matches!(
        get_array_buffer_max_byte_length_option(&agent, Value::Object(options), k),
        TryResult::Break
    ));
}

#[test]
fn read_modify_write() {
    let mut agent = Agent::new();
    let buf = allocate_array_buffer(&mut agent, 4, None).unwrap();
    let ty = ElementType::Uint16;
    let rmw = |agent: &mut Agent, op: ModifyOp, v: i64| {
        get_modify_set_value_in_buffer_in_order(agent, buf, 2, ty, Numeric::Number(v), op, true)
    };
    assert_eq!(rmw(&mut agent, ModifyOp::Add, 0x00F0), Numeric::Number(0));
    assert_eq!(rmw(&mut agent, ModifyOp::Or, 0x0F0F), Numeric::Number(0x00F0));
    assert_eq!(rmw(&mut agent, ModifyOp::And, 0x0FF0), Numeric::Number(0x0FFF));
    assert_eq!(rmw(&mut agent, ModifyOp::Xor, 0xFFFF), Numeric::Number(0x0FF0));
    assert_eq!(rmw(&mut agent, ModifyOp::Sub, 0xF010), Numeric::Number(0xF00F));
    assert_eq!(rmw(&mut agent, ModifyOp::Exchange, 7), Numeric::Number(0xFFFF));
    assert_eq!(rmw(&mut agent, ModifyOp::Add, -8), Numeric::Number(7));
    assert_eq!(rmw(&mut agent, ModifyOp::Add, 0), Numeric::Number(0xFFFF));
    assert_eq!(
        agent.heap.array_buffers[buf.0 as usize].as_ref().unwrap().get_data_block().bytes,
        vec![0, 0, 0xFF, 0xFF]
    );
    assert_eq!(
        get_modify_set_value_in_buffer(
            &mut agent,
            buf,
            0,
            ElementType::Int8,
            Numeric::Number(-1),
            ModifyOp::Exchange
        ),
        Numeric::Number(0)
    );
    assert_eq!(
        get_value_from_buffer(&agent, buf, 0, ElementType::Int8, true, MemoryOrder::SeqCst, None),
        Numeric::Number(-1)
    );
    assert_eq!(
        modify_raw_bytes(ModifyOp::Add, ElementType::Uint8, &vec![0xFF], &vec![2], false),
        vec![1]
    );
}

#[test]
fn builtin_constructors() {
    let agent = Agent::new();
    let err = RegExpConstructor::constructor(&agent, Value::Undefined, &vec![], None).unwrap_err();
    assert_eq!(err.kind, ExceptionType::Error);
    assert_eq!(err.message, "RegExp not implemented");
    assert_eq!(
        RegExpConstructor::get_species(&agent, Value::Integer(3), &vec![]).unwrap(),
        Value::Integer(3)
    );
    assert_eq!(RegExpConstructor::LENGTH, 1);
    assert_eq!(AsyncFunctionConstructor::LENGTH, 1);
    let (parameters, body) = AsyncFunctionConstructor::split_arguments(&vec![]);
    assert!(parameters.is_empty());
    assert_eq!(body, Value::SmallString(SmallString::empty()));
    let arguments = vec![Value::Integer(1), Value::Integer(2), Value::Integer(3)];
    let (parameters, body) = AsyncFunctionConstructor::split_arguments(&arguments);
    assert_eq!(parameters, vec![Value::Integer(1), Value::Integer(2)]);
    assert_eq!(body, Value::Integer(3));
    let running = Object::Object(OrdinaryObject(1));
    let target = Object::Object(OrdinaryObject(2));
    assert_eq!(AsyncFunctionConstructor::choose_constructor(None, running), running);
    assert_eq!(AsyncFunctionConstructor::choose_constructor(Some(target), running), target);
}
