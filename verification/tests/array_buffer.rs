use nova_vm::array_buffer::{
    allocate_array_buffer, array_buffer_byte_length, clone_array_buffer, detach_array_buffer,
    get_value_from_buffer, host_is_little_endian, host_resize_array_buffer, is_detached_buffer,
    is_fixed_length_array_buffer, is_low_byte_first, is_no_tear_configuration, set_detach_key,
    set_value_in_buffer, DetachKey, MemoryOrder, ViewedArrayBufferByteLength,
    ViewedArrayBufferByteOffset,
};
use nova_vm::data_block::{
    is_big_int_element_type, is_unclamped_integer_element_type, is_unsigned_element_type,
    numeric_to_raw_bytes, raw_bytes_to_numeric, DataBlock, ElementType, Numeric,
};
use nova_vm::heap::Agent;
use nova_vm::value::ExceptionType;

fn fresh_agent() -> Agent {
    Agent::new()
}

#[test]
fn resizable_buffer() {
    let mut agent = fresh_agent();
    let buf = allocate_array_buffer(&mut agent, 10, Some(20)).unwrap();
    let data = agent.heap.array_buffers[buf.0 as usize].as_ref().unwrap();
    assert_eq!(data.byte_length(), 10);
    assert_eq!(data.max_byte_length(), 20);
    assert!(data.is_resizable());
    assert!(!is_fixed_length_array_buffer(&agent, buf));
    assert_eq!(array_buffer_byte_length(&agent, buf, MemoryOrder::SeqCst), 10);
    let err = allocate_array_buffer(&mut agent, 30, Some(20)).unwrap_err();
    assert_eq!(err.kind, ExceptionType::RangeError);
    assert_eq!(err.message, "Byte length is over maximumm byte length");
    assert_eq!(agent.heap.array_buffers.len(), 1);
}

#[test]
fn fixed_length_buffer_is_zeroed() {
    let mut agent = fresh_agent();
    let buf = allocate_array_buffer(&mut agent, 4, None).unwrap();
    let data = agent.heap.array_buffers[buf.0 as usize].as_ref().unwrap();
    assert_eq!(data.get_data_block().bytes, vec![0u8; 4]);
    assert_eq!(data.max_byte_length(), 4);
    assert!(is_fixed_length_array_buffer(&agent, buf));
    assert_eq!(agent.heap.alloc_counter, 10);
}

#[test]
fn too_long_buffer_is_a_range_error() {
    let mut agent = fresh_agent();
    let err = allocate_array_buffer(&mut agent, 0x1_0000_0000, None).unwrap_err();
    assert_eq!(err.kind, ExceptionType::RangeError);
    assert_eq!(err.message, "Byte length is too large");
}

#[test]
fn detach_enforcement() {
    let mut agent = fresh_agent();
    let buf = allocate_array_buffer(&mut agent, 8, None).unwrap();
    assert!(!is_detached_buffer(&agent, buf));
    detach_array_buffer(&mut agent, buf, None).unwrap();
    assert!(is_detached_buffer(&agent, buf));
    let data = agent.heap.array_buffers[buf.0 as usize].as_ref().unwrap();
    assert_eq!(data.byte_length(), 0);
    assert_eq!(data.max_byte_length(), 0);
}

#[test]
fn detach_with_another_key_is_a_type_error() {
    let mut agent = fresh_agent();
    let buf = allocate_array_buffer(&mut agent, 8, None).unwrap();
    let err = detach_array_buffer(&mut agent, buf, Some(DetachKey {})).unwrap_err();
    assert_eq!(err.kind, ExceptionType::TypeError);
    assert_eq!(err.message, "Mismatching array buffer detach keys");
    assert!(!is_detached_buffer(&agent, buf));
    set_detach_key(&mut agent, buf, Some(DetachKey {}));
    assert!(detach_array_buffer(&mut agent, buf, None).is_err());
    assert!(detach_array_buffer(&mut agent, buf, Some(DetachKey {})).is_ok());
    assert!(is_detached_buffer(&agent, buf));
}

#[test]
fn endianness_round_trip() {
    let mut agent = fresh_agent();
    let buf = allocate_array_buffer(&mut agent, 8, None).unwrap();
    set_value_in_buffer(
        &mut agent,
        buf,
        0,
        ElementType::Uint32,
        Numeric::Number(0x12345678),
        true,
        MemoryOrder::Unordered,
        Some(true),
    );
    let le = get_value_from_buffer(
        &agent,
        buf,
        0,
        ElementType::Uint32,
        true,
        MemoryOrder::Unordered,
        Some(true),
    );
    assert_eq!(le, Numeric::Number(0x12345678));
    let be = get_value_from_buffer(
        &agent,
        buf,
        0,
        ElementType::Uint32,
        true,
        MemoryOrder::Unordered,
        Some(false),
    );
    assert_eq!(be, Numeric::Number(0x78563412));
    let data = agent.heap.array_buffers[buf.0 as usize].as_ref().unwrap();
    assert_eq!(data.get_data_block().bytes, vec![0x78, 0x56, 0x34, 0x12, 0, 0, 0, 0]);
}

#[test]
fn host_order_round_trips() {
    let mut agent = fresh_agent();
    let buf = allocate_array_buffer(&mut agent, 8, None).unwrap();
    set_value_in_buffer(
        &mut agent,
        buf,
        4,
        ElementType::Int16,
        Numeric::Number(-2),
        true,
        MemoryOrder::SeqCst,
        None,
    );
    let v = get_value_from_buffer(
        &agent,
        buf,
        4,
        ElementType::Int16,
        true,
        MemoryOrder::SeqCst,
        None,
    );
    assert_eq!(v, Numeric::Number(-2));
}

#[test]
fn values_wrap_into_the_element_range() {
    let cases: [(ElementType, i64, i64); 9] = [
        (ElementType::Uint8, 257, 1),
        (ElementType::Uint8, -1, 255),
        (ElementType::Int8, 128, -128),
        (ElementType::Int8, -129, 127),
        (ElementType::Uint8Clamped, 300, 255),
        (ElementType::Uint8Clamped, -5, 0),
        (ElementType::Int16, 0x18000, -0x8000),
        (ElementType::Uint32, -1, 0xFFFF_FFFF),
        (ElementType::Int32, 0x8000_0000, -0x8000_0000),
    ];
    for (ty, input, expected) in cases {
        for le in [true, false] {
            let raw = numeric_to_raw_bytes(ty, Numeric::Number(input), le);
            assert_eq!(raw.len(), ty.size());
            assert_eq!(raw_bytes_to_numeric(ty, &raw, le), Numeric::Number(expected));
        }
    }
}

#[test]
fn big_integers_use_eight_bytes() {
    let raw = numeric_to_raw_bytes(ElementType::BigInt64, Numeric::BigInt(-2), true);
    assert_eq!(raw, vec![0xFE, 0xFF, 0xFF, 0xFF, 0xFF, 0xFF, 0xFF, 0xFF]);
    assert_eq!(
        raw_bytes_to_numeric(ElementType::BigInt64, &raw, true),
        Numeric::BigInt(-2)
    );
    assert_eq!(
        raw_bytes_to_numeric(ElementType::BigUint64, &raw, true),
        Numeric::BigInt(0xFFFF_FFFF_FFFF_FFFE)
    );
    let raw = numeric_to_raw_bytes(ElementType::BigUint64, Numeric::BigInt(1 << 64), false);
    assert_eq!(raw, vec![0u8; 8]);
}

#[test]
fn raw_bytes_in_both_orders() {
    let le = numeric_to_raw_bytes(ElementType::Uint16, Numeric::Number(0x1234), true);
    assert_eq!(le, vec![0x34, 0x12]);
    let be = numeric_to_raw_bytes(ElementType::Uint16, Numeric::Number(0x1234), false);
    assert_eq!(be, vec![0x12, 0x34]);
}

#[test]
fn clone_copies_the_bytes() {
    let mut agent = fresh_agent();
    let src = allocate_array_buffer(&mut agent, 4, None).unwrap();
    for (i, v) in [1i64, 2, 3, 4].into_iter().enumerate() {
        set_value_in_buffer(
            &mut agent,
            src,
            i,
            ElementType::Uint8,
            Numeric::Number(v),
            false,
            MemoryOrder::Unordered,
            Some(true),
        );
    }
    let whole = clone_array_buffer(&mut agent, src, 0, 4).unwrap();
    assert_ne!(whole, src);
    let part = clone_array_buffer(&mut agent, src, 1, 2).unwrap();
    let bytes = |agent: &Agent, b: nova_vm::value::ArrayBuffer| {
        agent.heap.array_buffers[b.0 as usize]
            .as_ref()
            .unwrap()
            .get_data_block()
            .bytes
            .clone()
    };
    assert_eq!(bytes(&agent, whole), vec![1, 2, 3, 4]);
    assert_eq!(bytes(&agent, part), vec![2, 3]);
    assert_eq!(bytes(&agent, src), vec![1, 2, 3, 4]);
    assert!(is_fixed_length_array_buffer(&agent, whole));
}

#[test]
fn host_leaves_resizing_to_the_runtime() {
    let mut agent = fresh_agent();
    let buf = allocate_array_buffer(&mut agent, 4, Some(8)).unwrap();
    assert!(!host_resize_array_buffer(&mut agent, buf, 6));
    let data = agent.heap.array_buffers[buf.0 as usize].as_mut().unwrap();
    data.resize(6);
    assert_eq!(data.byte_length(), 6);
    data.resize(2);
    assert_eq!(data.get_data_block().bytes, vec![0, 0]);
}

#[test]
fn element_type_classes() {
    assert!(is_unsigned_element_type(ElementType::Uint8Clamped));
    assert!(!is_unsigned_element_type(ElementType::Int32));
    assert!(is_unclamped_integer_element_type(ElementType::Int32));
    assert!(!is_unclamped_integer_element_type(ElementType::Uint8Clamped));
    assert!(!is_unclamped_integer_element_type(ElementType::BigInt64));
    assert!(is_big_int_element_type(ElementType::BigUint64));
    assert!(is_no_tear_configuration(ElementType::Int8, MemoryOrder::Unordered));
    assert!(is_no_tear_configuration(ElementType::BigInt64, MemoryOrder::SeqCst));
    assert!(!is_no_tear_configuration(ElementType::BigInt64, MemoryOrder::Init));
    assert!(!is_no_tear_configuration(ElementType::Uint8Clamped, MemoryOrder::SeqCst));
}

#[test]
fn packed_lengths_and_offsets() {
    assert_eq!(ViewedArrayBufferByteLength::value(5).0, 5);
    assert_eq!(ViewedArrayBufferByteLength::auto().0, u32::MAX);
    assert_eq!(ViewedArrayBufferByteLength::heap().0, u32::MAX - 1);
    assert_eq!(ViewedArrayBufferByteLength::default(), ViewedArrayBufferByteLength::auto());
    assert!(ViewedArrayBufferByteLength::heap().is_overflowing());
    assert!(!ViewedArrayBufferByteLength::auto().is_overflowing());
    assert_eq!(ViewedArrayBufferByteLength::from_usize(7).0, 7);
    assert_eq!(
        ViewedArrayBufferByteLength::from_usize(u32::MAX as usize - 1),
        ViewedArrayBufferByteLength::heap()
    );
    assert_eq!(
        ViewedArrayBufferByteLength::from_option(None),
        ViewedArrayBufferByteLength::auto()
    );
    assert_eq!(ViewedArrayBufferByteLength::from_option(Some(3)).0, 3);
    assert_eq!(ViewedArrayBufferByteOffset::default().0, 0);
    assert_eq!(ViewedArrayBufferByteOffset::from_usize(9).0, 9);
    assert!(ViewedArrayBufferByteOffset::from_usize(u32::MAX as usize).is_overflowing());
    assert!(!ViewedArrayBufferByteOffset::value(1).is_overflowing());
}

#[test]
fn data_block_copies_and_bounds() {
    let mut a = DataBlock::create_byte_data_block(4).unwrap();
    let b = DataBlock { bytes: vec![9, 8, 7], detached: false };
    a.copy_data_block_bytes(1, &b, 1, 2);
    assert_eq!(a.bytes, vec![0, 8, 7, 0]);
    assert_eq!(a.get_offset_by_byte(1, 2), Some(vec![8, 7]));
    assert_eq!(a.get_offset_by_byte(3, 2), None);
    a.set_offset_by_byte(3, &vec![1, 2]);
    assert_eq!(a.bytes, vec![0, 8, 7, 0]);
    assert!(DataBlock::detached_data_block().is_detached());
    assert_eq!(DataBlock::detached_data_block().len(), 0);
}

#[test]
fn byte_order_is_read_off_the_bytes_of_one() {
    assert!(is_low_byte_first([1, 0]));
    assert!(!is_low_byte_first([0, 1]));
    assert_eq!(host_is_little_endian(), 1u16.to_ne_bytes() == 1u16.to_le_bytes());
    assert_eq!(host_is_little_endian(), is_low_byte_first(1u16.to_ne_bytes()));
}
