//! Array buffers: the stored record, the packed lengths and offsets of
//! views, and the abstract operations on buffers.

use crate::data_block::{
    numeric_to_raw_bytes, raw_bytes_to_numeric, spec_numeric_to_raw_bytes,
    spec_raw_bytes_to_int, written, zeros, DataBlock, ElementType, Numeric, MAX_BYTE_LENGTH,
};
use crate::heap::Agent;
use crate::object::{object_ready, object_try_get, spec_object_get, spec_to_object};
use crate::value::{
    is_try_outcome, ArrayBuffer, ExceptionType, JsError, Object, OrdinaryObject, Outcome,
    PropertyKey, TryResult, Value,
};
use vstd::prelude::*;

verus! {

/// Byte length of a view on a buffer, packed into 32 bits:
/// `u32::MAX` stands for a length that follows the buffer, `u32::MAX - 1`
/// for a length that is kept in a side table of the heap.
#[derive(Debug, Clone, Copy, Eq, PartialEq, Structural)]
pub struct ViewedArrayBufferByteLength(pub u32);

impl ViewedArrayBufferByteLength {
    /// Whether the byte length is kept in the side table of the heap.
    pub fn is_overflowing(self) -> (r: bool)
        ensures
            r == (self.0 == u32::MAX - 1),
    {
        self.0 == Self::heap().0
    }

    /// The packed form of `value`.
    pub fn value(value: u32) -> (r: Self)
        ensures
            r.0 == value,
    {
        Self(value)
    }

    /// The mark of a length that is kept in the side table of the heap.
    pub fn heap() -> (r: Self)
        ensures
            r.0 == u32::MAX - 1,
    {
        Self(u32::MAX - 1)
    }

    /// The mark of a length that follows the length of the buffer.
    pub fn auto() -> (r: Self)
        ensures
            r.0 == u32::MAX,
    {
        Self(u32::MAX)
    }

    /// The packed form of a byte length.
    pub open spec fn spec_from_usize(value: usize) -> Self {
        if value >= u32::MAX - 1 {
            Self(0xFFFF_FFFEu32)
        } else {
            Self(value as u32)
        }
    }

    /// The packed form of `value`: the length itself when it is below both
    /// marks, the mark of the side table otherwise.
    pub fn from_usize(value: usize) -> (r: Self)
        ensures
            r == Self::spec_from_usize(value),
            !r.spec_is_auto(),
    {
        if value >= 0xFFFF_FFFE {
            Self::heap()
        } else {
            Self::value(value as u32)
        }
    }

    /// Whether the length follows the length of the buffer.
    pub open spec fn spec_is_auto(self) -> bool {
        self.0 == u32::MAX
    }

    /// The packed form of an optional byte length: no length is `auto`.
    pub fn from_option(value: Option<usize>) -> (r: Self)
        ensures
            r == match value {
                Some(v) => Self::spec_from_usize(v),
                None => Self(u32::MAX),
            },
    {
        match value {
            Some(value) => Self::from_usize(value),
            None => Self::auto(),
        }
    }
}

impl Default for ViewedArrayBufferByteLength {
    fn default() -> (r: Self)
        ensures
            r.0 == u32::MAX,
    {
        Self::auto()
    }
}

/// Byte offset of a view on a buffer, packed into 32 bits: `u32::MAX`
/// stands for an offset that is kept in a side table of the heap.
#[derive(Debug, Clone, Copy, Eq, PartialEq, Structural)]
pub struct ViewedArrayBufferByteOffset(pub u32);

impl ViewedArrayBufferByteOffset {
    /// The packed form of `value`.
    pub fn value(value: u32) -> (r: Self)
        ensures
            r.0 == value,
    {
        Self(value)
    }

    /// Whether the byte offset is kept in the side table of the heap.
    pub fn is_overflowing(self) -> (r: bool)
        ensures
            r == (self.0 == u32::MAX),
    {
        self.0 == Self::heap().0
    }

    /// The mark of an offset that is kept in the side table of the heap.
    pub fn heap() -> (r: Self)
        ensures
            r.0 == u32::MAX,
    {
        Self(u32::MAX)
    }

    /// The packed form of a byte offset.
    pub open spec fn spec_from_usize(value: usize) -> Self {
        if value >= u32::MAX {
            Self(u32::MAX)
        } else {
            Self(value as u32)
        }
    }

    /// The packed form of `value`: the offset itself when it is below the
    /// mark, the mark otherwise.
    pub fn from_usize(value: usize) -> (r: Self)
        ensures
            r == Self::spec_from_usize(value),
    {
        if value >= 0xFFFF_FFFF {
            Self::heap()
        } else {
            Self::value(value as u32)
        }
    }
}

impl Default for ViewedArrayBufferByteOffset {
    fn default() -> (r: Self)
        ensures
            r.0 == 0,
    {
        Self::value(0)
    }
}

/// A data block with the capacity of a resizable buffer, or `usize::MAX`
/// for a buffer of fixed length.
#[derive(Debug)]
pub struct InternalBuffer {
    pub data_block: DataBlock,
    pub capacity: usize,
}

impl InternalBuffer {
    /// The data block of a buffer that is not detached.
    pub fn get_data_block(&self) -> (r: &DataBlock)
        requires
            !self.data_block.detached,
        ensures
            *r == self.data_block,
    {
        &self.data_block
    }

    /// The data block of a buffer that is not detached, for writing.
    pub fn get_data_block_mut(&mut self) -> (r: &mut DataBlock)
        requires
            !old(self).data_block.detached,
        ensures
            *r == old(self).data_block,
            final(self).data_block == *final(r),
            final(self).capacity == old(self).capacity,
    {
        &mut self.data_block
    }

    /// Releases the bytes: the block becomes the detached sentinel and
    /// the capacity zero.
    pub fn detach(&mut self)
        ensures
            final(self).capacity == 0,
            final(self).data_block.detached,
            final(self).data_block@.len() == 0,
            final(self).data_block.wf(),
    {
        self.capacity = 0;
        self.data_block = DataBlock::detached_data_block();
    }

    /// A detached buffer of fixed length.
    pub fn detached() -> (r: Self)
        ensures
            r.data_block.detached,
            r.data_block.wf(),
            r.capacity == usize::MAX,
    {
        Self { data_block: DataBlock::detached_data_block(), capacity: usize::MAX }
    }

    /// A buffer of fixed length over `data_block`.
    pub fn fixed_length(data_block: DataBlock) -> (r: Self)
        ensures
            r.data_block == data_block,
            r.capacity == usize::MAX,
    {
        Self { data_block, capacity: usize::MAX }
    }

    /// A resizable buffer over `data_block` that may grow to `capacity`
    /// bytes.
    pub fn resizable(data_block: DataBlock, capacity: usize) -> (r: Self)
        requires
            capacity != usize::MAX,
        ensures
            r.data_block == data_block,
            r.capacity == capacity,
    {
        Self { data_block, capacity }
    }
}

/// The stored record of an array buffer.
#[derive(Debug)]
pub struct ArrayBufferHeapData {
    pub object_index: Option<OrdinaryObject>,
    pub buffer: InternalBuffer,
    pub detach_key: Option<DetachKey>,
}

impl Default for ArrayBufferHeapData {
    fn default() -> (r: Self)
        ensures
            r.object_index is None,
            r.spec_is_detached(),
            r.wf(),
    {
        Self { object_index: None, buffer: InternalBuffer::detached(), detach_key: None }
    }
}

impl ArrayBufferHeapData {
    /// The bytes of the buffer.
    pub open spec fn view(self) -> Seq<u8> {
        self.buffer.data_block@
    }

    /// The detached sentinel holds no bytes.
    pub open spec fn wf(self) -> bool {
        self.buffer.data_block.wf()
    }

    /// Whether the buffer is detached.
    pub open spec fn spec_is_detached(self) -> bool {
        self.buffer.data_block.detached
    }

    /// Whether the buffer is resizable: its capacity is not the mark of a
    /// fixed length.
    pub open spec fn spec_is_resizable(self) -> bool {
        self.buffer.capacity != usize::MAX
    }

    /// Length of the buffer in bytes; zero when it is detached.
    pub open spec fn spec_byte_length(self) -> nat {
        self.buffer.data_block@.len()
    }

    /// The length that the buffer may grow to: zero when it is detached, the
    /// capacity when it is resizable, the length otherwise.
    pub open spec fn spec_max_byte_length(self) -> nat {
        if self.spec_is_detached() {
            0
        } else if self.spec_is_resizable() {
            self.buffer.capacity as nat
        } else {
            self.buffer.data_block@.len()
        }
    }

    /// The record of a resizable buffer over `db` that may grow to `cap`
    /// bytes.
    pub fn new_resizable(db: DataBlock, cap: usize) -> (r: Self)
        requires
            cap != usize::MAX,
        ensures
            r.object_index is None,
            r.detach_key is None,
            r.buffer.data_block == db,
            r.buffer.capacity == cap,
    {
        Self { object_index: None, buffer: InternalBuffer::resizable(db, cap), detach_key: None }
    }

    /// The record of a buffer of fixed length over `db`.
    pub fn new_fixed_length(db: DataBlock) -> (r: Self)
        ensures
            r.object_index is None,
            r.detach_key is None,
            r.buffer.data_block == db,
            r.buffer.capacity == usize::MAX,
    {
        Self { object_index: None, buffer: InternalBuffer::fixed_length(db), detach_key: None }
    }

    /// The data block of the buffer.
    pub fn get_data_block(&self) -> (r: &DataBlock)
        ensures
            *r == self.buffer.data_block,
    {
        &self.buffer.data_block
    }

    /// The data block of the buffer, for writing.
    pub fn get_data_block_mut(&mut self) -> (r: &mut DataBlock)
        ensures
            *r == old(self).buffer.data_block,
            final(self).buffer.data_block == *final(r),
            final(self).buffer.capacity == old(self).buffer.capacity,
            final(self).object_index == old(self).object_index,
            final(self).detach_key == old(self).detach_key,
    {
        &mut self.buffer.data_block
    }

    /// Whether the buffer is detached.
    pub fn is_detached(&self) -> (r: bool)
        ensures
            r == self.spec_is_detached(),
    {
        self.buffer.data_block.is_detached()
    }

    /// Whether the buffer is resizable.
    pub fn is_resizable(&self) -> (r: bool)
        ensures
            r == self.spec_is_resizable(),
    {
        self.buffer.capacity != usize::MAX
    }

    /// Length of the buffer in bytes; zero when it is detached.
    pub fn byte_length(&self) -> (r: usize)
        requires
            self.wf(),
        ensures
            r == self.spec_byte_length(),
            self.spec_is_detached() ==> r == 0,
    {
        if self.is_detached() {
            0
        } else {
            self.buffer.data_block.len()
        }
    }

    /// The length that the buffer may grow to: zero when it is detached,
    /// the capacity when it is resizable, the length otherwise.
    pub fn max_byte_length(&self) -> (r: usize)
        ensures
            r == self.spec_max_byte_length(),
    {
        if self.is_detached() {
            0
        } else if self.is_resizable() {
            self.buffer.capacity
        } else {
            self.buffer.data_block.len()
        }
    }

    /// Changes the length of a resizable buffer that is not detached.
    pub fn resize(&mut self, new_byte_length: usize)
        requires
            old(self).spec_is_resizable(),
            !old(self).spec_is_detached(),
        ensures
            final(self).buffer.capacity == old(self).buffer.capacity,
            final(self).object_index == old(self).object_index,
            final(self).detach_key == old(self).detach_key,
            !final(self).spec_is_detached(),
            final(self)@.len() == new_byte_length,
            forall|i: int|
                0 <= i < new_byte_length ==> final(self)@[i] == if i < old(self)@.len() {
                    old(self)@[i]
                } else {
                    0u8
                },
    {
        self.buffer.data_block.realloc(new_byte_length);
    }
}

/// The key that a buffer may be detached with. It has no content yet:
/// any two keys are the same key.
#[derive(Debug, Copy, Clone, Eq, PartialEq, PartialOrd, Ord, Structural)]
pub struct DetachKey {}

/// The orders of the memory model. On a buffer that is not shared each
/// of them is a plain access.
#[derive(Copy, Clone, Debug, Eq, PartialEq, Hash, Structural)]
pub enum MemoryOrder {
    Unordered,
    SeqCst,
    Init,
}

/// Whether creating a buffer of `byte_length` bytes, with the given
/// maximum, is refused.
pub open spec fn allocation_refused(byte_length: u64, max_byte_length: Option<u64>) -> bool {
    ||| (max_byte_length is Some && byte_length > max_byte_length->0)
    ||| byte_length > MAX_BYTE_LENGTH
}

/// Creates a buffer of `byte_length` zero bytes: resizable up to
/// `max_byte_length` when that is given, of fixed length otherwise. A
/// length above the maximum, or above `MAX_BYTE_LENGTH`, is a `RangeError`
/// and leaves the heap as it was.
pub fn allocate_array_buffer(
    agent: &mut Agent,
    byte_length: u64,
    max_byte_length: Option<u64>,
) -> (r: Result<ArrayBuffer, JsError>)
    requires
        old(agent).heap.array_buffers@.len() < u32::MAX,
        max_byte_length is Some ==> max_byte_length->0 < usize::MAX,
    ensures
        r is Err <==> allocation_refused(byte_length, max_byte_length),
        r is Err ==> *final(agent) == *old(agent) && r->Err_0.kind == ExceptionType::RangeError,
        r is Err ==> r->Err_0.message@ == if max_byte_length is Some && byte_length
            > max_byte_length->0 {
            "Byte length is over maximumm byte length"@
        } else {
            "Byte length is too large"@
        },
        r is Ok ==> {
            let b = r->Ok_0;
            let data = final(agent).heap.array_buffer(b);
            &&& b.0 == old(agent).heap.array_buffers@.len()
            &&& final(agent).heap.array_buffers@ == old(agent).heap.array_buffers@.push(Some(data))
            &&& final(agent).heap.same_but_array_buffers(old(agent).heap)
            &&& final(agent).heap.alloc_counter == crate::heap::counted(
                old(agent).heap.alloc_counter,
            )
            &&& final(agent).intrinsics == old(agent).intrinsics
            &&& final(agent).global_object == old(agent).global_object
            &&& final(agent).heap.has_array_buffer(b)
            &&& data@ == zeros(byte_length as nat)
            &&& !data.spec_is_detached()
            &&& data.wf()
            &&& data.object_index is None
            &&& data.detach_key is None
            &&& data.spec_is_resizable() == max_byte_length is Some
            &&& (max_byte_length is Some ==> data.buffer.capacity == max_byte_length->0)
        },
{
    let allocating_resizable_buffer = max_byte_length.is_some();
    match max_byte_length {
        Some(max) => {
            if byte_length > max {
                return Err(
                    agent.throw_exception_with_static_message(
                        ExceptionType::RangeError,
                        "Byte length is over maximumm byte length",
                    ),
                );
            }
        },
        None => {},
    }
    if byte_length > MAX_BYTE_LENGTH {
        return Err(
            agent.throw_exception_with_static_message(
                ExceptionType::RangeError,
                "Byte length is too large",
            ),
        );
    }
    let block = match DataBlock::create_byte_data_block(byte_length) {
        Some(block) => block,
        None => {
            return Err(
                agent.throw_exception_with_static_message(
                    ExceptionType::RangeError,
                    "Byte length is too large",
                ),
            );
        },
    };
    let obj = match max_byte_length {
        Some(max) => ArrayBufferHeapData::new_resizable(block, max as usize),
        None => ArrayBufferHeapData::new_fixed_length(block),
    };
    Ok(agent.heap.create_array_buffer(obj))
}

/// Length in bytes of a buffer that is not detached.
pub fn array_buffer_byte_length(agent: &Agent, array_buffer: ArrayBuffer, order: MemoryOrder) -> (r:
    usize)
    requires
        agent.heap.has_array_buffer(array_buffer),
        !agent.heap.array_buffer(array_buffer).spec_is_detached(),
    ensures
        r == agent.heap.array_buffer(array_buffer)@.len(),
{
    match &agent.heap.array_buffers[array_buffer.0 as usize] {
        Some(data) => data.buffer.data_block.len(),
        None => 0,
    }
}

/// Whether the buffer is detached.
pub fn is_detached_buffer(agent: &Agent, array_buffer: ArrayBuffer) -> (r: bool)
    requires
        agent.heap.has_array_buffer(array_buffer),
    ensures
        r == agent.heap.array_buffer(array_buffer).spec_is_detached(),
{
    match &agent.heap.array_buffers[array_buffer.0 as usize] {
        Some(data) => data.is_detached(),
        None => true,
    }
}

/// Whether the buffer has a fixed length.
pub fn is_fixed_length_array_buffer(agent: &Agent, array_buffer: ArrayBuffer) -> (r: bool)
    requires
        agent.heap.has_array_buffer(array_buffer),
    ensures
        r == !agent.heap.array_buffer(array_buffer).spec_is_resizable(),
{
    match &agent.heap.array_buffers[array_buffer.0 as usize] {
        Some(data) => !data.is_resizable(),
        None => true,
    }
}

/// Detaches the buffer when `key` is the key it is kept under: its bytes
/// are released and its length becomes zero. Another key is a `TypeError`
/// and leaves the buffer as it was.
pub fn detach_array_buffer(
    agent: &mut Agent,
    array_buffer: ArrayBuffer,
    key: Option<DetachKey>,
) -> (r:
    Result<(), JsError>)
    requires
        old(agent).heap.has_array_buffer(array_buffer),
    ensures
        r is Err <==> old(agent).heap.array_buffer(array_buffer).detach_key != key,
        r is Err ==> *final(agent) == *old(agent) && r->Err_0.kind == ExceptionType::TypeError
            && r->Err_0.message@ == "Mismatching array buffer detach keys"@,
        r is Ok ==> {
            let data = final(agent).heap.array_buffer(array_buffer);
            &&& final(agent).heap.has_array_buffer(array_buffer)
            &&& data.spec_is_detached()
            &&& data@.len() == 0
            &&& data.wf()
            &&& data.buffer.capacity == 0
            &&& data.object_index == old(agent).heap.array_buffer(array_buffer).object_index
            &&& data.detach_key == key
            &&& final(agent).heap.array_buffers@ == old(agent).heap.array_buffers@.update(
                array_buffer.0 as int,
                Some(data),
            )
            &&& final(agent).heap.same_but_array_buffers(old(agent).heap)
        },
{
    let stored = match &agent.heap.array_buffers[array_buffer.0 as usize] {
        Some(data) => data.detach_key,
        None => None,
    };
    let same_key = match (stored, key) {
        (None, None) => true,
        (Some(a), Some(b)) => {
            proof {
                assert(a == b);
            }
            true
        },
        _ => false,
    };
    if !same_key {
        return Err(
            agent.throw_exception_with_static_message(
                ExceptionType::TypeError,
                "Mismatching array buffer detach keys",
            ),
        );
    }
    match &mut agent.heap.array_buffers[array_buffer.0 as usize] {
        Some(data) => {
            data.buffer.detach();
        },
        None => {},
    }
    proof {
        assert(final(agent).heap.array_buffers@ =~= old(agent).heap.array_buffers@.update(
            array_buffer.0 as int,
            Some(final(agent).heap.array_buffer(array_buffer)),
        ));
    }
    Ok(())
}

/// Puts the buffer under the key `key`: only that key detaches it.
pub fn set_detach_key(agent: &mut Agent, array_buffer: ArrayBuffer, key: Option<DetachKey>)
    requires
        old(agent).heap.has_array_buffer(array_buffer),
    ensures
        final(agent).heap.has_array_buffer(array_buffer),
        final(agent).heap.array_buffer(array_buffer).detach_key == key,
        final(agent).heap.array_buffer(array_buffer).buffer == old(agent).heap.array_buffer(
            array_buffer,
        ).buffer,
        final(agent).heap.array_buffer(array_buffer).object_index == old(agent).heap.array_buffer(
            array_buffer,
        ).object_index,
        final(agent).heap.array_buffers@.len() == old(agent).heap.array_buffers@.len(),
        forall|i: int|
            0 <= i < old(agent).heap.array_buffers@.len() && i != array_buffer.0
                ==> final(agent).heap.array_buffers@[i] == old(agent).heap.array_buffers@[i],
        final(agent).heap.same_but_array_buffers(old(agent).heap),
{
    match &mut agent.heap.array_buffers[array_buffer.0 as usize] {
        Some(data) => {
            data.detach_key = key;
        },
        None => {},
    }
}

/// Creates a buffer of fixed length that holds a copy of the
/// `src_length` bytes of `src_buffer` from `src_byte_offset` on. The new
/// buffer is another buffer than `src_buffer`, which stays as it was. A
/// length above `MAX_BYTE_LENGTH` is a `RangeError`.
pub fn clone_array_buffer(
    agent: &mut Agent,
    src_buffer: ArrayBuffer,
    src_byte_offset: usize,
    src_length: usize,
) -> (r: Result<ArrayBuffer, JsError>)
    requires
        old(agent).heap.has_array_buffer(src_buffer),
        !old(agent).heap.array_buffer(src_buffer).spec_is_detached(),
        src_byte_offset + src_length <= old(agent).heap.array_buffer(src_buffer)@.len(),
        old(agent).heap.array_buffers@.len() < u32::MAX,
    ensures
        r is Err <==> src_length > MAX_BYTE_LENGTH,
        r is Err ==> *final(agent) == *old(agent) && r->Err_0.kind == ExceptionType::RangeError
            && r->Err_0.message@ == "Byte length is too large"@,
        r is Ok ==> {
            let b = r->Ok_0;
            let data = final(agent).heap.array_buffer(b);
            let src = old(agent).heap.array_buffer(src_buffer);
            &&& b != src_buffer
            &&& b.0 == old(agent).heap.array_buffers@.len()
            &&& final(agent).heap.array_buffers@ == old(agent).heap.array_buffers@.push(Some(data))
            &&& final(agent).heap.has_array_buffer(b)
            &&& final(agent).heap.has_array_buffer(src_buffer)
            &&& final(agent).heap.array_buffer(src_buffer) == src
            &&& data@ == src@.subrange(src_byte_offset as int, src_byte_offset + src_length)
            &&& data@.len() == src_length
            &&& (src_byte_offset == 0 && src_length == src@.len() ==> data@ == src@)
            &&& !data.spec_is_detached()
            &&& !data.spec_is_resizable()
            &&& data.wf()
            &&& data.object_index is None
            &&& data.detach_key is None
            &&& final(agent).heap.same_but_array_buffers(old(agent).heap)
        },
{
    if src_length as u64 > MAX_BYTE_LENGTH {
        return Err(
            agent.throw_exception_with_static_message(
                ExceptionType::RangeError,
                "Byte length is too large",
            ),
        );
    }
    let copy: Vec<u8> = match &agent.heap.array_buffers[src_buffer.0 as usize] {
        Some(src) => {
            let src_block = src.get_data_block();
            match src_block.get_offset_by_byte(src_byte_offset, src_length) {
                Some(bytes) => bytes,
                None => Vec::new(),
            }
        },
        None => Vec::new(),
    };
    let ghost src = agent.heap.array_buffer(src_buffer);
    let target_block = DataBlock { bytes: copy, detached: false };
    let obj = ArrayBufferHeapData::new_fixed_length(target_block);
    let target_buffer = agent.heap.create_array_buffer(obj);
    proof {
        if src_byte_offset == 0 && src_length == src@.len() {
            assert(src@.subrange(0, src_length as int) =~= src@);
        }
    }
    Ok(target_buffer)
}

/// The part of the host in a resize: the host of this runtime leaves
/// every resize to the runtime, and says so by `false`.
pub fn host_resize_array_buffer(agent: &mut Agent, buffer: ArrayBuffer, new_byte_length: u64) -> (r:
    bool)
    ensures
        !r,
        *final(agent) == *old(agent),
{
    false
}

/// Whether an access of an element of type `ty` in the order `order`
/// may not tear.
pub fn is_no_tear_configuration(ty: ElementType, order: MemoryOrder) -> (r: bool)
    ensures
        r == (ty.spec_is_unclamped_integer() || (ty.spec_is_big_int() && order
            == MemoryOrder::SeqCst)),
{
    if crate::data_block::is_unclamped_integer_element_type(ty)
        || crate::data_block::is_big_int_element_type(ty) && !matches!(
        order,
        MemoryOrder::Init | MemoryOrder::Unordered
    ) {
        true
    } else {
        false
    }
}

/// `u16::to_ne_bytes`: the two bytes of `x` in the byte order of the
/// machine. Nothing is claimed of that order.
#[verifier::external_body]
fn native_bytes(x: u16) -> (r: [u8; 2]) {
    x.to_ne_bytes()
}

/// Whether the machine stores the least significant byte first. The
/// answer is that of the machine: it is read off the bytes in which the
/// machine stores the number one.
pub fn host_is_little_endian() -> (r: bool) {
    let b = native_bytes(1);
    is_low_byte_first(b)
}

/// Whether `bytes`, the two bytes in which a machine stores the number
/// one, have the least significant byte first: the first byte is then
/// the one, and the second the zero.
pub fn is_low_byte_first(bytes: [u8; 2]) -> (r: bool)
    ensures
        r == (bytes@[0] == 1),
{
    bytes[0] == 1
}

/// The value of type `ty` that the bytes of `block` from `byte_index` on
/// hold.
pub open spec fn spec_get_value(block: Seq<u8>, byte_index: int, ty: ElementType, le: bool) -> int {
    spec_raw_bytes_to_int(ty, block.subrange(byte_index, byte_index + ty.spec_size()), le)
}

/// `block` after `value` has been written as an element of type `ty`
/// from `byte_index` on.
pub open spec fn spec_set_value(
    block: Seq<u8>,
    byte_index: int,
    ty: ElementType,
    value: int,
    le: bool,
) -> Seq<u8> {
    written(block, byte_index, spec_numeric_to_raw_bytes(ty, value, le))
}

/// Reads the element of type `ty` at `byte_index`, in the given byte
/// order.
pub fn get_value_from_buffer_in_order(
    agent: &Agent,
    array_buffer: ArrayBuffer,
    byte_index: usize,
    ty: ElementType,
    is_little_endian: bool,
) -> (r: Numeric)
    requires
        agent.heap.has_array_buffer(array_buffer),
        !agent.heap.array_buffer(array_buffer).spec_is_detached(),
        byte_index + ty.spec_size() <= agent.heap.array_buffer(array_buffer)@.len(),
    ensures
        r == ty.numeric(
            spec_get_value(
                agent.heap.array_buffer(array_buffer)@,
                byte_index as int,
                ty,
                is_little_endian,
            ),
        ),
        r.int_value() == spec_get_value(
            agent.heap.array_buffer(array_buffer)@,
            byte_index as int,
            ty,
            is_little_endian,
        ),
{
    let raw: Vec<u8> = match &agent.heap.array_buffers[array_buffer.0 as usize] {
        Some(data) => {
            let block = data.get_data_block();
            match block.get_offset_by_byte(byte_index, ty.size()) {
                Some(raw) => raw,
                None => Vec::new(),
            }
        },
        None => Vec::new(),
    };
    raw_bytes_to_numeric(ty, &raw, is_little_endian)
}

/// Reads the element of type `ty` at `byte_index`. Without a byte order
/// the order of the machine is taken.
pub fn get_value_from_buffer(
    agent: &Agent,
    array_buffer: ArrayBuffer,
    byte_index: usize,
    ty: ElementType,
    is_typed_array: bool,
    order: MemoryOrder,
    is_little_endian: Option<bool>,
) -> (r: Numeric)
    requires
        agent.heap.has_array_buffer(array_buffer),
        !agent.heap.array_buffer(array_buffer).spec_is_detached(),
        byte_index + ty.spec_size() <= agent.heap.array_buffer(array_buffer)@.len(),
    ensures
        exists|le: bool|
            (is_little_endian is Some ==> le == is_little_endian->0) && r == ty.numeric(
                #[trigger] spec_get_value(
                    agent.heap.array_buffer(array_buffer)@,
                    byte_index as int,
                    ty,
                    le,
                ),
            ),
        is_little_endian is Some ==> r == ty.numeric(
            spec_get_value(
                agent.heap.array_buffer(array_buffer)@,
                byte_index as int,
                ty,
                is_little_endian->0,
            ),
        ),
{
    let is_little_endian = match is_little_endian {
        Some(le) => le,
        None => host_is_little_endian(),
    };
    get_value_from_buffer_in_order(agent, array_buffer, byte_index, ty, is_little_endian)
}

/// Whether `after` is `before` with the bytes of the buffer `b` replaced
/// by `bytes` and nothing else changed.
pub open spec fn buffer_bytes_replaced(
    before: Agent,
    after: Agent,
    b: ArrayBuffer,
    bytes: Seq<u8>,
) -> bool {
    &&& after.heap.has_array_buffer(b)
    &&& after.heap.array_buffer(b)@ == bytes
    &&& after.heap.array_buffer(b).spec_is_detached() == before.heap.array_buffer(
        b,
    ).spec_is_detached()
    &&& after.heap.array_buffer(b).buffer.capacity == before.heap.array_buffer(b).buffer.capacity
    &&& after.heap.array_buffer(b).object_index == before.heap.array_buffer(b).object_index
    &&& after.heap.array_buffer(b).detach_key == before.heap.array_buffer(b).detach_key
    &&& after.heap.array_buffers@.len() == before.heap.array_buffers@.len()
    &&& forall|i: int|
        0 <= i < before.heap.array_buffers@.len() && i != b.0 ==> after.heap.array_buffers@[i]
            == before.heap.array_buffers@[i]
    &&& after.heap.same_but_array_buffers(before.heap)
    &&& after.intrinsics == before.intrinsics
    &&& after.global_object == before.global_object
}

/// Writes `value` as an element of type `ty` at `byte_index`, in the
/// given byte order.
pub fn set_value_in_buffer_in_order(
    agent: &mut Agent,
    array_buffer: ArrayBuffer,
    byte_index: usize,
    ty: ElementType,
    value: Numeric,
    is_little_endian: bool,
)
    requires
        old(agent).heap.has_array_buffer(array_buffer),
        !old(agent).heap.array_buffer(array_buffer).spec_is_detached(),
        byte_index + ty.spec_size() <= old(agent).heap.array_buffer(array_buffer)@.len(),
    ensures
        buffer_bytes_replaced(
            *old(agent),
            *final(agent),
            array_buffer,
            spec_set_value(
                old(agent).heap.array_buffer(array_buffer)@,
                byte_index as int,
                ty,
                value.int_value(),
                is_little_endian,
            ),
        ),
{
    let raw_bytes = numeric_to_raw_bytes(ty, value, is_little_endian);
    match &mut agent.heap.array_buffers[array_buffer.0 as usize] {
        Some(data) => {
            let block = data.get_data_block_mut();
            block.set_offset_by_byte(byte_index, &raw_bytes);
        },
        None => {},
    }
}

/// Writes `value` as an element of type `ty` at `byte_index`. Without a
/// byte order the order of the machine is taken.
pub fn set_value_in_buffer(
    agent: &mut Agent,
    array_buffer: ArrayBuffer,
    byte_index: usize,
    ty: ElementType,
    value: Numeric,
    is_typed_array: bool,
    order: MemoryOrder,
    is_little_endian: Option<bool>,
)
    requires
        old(agent).heap.has_array_buffer(array_buffer),
        !old(agent).heap.array_buffer(array_buffer).spec_is_detached(),
        byte_index + ty.spec_size() <= old(agent).heap.array_buffer(array_buffer)@.len(),
    ensures
        exists|le: bool|
            (is_little_endian is Some ==> le == is_little_endian->0) && buffer_bytes_replaced(
                *old(agent),
                *final(agent),
                array_buffer,
                #[trigger] spec_set_value(
                    old(agent).heap.array_buffer(array_buffer)@,
                    byte_index as int,
                    ty,
                    value.int_value(),
                    le,
                ),
            ),
        is_little_endian is Some ==> buffer_bytes_replaced(
            *old(agent),
            *final(agent),
            array_buffer,
            spec_set_value(
                old(agent).heap.array_buffer(array_buffer)@,
                byte_index as int,
                ty,
                value.int_value(),
                is_little_endian->0,
            ),
        ),
{
    let is_little_endian = match is_little_endian {
        Some(le) => le,
        None => host_is_little_endian(),
    };
    set_value_in_buffer_in_order(agent, array_buffer, byte_index, ty, value, is_little_endian);
}

/// A read of an element after a write of `value` at the same place, with
/// the same type and byte order, gives `value` wrapped into the range of
/// the type, and the write changes no byte outside the element.
pub proof fn lemma_get_after_set(
    block: Seq<u8>,
    byte_index: int,
    ty: ElementType,
    value: int,
    le: bool,
)
    requires
        0 <= byte_index,
        byte_index + ty.spec_size() <= block.len(),
    ensures
        spec_get_value(spec_set_value(block, byte_index, ty, value, le), byte_index, ty, le)
            == ty.wrapped(value),
        spec_set_value(block, byte_index, ty, value, le).len() == block.len(),
        forall|i: int|
            0 <= i < block.len() && !(byte_index <= i < byte_index + ty.spec_size())
                ==> spec_set_value(block, byte_index, ty, value, le)[i] == block[i],
{
    let raw = spec_numeric_to_raw_bytes(ty, value, le);
    crate::data_block::lemma_raw_bytes_round_trip(ty, value, le);
    let after = spec_set_value(block, byte_index, ty, value, le);
    assert(after.subrange(byte_index, byte_index + ty.spec_size()) =~= raw);
}

/// Largest index: two to the power 53, less one.
pub const MAX_INDEX: i64 = 0x1F_FFFF_FFFF_FFFF;

/// The integer part of the number with the binary64 bit pattern `bits`,
/// when it is an index: a NaN and a number of magnitude below one count
/// as zero; `None` for a negative number of magnitude one or more, for a
/// number above the largest index and for an infinity.
pub open spec fn spec_float_to_index(bits: u64) -> Option<i64> {
    let exponent = (bits >> 52) & 0x7FF;
    let mantissa = bits & 0xF_FFFF_FFFF_FFFF;
    let negative = (bits >> 63) == 1;
    if exponent == 0x7FF {
        if mantissa != 0 {
            Some(0i64)
        } else {
            None
        }
    } else if exponent < 1023 {
        Some(0i64)
    } else if negative || exponent > 1075 {
        None
    } else {
        Some(((0x10_0000_0000_0000u64 | mantissa) >> ((1075 - exponent) as u64)) as i64)
    }
}

/// What the conversion of `value` to an index comes to: zero for
/// `undefined`, `null` and `false`, one for `true`, a number by its
/// integer part, which is a `RangeError` when it is no index; a
/// `TypeError` for a symbol and a big integer; `None` for a string and an
/// object, whose conversion is the work of the interpreter.
pub open spec fn spec_to_index(value: Value) -> Option<Outcome<i64>> {
    match value {
        Value::Undefined | Value::Null => Some(Outcome::Normal(0i64)),
        Value::Boolean(b) => Some(
            Outcome::Normal(
                if b {
                    1i64
                } else {
                    0i64
                },
            ),
        ),
        Value::Integer(n) => Some(
            if 0 <= n <= MAX_INDEX {
                Outcome::Normal(n)
            } else {
                Outcome::Throw(ExceptionType::RangeError)
            },
        ),
        Value::Float(bits) => Some(
            match spec_float_to_index(bits) {
                Some(n) => Outcome::Normal(n),
                None => Outcome::Throw(ExceptionType::RangeError),
            },
        ),
        Value::Symbol(_) | Value::SmallBigInt(_) => Some(Outcome::Throw(ExceptionType::TypeError)),
        _ => None,
    }
}

/// The integer part of the number with the bit pattern `bits`, when it
/// is an index.
pub fn float_to_index(bits: u64) -> (r: Option<i64>)
    ensures
        r == spec_float_to_index(bits),
        r is Some ==> 0 <= r->0 <= MAX_INDEX,
{
    let exponent: u64 = (bits >> 52) & 0x7FF;
    let mantissa: u64 = bits & 0xF_FFFF_FFFF_FFFF;
    let negative = (bits >> 63) == 1;
    if exponent == 0x7FF {
        if mantissa != 0 {
            Some(0)
        } else {
            None
        }
    } else if exponent < 1023 {
        Some(0)
    } else if negative || exponent > 1075 {
        None
    } else {
        assert(exponent <= 0x7FF) by (bit_vector)
            requires
                exponent == (bits >> 52) & 0x7FF,
        ;
        let shift: u64 = 1075 - exponent;
        let whole: u64 = (0x10_0000_0000_0000u64 | mantissa) >> shift;
        assert(whole <= 0x1F_FFFF_FFFF_FFFFu64) by (bit_vector)
            requires
                whole == (0x10_0000_0000_0000u64 | mantissa) >> shift,
                mantissa == bits & 0xF_FFFF_FFFF_FFFF,
                shift <= 52,
        ;
        Some(whole as i64)
    }
}

/// Converts `value` to an index without the help of the interpreter:
/// `Break` for a string and an object.
pub fn try_to_index(agent: &Agent, value: Value) -> (r: TryResult<Result<i64, JsError>>)
    ensures
        is_try_outcome(r, spec_to_index(value)),
        r is Continue && r->Continue_0 is Ok ==> 0 <= r->Continue_0->Ok_0 <= MAX_INDEX,
        r is Continue && r->Continue_0 is Err ==> r->Continue_0->Err_0.message@ == if value
            is Symbol || value is SmallBigInt {
            "Cannot convert the value to a number"@
        } else {
            "Index is out of range"@
        },
{
    match value {
        Value::Undefined | Value::Null => TryResult::Continue(Ok(0)),
        Value::Boolean(b) => TryResult::Continue(
            Ok(
                if b {
                    1
                } else {
                    0
                },
            ),
        ),
        Value::Integer(n) => {
            if 0 <= n && n <= MAX_INDEX {
                TryResult::Continue(Ok(n))
            } else {
                TryResult::Continue(
                    Err(
                        agent.throw_exception_with_static_message(
                            ExceptionType::RangeError,
                            "Index is out of range",
                        ),
                    ),
                )
            }
        },
        Value::Float(bits) => match float_to_index(bits) {
            Some(n) => TryResult::Continue(Ok(n)),
            None => TryResult::Continue(
                Err(
                    agent.throw_exception_with_static_message(
                        ExceptionType::RangeError,
                        "Index is out of range",
                    ),
                ),
            ),
        },
        Value::Symbol(_) | Value::SmallBigInt(_) => TryResult::Continue(
            Err(
                agent.throw_exception_with_static_message(
                    ExceptionType::TypeError,
                    "Cannot convert the value to a number",
                ),
            ),
        ),
        _ => TryResult::Break,
    }
}

/// What reading the greatest byte length out of `options` comes to,
/// where `key` is the key `maxByteLength`: nothing when `options` is no
/// object or has `undefined` under the key, the index that the value
/// under the key converts to otherwise; `None` where the read or the
/// conversion cannot go on without the interpreter.
pub open spec fn spec_max_byte_length_option(
    agent: Agent,
    options: Value,
    key: PropertyKey,
) -> Option<
    Outcome<Option<i64>>,
> {
    match spec_to_object(options) {
        None => Some(Outcome::Normal(None)),
        Some(o) => match spec_object_get(agent, o, key) {
            Outcome::Throw(_) => None,
            Outcome::Normal(v) => if v is Undefined {
                Some(Outcome::Normal(None))
            } else {
                match spec_to_index(v) {
                    Some(Outcome::Normal(n)) => Some(Outcome::Normal(Some(n))),
                    Some(Outcome::Throw(kind)) => Some(Outcome::Throw(kind)),
                    None => None,
                }
            },
        },
    }
}

/// Reads the greatest byte length out of the options of a buffer
/// constructor. `key` is the key `maxByteLength`, which the caller
/// keeps among its strings.
pub fn get_array_buffer_max_byte_length_option(
    agent: &Agent,
    options: Value,
    key: PropertyKey,
) -> (r:
    TryResult<Result<Option<i64>, JsError>>)
    requires
        spec_to_object(options) is Some ==> object_ready(agent.heap, spec_to_object(options)->0),
    ensures
        is_try_outcome(r, spec_max_byte_length_option(*agent, options, key)),
{
    let options = match Object::try_from(options) {
        Ok(options) => options,
        Err(_) => {
            return TryResult::Continue(Ok(None));
        },
    };
    let max_byte_length = match object_try_get(agent, options, key, options.into_value()) {
        TryResult::Continue(v) => v,
        TryResult::Break => {
            return TryResult::Break;
        },
    };
    if max_byte_length.is_undefined() {
        return TryResult::Continue(Ok(None));
    }
    match try_to_index(agent, max_byte_length) {
        TryResult::Continue(Ok(n)) => TryResult::Continue(Ok(Some(n))),
        TryResult::Continue(Err(e)) => TryResult::Continue(Err(e)),
        TryResult::Break => TryResult::Break,
    }
}

/// The modifications of a read-modify-write access.
#[derive(Copy, Clone, Debug, Eq, PartialEq, Structural)]
pub enum ModifyOp {
    Add,
    And,
    Exchange,
    Or,
    Sub,
    Xor,
}

/// The bytes of `a` and `b`, which are equally long, combined byte by
/// byte as the bitwise operation `op` says.
pub open spec fn spec_bitwise(op: ModifyOp, a: Seq<u8>, b: Seq<u8>) -> Seq<u8> {
    Seq::new(
        a.len(),
        |i: int|
            match op {
                ModifyOp::And => a[i] & b[i],
                ModifyOp::Or => a[i] | b[i],
                _ => a[i] ^ b[i],
            },
    )
}

/// The raw bytes that the modification `op` makes of the raw bytes
/// `read`, which the buffer held, and `given`, which the value has: the
/// given bytes for an exchange, the bytes combined bit by bit for a
/// bitwise operation, and the bytes of the sum or the difference of the
/// two elements, wrapped into the range of the type, for an addition or
/// a subtraction.
pub open spec fn spec_modify(
    op: ModifyOp,
    ty: ElementType,
    read: Seq<u8>,
    given: Seq<u8>,
    le: bool,
) -> Seq<u8> {
    match op {
        ModifyOp::Exchange => given,
        ModifyOp::Add => spec_numeric_to_raw_bytes(
            ty,
            spec_raw_bytes_to_int(ty, read, le) + spec_raw_bytes_to_int(ty, given, le),
            le,
        ),
        ModifyOp::Sub => spec_numeric_to_raw_bytes(
            ty,
            spec_raw_bytes_to_int(ty, read, le) - spec_raw_bytes_to_int(ty, given, le),
            le,
        ),
        _ => spec_bitwise(op, read, given),
    }
}

/// The raw bytes that the modification `op` makes of `read` and `given`.
pub fn modify_raw_bytes(
    op: ModifyOp,
    ty: ElementType,
    read: &Vec<u8>,
    given: &Vec<u8>,
    le: bool,
) -> (r:
    Vec<u8>)
    requires
        read@.len() == ty.spec_size(),
        given@.len() == ty.spec_size(),
        !(ty is Uint8Clamped),
    ensures
        r@ == spec_modify(op, ty, read@, given@, le),
        r@.len() == ty.spec_size(),
{
    match op {
        ModifyOp::Exchange => given.clone(),
        ModifyOp::Add | ModifyOp::Sub => {
            let a = raw_bytes_to_numeric(ty, read, le);
            let b = raw_bytes_to_numeric(ty, given, le);
            proof {
                ty.lemma_modulus();
                crate::data_block::lemma_le_value_bound(read@);
                crate::data_block::lemma_le_value_bound(read@.reverse());
                crate::data_block::lemma_le_value_bound(given@);
                crate::data_block::lemma_le_value_bound(given@.reverse());
            }
            let x: i128 = match a {
                Numeric::Number(v) => v as i128,
                Numeric::BigInt(v) => v,
            };
            let y: i128 = match b {
                Numeric::Number(v) => v as i128,
                Numeric::BigInt(v) => v,
            };
            let z: i128 = if matches!(op, ModifyOp::Add) {
                x + y
            } else {
                x - y
            };
            numeric_to_raw_bytes(ty, Numeric::BigInt(z), le)
        },
        _ => {
            let n: usize = read.len();
            let mut out: Vec<u8> = Vec::new();
            let mut i: usize = 0;
            while i < n
                invariant
                    i <= n,
                    n == read@.len(),
                    n == given@.len(),
                    op is And || op is Or || op is Xor,
                    out@.len() == i,
                    forall|j: int| 0 <= j < i ==> out@[j] == spec_bitwise(op, read@, given@)[j],
                decreases n - i,
            {
                let byte: u8 = match op {
                    ModifyOp::And => read[i] & given[i],
                    ModifyOp::Or => read[i] | given[i],
                    _ => read[i] ^ given[i],
                };
                out.push(byte);
                i += 1;
            }
            proof {
                assert(out@ =~= spec_bitwise(op, read@, given@));
            }
            out
        },
    }
}

/// Whether `after` and `r` are what a read-modify-write access in the
/// byte order `le` leaves of `before` and returns: `r` is the element
/// that the buffer held, and the buffer holds in its place what the
/// modification `op` makes of it and of `value`.
pub open spec fn spec_get_modify_set(
    before: Agent,
    after: Agent,
    array_buffer: ArrayBuffer,
    byte_index: int,
    ty: ElementType,
    value: int,
    op: ModifyOp,
    le: bool,
    r: Numeric,
) -> bool {
    let block = before.heap.array_buffer(array_buffer)@;
    let read = block.subrange(byte_index, byte_index + ty.spec_size());
    &&& r == ty.numeric(spec_get_value(block, byte_index, ty, le))
    &&& buffer_bytes_replaced(
        before,
        after,
        array_buffer,
        written(
            block,
            byte_index,
            spec_modify(op, ty, read, spec_numeric_to_raw_bytes(ty, value, le), le),
        ),
    )
}

/// Reads the element of type `ty` at `byte_index`, writes in its place
/// what the modification `op` makes of it and of `value`, and returns
/// the element that was read, all in the given byte order.
pub fn get_modify_set_value_in_buffer_in_order(
    agent: &mut Agent,
    array_buffer: ArrayBuffer,
    byte_index: usize,
    ty: ElementType,
    value: Numeric,
    op: ModifyOp,
    is_little_endian: bool,
) -> (r: Numeric)
    requires
        old(agent).heap.has_array_buffer(array_buffer),
        !old(agent).heap.array_buffer(array_buffer).spec_is_detached(),
        byte_index + ty.spec_size() <= old(agent).heap.array_buffer(array_buffer)@.len(),
        !(ty is Uint8Clamped),
    ensures
        spec_get_modify_set(
            *old(agent),
            *final(agent),
            array_buffer,
            byte_index as int,
            ty,
            value.int_value(),
            op,
            is_little_endian,
            r,
        ),
{
    let given = numeric_to_raw_bytes(ty, value, is_little_endian);
    let read: Vec<u8> = match &agent.heap.array_buffers[array_buffer.0 as usize] {
        Some(data) => {
            match data.get_data_block().get_offset_by_byte(byte_index, ty.size()) {
                Some(raw) => raw,
                None => Vec::new(),
            }
        },
        None => Vec::new(),
    };
    let modified = modify_raw_bytes(op, ty, &read, &given, is_little_endian);
    match &mut agent.heap.array_buffers[array_buffer.0 as usize] {
        Some(data) => {
            let block = data.get_data_block_mut();
            block.set_offset_by_byte(byte_index, &modified);
        },
        None => {},
    }
    raw_bytes_to_numeric(ty, &read, is_little_endian)
}

/// Reads the element of type `ty` at `byte_index`, writes in its place
/// what the modification `op` makes of it and of `value`, and returns
/// the element that was read. The bytes are taken in the order of the
/// machine.
pub fn get_modify_set_value_in_buffer(
    agent: &mut Agent,
    array_buffer: ArrayBuffer,
    byte_index: usize,
    ty: ElementType,
    value: Numeric,
    op: ModifyOp,
) -> (r: Numeric)
    requires
        old(agent).heap.has_array_buffer(array_buffer),
        !old(agent).heap.array_buffer(array_buffer).spec_is_detached(),
        byte_index + ty.spec_size() <= old(agent).heap.array_buffer(array_buffer)@.len(),
        !(ty is Uint8Clamped),
    ensures
        exists|le: bool|
            #[trigger] spec_get_modify_set(
                *old(agent),
                *final(agent),
                array_buffer,
                byte_index as int,
                ty,
                value.int_value(),
                op,
                le,
                r,
            ),
{
    let is_little_endian = host_is_little_endian();
    get_modify_set_value_in_buffer_in_order(
        agent,
        array_buffer,
        byte_index,
        ty,
        value,
        op,
        is_little_endian,
    )
}

} // verus!
