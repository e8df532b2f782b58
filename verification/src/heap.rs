//! The heap: one vector of stored records per kind of object, indexed by
//! the handles of that kind, and the agent that owns it.

use crate::array_buffer::ArrayBufferHeapData;
use crate::array_iterator::ArrayIteratorHeapData;
use crate::environment::EnvironmentData;
use crate::module::ModuleHeapData;
use crate::ordinary::ObjectHeapData;
use crate::value::{
    ArrayBuffer, ArrayIterator, Environment, ExceptionType, HeapString, JsError, Module,
    OrdinaryObject,
};
use vstd::prelude::*;
use vstd::string::StringExecFns;

verus! {

/// The stored records, one vector per kind. A handle is live when its
/// slot exists and holds a record.
#[derive(Debug)]
pub struct Heap {
    pub array_buffers: Vec<Option<ArrayBufferHeapData>>,
    pub array_iterators: Vec<Option<ArrayIteratorHeapData>>,
    pub modules: Vec<Option<ModuleHeapData>>,
    pub environments: Vec<Option<EnvironmentData>>,
    pub objects: Vec<Option<ObjectHeapData>>,
    pub strings: Vec<Option<String>>,
    pub alloc_counter: usize,
}

/// The prototypes that property reads on primitive values go to.
#[derive(Clone, Copy, Debug)]
pub struct Intrinsics {
    pub object_prototype: OrdinaryObject,
    pub array_buffer_prototype: OrdinaryObject,
    pub array_iterator_prototype: OrdinaryObject,
    pub boolean_prototype: OrdinaryObject,
    pub string_prototype: OrdinaryObject,
    pub symbol_prototype: OrdinaryObject,
    pub number_prototype: OrdinaryObject,
    pub big_int_prototype: OrdinaryObject,
}

/// The owner of the heap, with the intrinsics and the global object of
/// its realm.
#[derive(Debug)]
pub struct Agent {
    pub heap: Heap,
    pub intrinsics: Intrinsics,
    pub global_object: OrdinaryObject,
}

impl Agent {
    /// An agent whose heap holds the prototypes of its realm and the
    /// global object, and nothing else: the object prototype in the first
    /// slot, then the prototypes of array buffers, array iterators,
    /// booleans, strings, symbols, numbers and big integers, each with the
    /// object prototype as its prototype, then the global object.
    pub fn new() -> (r: Self)
        ensures
            r.heap.wf(),
            r.heap.objects@.len() == 9,
            r.heap.array_buffers@.len() == 0,
            r.heap.array_iterators@.len() == 0,
            r.heap.modules@.len() == 0,
            r.heap.environments@.len() == 0,
            r.heap.strings@.len() == 0,
            r.intrinsics.object_prototype == OrdinaryObject(0),
            r.intrinsics.array_buffer_prototype == OrdinaryObject(1),
            r.intrinsics.array_iterator_prototype == OrdinaryObject(2),
            r.intrinsics.boolean_prototype == OrdinaryObject(3),
            r.intrinsics.string_prototype == OrdinaryObject(4),
            r.intrinsics.symbol_prototype == OrdinaryObject(5),
            r.intrinsics.number_prototype == OrdinaryObject(6),
            r.intrinsics.big_int_prototype == OrdinaryObject(7),
            r.global_object == OrdinaryObject(8),
            forall|i: int|
                0 <= i < 9 ==> (#[trigger] r.heap.objects@[i]) is Some
                    && r.heap.objects@[i]->0.properties@.len() == 0
                    && r.heap.objects@[i]->0.extensible && r.heap.objects@[i]->0.prototype == if i
                    == 0 {
                    None
                } else {
                    Some(OrdinaryObject(0))
                },
    {
        let mut heap = Heap::new();
        let object_prototype = heap.create_object(ObjectHeapData::new(None));
        let mut i: usize = 1;
        while i < 9
            invariant
                1 <= i <= 9,
                heap.objects@.len() == i,
                heap.array_buffers@.len() == 0,
                heap.array_iterators@.len() == 0,
                heap.modules@.len() == 0,
                heap.environments@.len() == 0,
                heap.strings@.len() == 0,
                object_prototype == OrdinaryObject(0),
                forall|j: int|
                    0 <= j < i ==> (#[trigger] heap.objects@[j]) is Some
                        && heap.objects@[j]->0.properties@.len() == 0 && heap.objects@[j]->0.wf()
                        && heap.objects@[j]->0.extensible && heap.objects@[j]->0.prototype == if j
                        == 0 {
                        None
                    } else {
                        Some(OrdinaryObject(0))
                    },
            decreases 9 - i,
        {
            heap.create_object(ObjectHeapData::new(Some(object_prototype)));
            i += 1;
        }
        Agent {
            heap,
            intrinsics: Intrinsics {
                object_prototype,
                array_buffer_prototype: OrdinaryObject(1),
                array_iterator_prototype: OrdinaryObject(2),
                boolean_prototype: OrdinaryObject(3),
                string_prototype: OrdinaryObject(4),
                symbol_prototype: OrdinaryObject(5),
                number_prototype: OrdinaryObject(6),
                big_int_prototype: OrdinaryObject(7),
            },
            global_object: OrdinaryObject(8),
        }
    }

    /// The error of kind `kind` with the message `message`.
    pub fn throw_exception_with_static_message(&self, kind: ExceptionType, message: &str) -> (r:
        JsError)
        ensures
            r.kind == kind,
            r.message@ == message@,
    {
        JsError { kind, message: String::from_str(message) }
    }

    /// The error of kind `kind` with the message `message`.
    pub fn throw_exception(&self, kind: ExceptionType, message: String) -> (r: JsError)
        ensures
            r.kind == kind,
            r.message == message,
    {
        JsError { kind, message }
    }
}

/// The count of allocations after one more: it stays at the largest
/// number once it has reached it.
pub open spec fn counted(n: usize) -> usize {
    if n == usize::MAX {
        n
    } else {
        (n + 1) as usize
    }
}

impl Heap {
    /// A heap without records.
    pub fn new() -> (r: Self)
        ensures
            r.array_buffers@.len() == 0,
            r.array_iterators@.len() == 0,
            r.modules@.len() == 0,
            r.environments@.len() == 0,
            r.objects@.len() == 0,
            r.strings@.len() == 0,
            r.alloc_counter == 0,
    {
        Heap {
            array_buffers: Vec::new(),
            array_iterators: Vec::new(),
            modules: Vec::new(),
            environments: Vec::new(),
            objects: Vec::new(),
            strings: Vec::new(),
            alloc_counter: 0,
        }
    }

    /// Counts one allocation; the counter stays at its largest value once
    /// it has reached it.
    pub fn count_allocation(&mut self)
        ensures
            final(self).array_buffers == old(self).array_buffers,
            final(self).same_but_array_buffers(*old(self)),
            final(self).alloc_counter == counted(old(self).alloc_counter),
    {
        if self.alloc_counter < usize::MAX {
            self.alloc_counter += 1;
        }
    }

    /// Stores `data` in a new slot and returns its handle.
    pub fn create_array_buffer(&mut self, data: ArrayBufferHeapData) -> (r: ArrayBuffer)
        requires
            old(self).array_buffers@.len() < u32::MAX,
        ensures
            r.0 == old(self).array_buffers@.len(),
            final(self).array_buffers@ == old(self).array_buffers@.push(Some(data)),
            final(self).same_but_array_buffers(*old(self)),
            final(self).has_array_buffer(r),
            final(self).alloc_counter == counted(old(self).alloc_counter),
            final(self).array_buffer(r) == data,
    {
        self.array_buffers.push(Some(data));
        self.count_allocation();
        ArrayBuffer((self.array_buffers.len() - 1) as u32)
    }

    /// Stores `data` in a new slot and returns its handle.
    pub fn create_environment(&mut self, data: EnvironmentData) -> (r: Environment)
        requires
            old(self).environments@.len() < u32::MAX,
        ensures
            r.0 == old(self).environments@.len(),
            final(self).environments@ == old(self).environments@.push(Some(data)),
            final(self).same_but_environments(*old(self)),
            final(self).has_environment(r),
            final(self).alloc_counter == counted(old(self).alloc_counter),
            final(self).environment(r) == data,
    {
        self.environments.push(Some(data));
        self.count_allocation();
        Environment((self.environments.len() - 1) as u32)
    }

    /// Stores `data` in a new slot and returns its handle.
    pub fn create_object(&mut self, data: ObjectHeapData) -> (r: OrdinaryObject)
        requires
            old(self).objects@.len() < u32::MAX,
        ensures
            r.0 == old(self).objects@.len(),
            final(self).objects@ == old(self).objects@.push(Some(data)),
            final(self).same_but_objects(*old(self)),
            final(self).has_object(r),
            final(self).alloc_counter == counted(old(self).alloc_counter),
            final(self).object(r) == data,
    {
        self.objects.push(Some(data));
        self.count_allocation();
        OrdinaryObject((self.objects.len() - 1) as u32)
    }

    /// Stores `data` in a new slot and returns its handle.
    pub fn create_string(&mut self, data: String) -> (r: HeapString)
        requires
            old(self).strings@.len() < u32::MAX,
        ensures
            r.0 == old(self).strings@.len(),
            final(self).strings@ == old(self).strings@.push(Some(data)),
            final(self).same_but_strings(*old(self)),
            final(self).has_string(r),
            final(self).alloc_counter == counted(old(self).alloc_counter),
            final(self).string(r) == data@,
    {
        self.strings.push(Some(data));
        self.count_allocation();
        HeapString((self.strings.len() - 1) as u32)
    }

    /// Stores `data` in a new slot and returns its handle.
    pub fn create_array_iterator(&mut self, data: ArrayIteratorHeapData) -> (r: ArrayIterator)
        requires
            old(self).array_iterators@.len() < u32::MAX,
        ensures
            r.0 == old(self).array_iterators@.len(),
            final(self).array_iterators@ == old(self).array_iterators@.push(Some(data)),
            final(self).same_but_array_iterators(*old(self)),
            final(self).has_array_iterator(r),
            final(self).alloc_counter == counted(old(self).alloc_counter),
            final(self).array_iterator(r) == data,
    {
        self.array_iterators.push(Some(data));
        self.count_allocation();
        ArrayIterator((self.array_iterators.len() - 1) as u32)
    }

    /// Stores `data` in a new slot and returns its handle.
    pub fn create_module(&mut self, data: ModuleHeapData) -> (r: Module)
        requires
            old(self).modules@.len() < u32::MAX,
        ensures
            r.0 == old(self).modules@.len(),
            final(self).modules@ == old(self).modules@.push(Some(data)),
            final(self).same_but_modules(*old(self)),
            final(self).has_module(r),
            final(self).alloc_counter == counted(old(self).alloc_counter),
            final(self).module(r) == data,
    {
        self.modules.push(Some(data));
        self.count_allocation();
        Module((self.modules.len() - 1) as u32)
    }

    /// The tables of the live objects and environments hold no key twice,
    /// and every export of a live module has its resolution.
    pub open spec fn wf(self) -> bool {
        &&& forall|i: int|
            0 <= i < self.objects@.len() && self.objects@[i] is Some
                ==> (#[trigger] self.objects@[i])->0.wf()
        &&& forall|i: int|
            0 <= i < self.environments@.len() && self.environments@[i] is Some
                ==> (#[trigger] self.environments@[i])->0.wf()
        &&& forall|i: int|
            0 <= i < self.modules@.len() && self.modules@[i] is Some
                ==> (#[trigger] self.modules@[i])->0.wf()
    }

    /// Both heaps hold the same records in the same slots.
    pub open spec fn same_records(self, other: Heap) -> bool {
        &&& self.array_buffers@ == other.array_buffers@
        &&& self.array_iterators@ == other.array_iterators@
        &&& self.modules@ == other.modules@
        &&& self.environments@ == other.environments@
        &&& self.objects@ == other.objects@
        &&& self.strings@ == other.strings@
    }

    /// `self` is `before` with the record of the object `o` replaced by
    /// `data`.
    pub open spec fn object_replaced(
        self,
        before: Heap,
        o: OrdinaryObject,
        data: ObjectHeapData,
    ) -> bool {
        &&& self.same_but_objects(before)
        &&& before.has_object(o)
        &&& self.objects@ == before.objects@.update(o.0 as int, Some(data))
    }

    /// `self` is `before` with the record of the environment `e` replaced
    /// by `data`.
    pub open spec fn environment_replaced(
        self,
        before: Heap,
        e: Environment,
        data: EnvironmentData,
    ) -> bool {
        &&& self.same_but_environments(before)
        &&& before.has_environment(e)
        &&& self.environments@ == before.environments@.update(e.0 as int, Some(data))
    }

    /// Every vector but that of the array buffers is the same in both heaps.
    pub open spec fn same_but_array_buffers(self, other: Heap) -> bool {
        &&& self.array_iterators == other.array_iterators
        &&& self.modules == other.modules
        &&& self.environments == other.environments
        &&& self.objects == other.objects
        &&& self.strings == other.strings
    }

    /// Every vector but that of the array iterators is the same in both heaps.
    pub open spec fn same_but_array_iterators(self, other: Heap) -> bool {
        &&& self.array_buffers == other.array_buffers
        &&& self.modules == other.modules
        &&& self.environments == other.environments
        &&& self.objects == other.objects
        &&& self.strings == other.strings
    }

    /// Every vector but that of the modules is the same in both heaps.
    pub open spec fn same_but_modules(self, other: Heap) -> bool {
        &&& self.array_buffers == other.array_buffers
        &&& self.array_iterators == other.array_iterators
        &&& self.environments == other.environments
        &&& self.objects == other.objects
        &&& self.strings == other.strings
    }

    /// Every vector but that of the environments is the same in both heaps.
    pub open spec fn same_but_environments(self, other: Heap) -> bool {
        &&& self.array_buffers == other.array_buffers
        &&& self.array_iterators == other.array_iterators
        &&& self.modules == other.modules
        &&& self.objects == other.objects
        &&& self.strings == other.strings
    }

    /// Every vector but that of the objects is the same in both heaps.
    pub open spec fn same_but_objects(self, other: Heap) -> bool {
        &&& self.array_buffers == other.array_buffers
        &&& self.array_iterators == other.array_iterators
        &&& self.modules == other.modules
        &&& self.environments == other.environments
        &&& self.strings == other.strings
    }

    /// Every vector but that of the strings is the same in both heaps.
    pub open spec fn same_but_strings(self, other: Heap) -> bool {
        &&& self.array_buffers == other.array_buffers
        &&& self.array_iterators == other.array_iterators
        &&& self.modules == other.modules
        &&& self.environments == other.environments
        &&& self.objects == other.objects
    }

    /// Whether the slot that `h` names holds a record.
    pub open spec fn has_array_iterator(self, h: ArrayIterator) -> bool {
        h.0 < self.array_iterators@.len() && self.array_iterators@[h.0 as int] is Some
    }

    /// The record that `h` names.
    pub open spec fn array_iterator(self, h: ArrayIterator) -> ArrayIteratorHeapData {
        self.array_iterators@[h.0 as int]->0
    }

    /// Whether the slot that `h` names holds a record.
    pub open spec fn has_module(self, h: Module) -> bool {
        h.0 < self.modules@.len() && self.modules@[h.0 as int] is Some
    }

    /// The record that `h` names.
    pub open spec fn module(self, h: Module) -> ModuleHeapData {
        self.modules@[h.0 as int]->0
    }

    /// Whether the slot that `h` names holds a record.
    pub open spec fn has_array_buffer(self, h: ArrayBuffer) -> bool {
        h.0 < self.array_buffers@.len() && self.array_buffers@[h.0 as int] is Some
    }

    /// The record that `h` names.
    pub open spec fn array_buffer(self, h: ArrayBuffer) -> ArrayBufferHeapData {
        self.array_buffers@[h.0 as int]->0
    }

    /// Whether the slot that `h` names holds a record.
    pub open spec fn has_environment(self, h: Environment) -> bool {
        h.0 < self.environments@.len() && self.environments@[h.0 as int] is Some
    }

    /// The record that `h` names.
    pub open spec fn environment(self, h: Environment) -> EnvironmentData {
        self.environments@[h.0 as int]->0
    }

    /// Whether the slot that `h` names holds a record.
    pub open spec fn has_object(self, h: OrdinaryObject) -> bool {
        h.0 < self.objects@.len() && self.objects@[h.0 as int] is Some
    }

    /// The record that `h` names.
    pub open spec fn object(self, h: OrdinaryObject) -> ObjectHeapData {
        self.objects@[h.0 as int]->0
    }

    /// Whether the slot that `h` names holds a string.
    pub open spec fn has_string(self, h: HeapString) -> bool {
        h.0 < self.strings@.len() && self.strings@[h.0 as int] is Some
    }

    /// The characters of the string that `h` names.
    pub open spec fn string(self, h: HeapString) -> Seq<char> {
        self.strings@[h.0 as int]->0@
    }
}

} // verus!
