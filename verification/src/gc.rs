//! The parts of the collector: the queues of the mark phase, the
//! compaction maps of the sweep phase, and the marking and the fix-up of
//! every kind of handle and record.

use crate::array_buffer::ArrayBufferHeapData;
use crate::array_iterator::ArrayIteratorHeapData;
use crate::environment::{Binding, EnvironmentData};
use crate::module::{AbstractModuleRecord, ModuleHeapData, ResolvedBinding};
use crate::ordinary::{ObjectHeapData, PropertyEntry};
use crate::reference::{Base, Reference};
use crate::value::{
    ArrayBuffer, ArrayIterator, Environment, HeapString, JsString, Module, Object, OrdinaryObject,
    PropertyKey, Value,
};
use vstd::prelude::*;

verus! {

/// The compaction map of one heap vector: for each index before the
/// sweep the index after it, or nothing for a slot that was dropped.
#[derive(Debug)]
pub struct CompactionList {
    pub map: Vec<Option<u32>>,
}

impl CompactionList {
    /// The index after the sweep of the slot that was at `index`.
    pub open spec fn image(self, index: u32) -> Option<u32> {
        if index < self.map@.len() {
            self.map@[index as int]
        } else {
            None
        }
    }

    /// Moves the index of a slot that the sweep kept to its place after
    /// the sweep.
    pub fn shift_u32_index(&self, index: &mut u32)
        requires
            self.image(*old(index)) is Some,
        ensures
            Some(*final(index)) == self.image(*old(index)),
    {
        match self.map[*index as usize] {
            Some(to) => {
                *index = to;
            },
            None => {},
        }
    }

    /// The place after the sweep of the slot at `index`, or `None` when
    /// the sweep dropped it.
    pub fn shift_weak_u32_index(&self, index: u32) -> (r: Option<u32>)
        ensures
            r == self.image(index),
    {
        if (index as usize) < self.map.len() {
            self.map[index as usize]
        } else {
            None
        }
    }
}

/// The compaction maps of the heap vectors.
#[derive(Debug)]
pub struct CompactionLists {
    pub array_buffers: CompactionList,
    pub array_iterators: CompactionList,
    pub environments: CompactionList,
    pub modules: CompactionList,
    pub objects: CompactionList,
    pub strings: CompactionList,
}

/// A handle of any kind.
#[derive(Clone, Copy, PartialEq, Eq, Structural, Debug)]
pub enum HeapRef {
    ArrayBuffer(ArrayBuffer),
    ArrayIterator(ArrayIterator),
    Environment(Environment),
    Module(Module),
    Object(OrdinaryObject),
    String(HeapString),
}

/// The handles that the mark phase has still to visit, each with its kind.
#[derive(Debug)]
pub struct WorkQueues {
    pub pending: Vec<HeapRef>,
}

impl WorkQueues {
    /// Queues without handles.
    pub fn new() -> (r: Self)
        ensures
            r@.len() == 0,
    {
        WorkQueues { pending: Vec::new() }
    }

    /// The queued handles, in the order in which they were added.
    pub open spec fn view(self) -> Seq<HeapRef> {
        self.pending@
    }

    /// Adds the handle `r`.
    pub fn push(&mut self, r: HeapRef)
        ensures
            final(self)@ == old(self)@.push(r),
    {
        self.pending.push(r);
    }
}

impl CompactionLists {
    /// The place after the sweep of the slot that `r` names.
    pub open spec fn image(self, r: HeapRef) -> Option<HeapRef> {
        match r {
            HeapRef::ArrayBuffer(h) => match self.array_buffers.image(h.0) {
                Some(i) => Some(HeapRef::ArrayBuffer(ArrayBuffer(i))),
                None => None,
            },
            HeapRef::ArrayIterator(h) => match self.array_iterators.image(h.0) {
                Some(i) => Some(HeapRef::ArrayIterator(ArrayIterator(i))),
                None => None,
            },
            HeapRef::Environment(h) => match self.environments.image(h.0) {
                Some(i) => Some(HeapRef::Environment(Environment(i))),
                None => None,
            },
            HeapRef::Module(h) => match self.modules.image(h.0) {
                Some(i) => Some(HeapRef::Module(Module(i))),
                None => None,
            },
            HeapRef::Object(h) => match self.objects.image(h.0) {
                Some(i) => Some(HeapRef::Object(OrdinaryObject(i))),
                None => None,
            },
            HeapRef::String(h) => match self.strings.image(h.0) {
                Some(i) => Some(HeapRef::String(HeapString(i))),
                None => None,
            },
        }
    }

    /// The place after the sweep of the slot that `r` names, or `None`
    /// when the sweep dropped it.
    pub fn shift_weak(&self, r: HeapRef) -> (out: Option<HeapRef>)
        ensures
            out == self.image(r),
    {
        match r {
            HeapRef::ArrayBuffer(h) => match self.array_buffers.shift_weak_u32_index(h.0) {
                Some(i) => Some(HeapRef::ArrayBuffer(ArrayBuffer(i))),
                None => None,
            },
            HeapRef::ArrayIterator(h) => match self.array_iterators.shift_weak_u32_index(h.0) {
                Some(i) => Some(HeapRef::ArrayIterator(ArrayIterator(i))),
                None => None,
            },
            HeapRef::Environment(h) => match self.environments.shift_weak_u32_index(h.0) {
                Some(i) => Some(HeapRef::Environment(Environment(i))),
                None => None,
            },
            HeapRef::Module(h) => match self.modules.shift_weak_u32_index(h.0) {
                Some(i) => Some(HeapRef::Module(Module(i))),
                None => None,
            },
            HeapRef::Object(h) => match self.objects.shift_weak_u32_index(h.0) {
                Some(i) => Some(HeapRef::Object(OrdinaryObject(i))),
                None => None,
            },
            HeapRef::String(h) => match self.strings.shift_weak_u32_index(h.0) {
                Some(i) => Some(HeapRef::String(HeapString(i))),
                None => None,
            },
        }
    }
}

impl Value {
    /// The handle that the value holds, if it is not an immediate.
    pub open spec fn heap_ref(self) -> Option<HeapRef> {
        match self {
            Value::String(h) => Some(HeapRef::String(h)),
            Value::Object(h) => Some(HeapRef::Object(h)),
            Value::ArrayBuffer(h) => Some(HeapRef::ArrayBuffer(h)),
            Value::ArrayIterator(h) => Some(HeapRef::ArrayIterator(h)),
            Value::Module(h) => Some(HeapRef::Module(h)),
            _ => None,
        }
    }

    /// The handles that the value holds: one or none.
    pub open spec fn heap_ref_seq(self) -> Seq<HeapRef> {
        match self.heap_ref() {
            Some(r) => seq![r],
            None => Seq::<HeapRef>::empty(),
        }
    }

    /// The value with the handle `r` in place of its own.
    pub open spec fn with_ref(self, r: HeapRef) -> Value {
        match r {
            HeapRef::String(h) => Value::String(h),
            HeapRef::Object(h) => Value::Object(h),
            HeapRef::ArrayBuffer(h) => Value::ArrayBuffer(h),
            HeapRef::ArrayIterator(h) => Value::ArrayIterator(h),
            HeapRef::Module(h) => Value::Module(h),
            HeapRef::Environment(_) => self,
        }
    }

    /// Whether the sweep kept the slot that the value names, if it names one.
    pub open spec fn mapped(self, c: CompactionLists) -> bool {
        self.heap_ref() is Some ==> c.image(self.heap_ref()->0) is Some
    }

    /// The value after the fix-up: its handle moved to the place of its
    /// slot after the sweep.
    pub open spec fn swept(self, c: CompactionLists) -> Value {
        match self.heap_ref() {
            Some(r) => self.with_ref(c.image(r)->0),
            None => self,
        }
    }

    /// The handle that the value holds, if it is not an immediate.
    pub fn get_heap_ref(&self) -> (r: Option<HeapRef>)
        ensures
            r == self.heap_ref(),
    {
        match *self {
            Value::String(h) => Some(HeapRef::String(h)),
            Value::Object(h) => Some(HeapRef::Object(h)),
            Value::ArrayBuffer(h) => Some(HeapRef::ArrayBuffer(h)),
            Value::ArrayIterator(h) => Some(HeapRef::ArrayIterator(h)),
            Value::Module(h) => Some(HeapRef::Module(h)),
            _ => None,
        }
    }

    /// Queues the handle of the value, if it holds one.
    pub fn mark_values(&self, queues: &mut WorkQueues)
        ensures
            final(queues)@ =~= old(queues)@ + self.heap_ref_seq(),
    {
        match self.get_heap_ref() {
            Some(r) => queues.push(r),
            None => {},
        }
    }

    /// Moves the handle of the value to the place of its slot after the
    /// sweep.
    pub fn sweep_values(&mut self, compactions: &CompactionLists)
        requires
            old(self).mapped(*compactions),
        ensures
            *final(self) == old(self).swept(*compactions),
    {
        match *self {
            Value::String(mut h) => {
                compactions.strings.shift_u32_index(&mut h.0);
                *self = Value::String(h);
            },
            Value::Object(mut h) => {
                compactions.objects.shift_u32_index(&mut h.0);
                *self = Value::Object(h);
            },
            Value::ArrayBuffer(mut h) => {
                compactions.array_buffers.shift_u32_index(&mut h.0);
                *self = Value::ArrayBuffer(h);
            },
            Value::ArrayIterator(mut h) => {
                compactions.array_iterators.shift_u32_index(&mut h.0);
                *self = Value::ArrayIterator(h);
            },
            Value::Module(mut h) => {
                compactions.modules.shift_u32_index(&mut h.0);
                *self = Value::Module(h);
            },
            _ => {},
        }
    }

    /// Whether the sweep kept the slot that the value names, if it names one.
    pub fn is_mapped(&self, compactions: &CompactionLists) -> (r: bool)
        ensures
            r == self.mapped(*compactions),
    {
        match self.get_heap_ref() {
            Some(h) => compactions.shift_weak(h).is_some(),
            None => true,
        }
    }
}


impl OrdinaryObject {
    /// Whether the sweep kept the slot of the object.
    pub open spec fn mapped(self, c: CompactionLists) -> bool {
        c.objects.image(self.0) is Some
    }

    /// The handle after the fix-up.
    pub open spec fn swept(self, c: CompactionLists) -> OrdinaryObject {
        OrdinaryObject(c.objects.image(self.0)->0)
    }

    /// Queues the handle.
    pub fn mark_values(&self, queues: &mut WorkQueues)
        ensures
            final(queues)@ == old(queues)@.push(HeapRef::Object(*self)),
    {
        queues.push(HeapRef::Object(*self));
    }

    /// Moves the handle to the place of its slot after the sweep.
    pub fn sweep_values(&mut self, compactions: &CompactionLists)
        requires
            old(self).mapped(*compactions),
        ensures
            *final(self) == old(self).swept(*compactions),
    {
        compactions.objects.shift_u32_index(&mut self.0);
    }

    /// The handle after the sweep, or `None` when the sweep dropped its slot.
    pub fn sweep_weak_reference(self, compactions: &CompactionLists) -> (r: Option<Self>)
        ensures
            r is Some <==> self.mapped(*compactions),
            r is Some ==> r->0 == self.swept(*compactions),
    {
        match compactions.objects.shift_weak_u32_index(self.0) {
            Some(i) => Some(OrdinaryObject(i)),
            None => None,
        }
    }
}

impl Module {
    /// Whether the sweep kept the slot of the module.
    pub open spec fn mapped(self, c: CompactionLists) -> bool {
        c.modules.image(self.0) is Some
    }

    /// The handle after the fix-up.
    pub open spec fn swept(self, c: CompactionLists) -> Module {
        Module(c.modules.image(self.0)->0)
    }

    /// Queues the handle.
    pub fn mark_values(&self, queues: &mut WorkQueues)
        ensures
            final(queues)@ == old(queues)@.push(HeapRef::Module(*self)),
    {
        queues.push(HeapRef::Module(*self));
    }

    /// Moves the handle to the place of its slot after the sweep.
    pub fn sweep_values(&mut self, compactions: &CompactionLists)
        requires
            old(self).mapped(*compactions),
        ensures
            *final(self) == old(self).swept(*compactions),
    {
        compactions.modules.shift_u32_index(&mut self.0);
    }

    /// The handle after the sweep, or `None` when the sweep dropped its slot.
    pub fn sweep_weak_reference(self, compactions: &CompactionLists) -> (r: Option<Self>)
        ensures
            r is Some <==> self.mapped(*compactions),
            r is Some ==> r->0 == self.swept(*compactions),
    {
        match compactions.modules.shift_weak_u32_index(self.0) {
            Some(i) => Some(Module::from_u32(i)),
            None => None,
        }
    }
}

impl Module {
    /// The module that the handle `r` names, or `Err` when it names a
    /// record of another kind.
    pub fn try_from_heap_ref(r: HeapRef) -> (out: Result<Self, ()>)
        ensures
            out is Ok <==> r is Module,
            out is Ok ==> HeapRef::Module(out->Ok_0) == r,
    {
        match r {
            HeapRef::Module(value) => Ok(value),
            _ => Err(()),
        }
    }
}

impl ArrayIterator {
    /// The iterator that the handle `r` names, or `Err` when it names a
    /// record of another kind.
    pub fn try_from_heap_ref(r: HeapRef) -> (out: Result<Self, ()>)
        ensures
            out is Ok <==> r is ArrayIterator,
            out is Ok ==> HeapRef::ArrayIterator(out->Ok_0) == r,
    {
        match r {
            HeapRef::ArrayIterator(value) => Ok(value),
            _ => Err(()),
        }
    }

    /// Whether the sweep kept the slot of the iterator.
    pub open spec fn mapped(self, c: CompactionLists) -> bool {
        c.array_iterators.image(self.0) is Some
    }

    /// The handle after the fix-up.
    pub open spec fn swept(self, c: CompactionLists) -> ArrayIterator {
        ArrayIterator(c.array_iterators.image(self.0)->0)
    }

    /// Queues the handle.
    pub fn mark_values(&self, queues: &mut WorkQueues)
        ensures
            final(queues)@ == old(queues)@.push(HeapRef::ArrayIterator(*self)),
    {
        queues.push(HeapRef::ArrayIterator(*self));
    }

    /// Moves the handle to the place of its slot after the sweep.
    pub fn sweep_values(&mut self, compactions: &CompactionLists)
        requires
            old(self).mapped(*compactions),
        ensures
            *final(self) == old(self).swept(*compactions),
    {
        compactions.array_iterators.shift_u32_index(&mut self.0);
    }

    /// The handle after the sweep, or `None` when the sweep dropped its slot.
    pub fn sweep_weak_reference(self, compactions: &CompactionLists) -> (r: Option<Self>)
        ensures
            r is Some <==> self.mapped(*compactions),
            r is Some ==> r->0 == self.swept(*compactions),
    {
        match compactions.array_iterators.shift_weak_u32_index(self.0) {
            Some(i) => Some(ArrayIterator(i)),
            None => None,
        }
    }
}

impl Environment {
    /// Whether the sweep kept the slot of the environment.
    pub open spec fn mapped(self, c: CompactionLists) -> bool {
        c.environments.image(self.0) is Some
    }

    /// The handle after the fix-up.
    pub open spec fn swept(self, c: CompactionLists) -> Environment {
        Environment(c.environments.image(self.0)->0)
    }

    /// Queues the handle.
    pub fn mark_values(&self, queues: &mut WorkQueues)
        ensures
            final(queues)@ == old(queues)@.push(HeapRef::Environment(*self)),
    {
        queues.push(HeapRef::Environment(*self));
    }

    /// Moves the handle to the place of its slot after the sweep.
    pub fn sweep_values(&mut self, compactions: &CompactionLists)
        requires
            old(self).mapped(*compactions),
        ensures
            *final(self) == old(self).swept(*compactions),
    {
        compactions.environments.shift_u32_index(&mut self.0);
    }
}

/// The handle that an optional object handle holds: one or none.
pub open spec fn object_option_refs(o: Option<OrdinaryObject>) -> Seq<HeapRef> {
    match o {
        Some(x) => seq![HeapRef::Object(x)],
        None => Seq::<HeapRef>::empty(),
    }
}

/// Whether the sweep kept the slot of the object, if there is one.
pub open spec fn object_option_mapped(o: Option<OrdinaryObject>, c: CompactionLists) -> bool {
    o is Some ==> o->0.mapped(c)
}

/// The optional object handle after the fix-up.
pub open spec fn object_option_swept(o: Option<OrdinaryObject>, c: CompactionLists) -> Option<
    OrdinaryObject,
> {
    match o {
        Some(x) => Some(x.swept(c)),
        None => None,
    }
}

/// Queues the object handle, if there is one.
pub fn mark_object_option(o: &Option<OrdinaryObject>, queues: &mut WorkQueues)
    ensures
        final(queues)@ =~= old(queues)@ + object_option_refs(*o),
{
    match o {
        Some(x) => x.mark_values(queues),
        None => {},
    }
}

/// Moves the object handle, if there is one, to the place of its slot
/// after the sweep.
pub fn sweep_object_option(o: &mut Option<OrdinaryObject>, compactions: &CompactionLists)
    requires
        object_option_mapped(*old(o), *compactions),
    ensures
        *final(o) == object_option_swept(*old(o), *compactions),
{
    match *o {
        Some(mut x) => {
            x.sweep_values(compactions);
            *o = Some(x);
        },
        None => {},
    }
}

/// Whether the sweep kept the slot of the object, if there is one.
pub fn is_object_option_mapped(o: &Option<OrdinaryObject>, compactions: &CompactionLists) -> (r:
    bool)
    ensures
        r == object_option_mapped(*o, *compactions),
{
    match o {
        Some(x) => compactions.objects.shift_weak_u32_index(x.0).is_some(),
        None => true,
    }
}

impl JsString {
    /// The handle that the string holds, when it is stored in the heap.
    pub open spec fn refs(self) -> Seq<HeapRef> {
        self.spec_into_value().heap_ref_seq()
    }

    /// Whether the sweep kept the slot of the string, if it has one.
    pub open spec fn mapped(self, c: CompactionLists) -> bool {
        self.spec_into_value().mapped(c)
    }

    /// The string after the fix-up.
    pub open spec fn swept(self, c: CompactionLists) -> JsString {
        match self {
            JsString::String(h) => JsString::String(HeapString(c.strings.image(h.0)->0)),
            _ => self,
        }
    }

    /// Queues the handle of the string, if it has one.
    pub fn mark_values(&self, queues: &mut WorkQueues)
        ensures
            final(queues)@ =~= old(queues)@ + self.refs(),
    {
        self.into_value().mark_values(queues);
    }

    /// Moves the handle of the string, if it has one, to the place of
    /// its slot after the sweep.
    pub fn sweep_values(&mut self, compactions: &CompactionLists)
        requires
            old(self).mapped(*compactions),
        ensures
            *final(self) == old(self).swept(*compactions),
    {
        match *self {
            JsString::String(mut h) => {
                compactions.strings.shift_u32_index(&mut h.0);
                *self = JsString::String(h);
            },
            _ => {},
        }
    }

    /// Whether the sweep kept the slot of the string, if it has one.
    pub fn is_mapped(&self, compactions: &CompactionLists) -> (r: bool)
        ensures
            r == self.mapped(*compactions),
    {
        self.into_value().is_mapped(compactions)
    }
}

impl PropertyKey {
    /// The value that holds the handle of the key: the string for a
    /// string in the heap, `undefined` for every other key.
    pub open spec fn handle_value(self) -> Value {
        match self {
            PropertyKey::String(h) => Value::String(h),
            _ => Value::Undefined,
        }
    }

    /// The handle that the key holds, when it is a string in the heap.
    pub open spec fn refs(self) -> Seq<HeapRef> {
        self.handle_value().heap_ref_seq()
    }

    /// Whether the sweep kept the slot of the key, if it has one.
    pub open spec fn mapped(self, c: CompactionLists) -> bool {
        self.handle_value().mapped(c)
    }

    /// The key after the fix-up.
    pub open spec fn swept(self, c: CompactionLists) -> PropertyKey {
        match self {
            PropertyKey::String(h) => PropertyKey::String(HeapString(c.strings.image(h.0)->0)),
            _ => self,
        }
    }

    /// Queues the handle of the key, if it has one.
    pub fn mark_values(&self, queues: &mut WorkQueues)
        ensures
            final(queues)@ =~= old(queues)@ + self.refs(),
    {
        match *self {
            PropertyKey::String(h) => Value::String(h).mark_values(queues),
            _ => {},
        }
    }

    /// Moves the handle of the key, if it has one, to the place of its
    /// slot after the sweep.
    pub fn sweep_values(&mut self, compactions: &CompactionLists)
        requires
            old(self).mapped(*compactions),
        ensures
            *final(self) == old(self).swept(*compactions),
    {
        match *self {
            PropertyKey::String(mut h) => {
                compactions.strings.shift_u32_index(&mut h.0);
                *self = PropertyKey::String(h);
            },
            _ => {},
        }
    }

    /// Whether the sweep kept the slot of the key, if it has one.
    pub fn is_mapped(&self, compactions: &CompactionLists) -> (r: bool)
        ensures
            r == self.mapped(*compactions),
    {
        match *self {
            PropertyKey::String(h) => compactions.strings.shift_weak_u32_index(h.0).is_some(),
            _ => true,
        }
    }
}

/// The handle that an optional value holds: one or none.
pub open spec fn value_option_refs(v: Option<Value>) -> Seq<HeapRef> {
    match v {
        Some(x) => x.heap_ref_seq(),
        None => Seq::<HeapRef>::empty(),
    }
}

/// Whether the sweep kept the slot that the value names, if there is a
/// value and it names one.
pub open spec fn value_option_mapped(v: Option<Value>, c: CompactionLists) -> bool {
    v is Some ==> v->0.mapped(c)
}

/// The optional value after the fix-up.
pub open spec fn value_option_swept(v: Option<Value>, c: CompactionLists) -> Option<Value> {
    match v {
        Some(x) => Some(x.swept(c)),
        None => None,
    }
}

/// Queues the handle of the value, if there is a value and it holds one.
pub fn mark_value_option(v: &Option<Value>, queues: &mut WorkQueues)
    ensures
        final(queues)@ =~= old(queues)@ + value_option_refs(*v),
{
    match v {
        Some(x) => x.mark_values(queues),
        None => {},
    }
}

/// Moves the handle of the value, if there is one, to the place of its
/// slot after the sweep.
pub fn sweep_value_option(v: &mut Option<Value>, compactions: &CompactionLists)
    requires
        value_option_mapped(*old(v), *compactions),
    ensures
        *final(v) == value_option_swept(*old(v), *compactions),
{
    match *v {
        Some(mut x) => {
            x.sweep_values(compactions);
            *v = Some(x);
        },
        None => {},
    }
}

/// Whether the sweep kept the slot that the value names, if there is a
/// value and it names one.
pub fn is_value_option_mapped(v: &Option<Value>, compactions: &CompactionLists) -> (r: bool)
    ensures
        r == value_option_mapped(*v, *compactions),
{
    match v {
        Some(x) => x.is_mapped(compactions),
        None => true,
    }
}

impl Object {
    /// The handle of the object.
    pub open spec fn refs(self) -> Seq<HeapRef> {
        self.spec_into_value().heap_ref_seq()
    }

    /// Whether the sweep kept the slot of the object.
    pub open spec fn mapped(self, c: CompactionLists) -> bool {
        self.spec_into_value().mapped(c)
    }

    /// The object after the fix-up.
    pub open spec fn swept(self, c: CompactionLists) -> Object {
        match self {
            Object::Object(h) => Object::Object(h.swept(c)),
            Object::ArrayBuffer(h) => Object::ArrayBuffer(
                ArrayBuffer(c.array_buffers.image(h.0)->0),
            ),
            Object::ArrayIterator(h) => Object::ArrayIterator(h.swept(c)),
            Object::Module(h) => Object::Module(h.swept(c)),
        }
    }

    /// Queues the handle of the object.
    pub fn mark_values(&self, queues: &mut WorkQueues)
        ensures
            final(queues)@ =~= old(queues)@ + self.refs(),
    {
        self.into_value().mark_values(queues);
    }

    /// Moves the handle of the object to the place of its slot after the
    /// sweep.
    pub fn sweep_values(&mut self, compactions: &CompactionLists)
        requires
            old(self).mapped(*compactions),
        ensures
            *final(self) == old(self).swept(*compactions),
    {
        match *self {
            Object::Object(mut h) => {
                h.sweep_values(compactions);
                *self = Object::Object(h);
            },
            Object::ArrayBuffer(mut h) => {
                compactions.array_buffers.shift_u32_index(&mut h.0);
                *self = Object::ArrayBuffer(h);
            },
            Object::ArrayIterator(mut h) => {
                h.sweep_values(compactions);
                *self = Object::ArrayIterator(h);
            },
            Object::Module(mut h) => {
                h.sweep_values(compactions);
                *self = Object::Module(h);
            },
        }
    }

    /// Whether the sweep kept the slot of the object.
    pub fn is_mapped(&self, compactions: &CompactionLists) -> (r: bool)
        ensures
            r == self.mapped(*compactions),
    {
        self.into_value().is_mapped(compactions)
    }
}

impl ArrayBufferHeapData {
    /// The handles that the record holds: that of its backing object.
    pub open spec fn refs(self) -> Seq<HeapRef> {
        object_option_refs(self.object_index)
    }

    /// Whether the sweep kept every slot that the record names.
    pub open spec fn mapped(self, c: CompactionLists) -> bool {
        object_option_mapped(self.object_index, c)
    }

    /// Queues the handles that the record holds.
    pub fn mark_values(&self, queues: &mut WorkQueues)
        ensures
            final(queues)@ =~= old(queues)@ + self.refs(),
    {
        mark_object_option(&self.object_index, queues);
    }

    /// Moves the handles of the record to the places of their slots
    /// after the sweep. The bytes stay.
    pub fn sweep_values(&mut self, compactions: &CompactionLists)
        requires
            old(self).mapped(*compactions),
        ensures
            final(self).object_index == object_option_swept(old(self).object_index, *compactions),
            final(self).buffer == old(self).buffer,
            final(self).detach_key == old(self).detach_key,
    {
        sweep_object_option(&mut self.object_index, compactions);
    }

    /// Whether the sweep kept every slot that the record names.
    pub fn is_mapped(&self, compactions: &CompactionLists) -> (r: bool)
        ensures
            r == self.mapped(*compactions),
    {
        is_object_option_mapped(&self.object_index, compactions)
    }
}

impl ArrayIteratorHeapData {
    /// The handles that the record holds: those of its backing object
    /// and of its target.
    pub open spec fn refs(self) -> Seq<HeapRef> {
        object_option_refs(self.object_index) + match self.array {
            Some(o) => o.refs(),
            None => Seq::<HeapRef>::empty(),
        }
    }

    /// Whether the sweep kept every slot that the record names.
    pub open spec fn mapped(self, c: CompactionLists) -> bool {
        &&& object_option_mapped(self.object_index, c)
        &&& (self.array is Some ==> self.array->0.mapped(c))
    }

    /// The record after the fix-up.
    pub open spec fn swept(self, c: CompactionLists) -> ArrayIteratorHeapData {
        ArrayIteratorHeapData {
            object_index: object_option_swept(self.object_index, c),
            array: match self.array {
                Some(o) => Some(o.swept(c)),
                None => None,
            },
            next_index: self.next_index,
            kind: self.kind,
        }
    }

    /// Queues the handles that the record holds.
    pub fn mark_values(&self, queues: &mut WorkQueues)
        ensures
            final(queues)@ =~= old(queues)@ + self.refs(),
    {
        mark_object_option(&self.object_index, queues);
        match self.array {
            Some(o) => o.mark_values(queues),
            None => {},
        }
    }

    /// Moves the handles of the record to the places of their slots
    /// after the sweep.
    pub fn sweep_values(&mut self, compactions: &CompactionLists)
        requires
            old(self).mapped(*compactions),
        ensures
            *final(self) == old(self).swept(*compactions),
    {
        sweep_object_option(&mut self.object_index, compactions);
        match self.array {
            Some(mut o) => {
                o.sweep_values(compactions);
                self.array = Some(o);
            },
            None => {},
        }
    }

    /// Whether the sweep kept every slot that the record names.
    pub fn is_mapped(&self, compactions: &CompactionLists) -> (r: bool)
        ensures
            r == self.mapped(*compactions),
    {
        is_object_option_mapped(&self.object_index, compactions) && match self.array {
            Some(o) => o.is_mapped(compactions),
            None => true,
        }
    }
}

impl PropertyEntry {
    /// The handles that the property holds: those of its key and of its
    /// value.
    pub open spec fn refs(self) -> Seq<HeapRef> {
        self.key.refs() + self.value.heap_ref_seq()
    }

    /// Whether the sweep kept every slot that the property names.
    pub open spec fn mapped(self, c: CompactionLists) -> bool {
        self.key.mapped(c) && self.value.mapped(c)
    }

    /// The property after the fix-up.
    pub open spec fn swept(self, c: CompactionLists) -> PropertyEntry {
        PropertyEntry {
            key: self.key.swept(c),
            value: self.value.swept(c),
            writable: self.writable,
            enumerable: self.enumerable,
            configurable: self.configurable,
        }
    }
}

/// The handles that the properties hold, property by property.
pub open spec fn entries_refs(entries: Seq<PropertyEntry>) -> Seq<HeapRef>
    decreases entries.len(),
{
    if entries.len() == 0 {
        Seq::<HeapRef>::empty()
    } else {
        entries_refs(entries.drop_last()) + entries.last().refs()
    }
}

impl ObjectHeapData {
    /// The handles that the record holds: that of its prototype and
    /// those of its properties.
    pub open spec fn refs(self) -> Seq<HeapRef> {
        object_option_refs(self.prototype) + entries_refs(self.properties@)
    }

    /// Whether the sweep kept every slot that the record names.
    pub open spec fn mapped(self, c: CompactionLists) -> bool {
        &&& object_option_mapped(self.prototype, c)
        &&& forall|i: int|
            0 <= i < self.properties@.len() ==> (#[trigger] self.properties@[i]).mapped(c)
    }

    /// Queues the handles that the record holds.
    pub fn mark_values(&self, queues: &mut WorkQueues)
        ensures
            final(queues)@ =~= old(queues)@ + self.refs(),
    {
        mark_object_option(&self.prototype, queues);
        let ghost base = queues@;
        let n: usize = self.properties.len();
        let mut i: usize = 0;
        while i < n
            invariant
                i <= n,
                n == self.properties@.len(),
                queues@ =~= base + entries_refs(self.properties@.take(i as int)),
            decreases n - i,
        {
            proof {
                assert(self.properties@.take(i + 1).drop_last() =~= self.properties@.take(i as int));
            }
            self.properties[i].key.mark_values(queues);
            self.properties[i].value.mark_values(queues);
            i += 1;
        }
        proof {
            assert(self.properties@.take(n as int) =~= self.properties@);
        }
    }

    /// Moves the handles of the record to the places of their slots
    /// after the sweep.
    pub fn sweep_values(&mut self, compactions: &CompactionLists)
        requires
            old(self).mapped(*compactions),
        ensures
            final(self).prototype == object_option_swept(old(self).prototype, *compactions),
            final(self).extensible == old(self).extensible,
            final(self).properties@ == old(self).properties@.map_values(
                |e: PropertyEntry| e.swept(*compactions),
            ),
    {
        sweep_object_option(&mut self.prototype, compactions);
        let n: usize = self.properties.len();
        let mut i: usize = 0;
        while i < n
            invariant
                i <= n,
                n == self.properties@.len(),
                n == old(self).properties@.len(),
                self.prototype == object_option_swept(old(self).prototype, *compactions),
                self.extensible == old(self).extensible,
                forall|j: int|
                    0 <= j < i ==> self.properties@[j] == old(self).properties@[j].swept(
                        *compactions,
                    ),
                forall|j: int| i <= j < n ==> self.properties@[j] == old(self).properties@[j],
                forall|j: int|
                    0 <= j < n ==> (#[trigger] old(self).properties@[j]).mapped(*compactions),
            decreases n - i,
        {
            let mut e = self.properties[i];
            assert(old(self).properties@[i as int].mapped(*compactions));
            e.key.sweep_values(compactions);
            e.value.sweep_values(compactions);
            self.properties.set(i, e);
            i += 1;
        }
        proof {
            assert(self.properties@ =~= old(self).properties@.map_values(
                |e: PropertyEntry| e.swept(*compactions),
            ));
        }
    }

    /// Whether the sweep kept every slot that the record names.
    pub fn is_mapped(&self, compactions: &CompactionLists) -> (r: bool)
        ensures
            r == self.mapped(*compactions),
    {
        if !is_object_option_mapped(&self.prototype, compactions) {
            return false;
        }
        let n: usize = self.properties.len();
        let mut i: usize = 0;
        while i < n
            invariant
                i <= n,
                n == self.properties@.len(),
                object_option_mapped(self.prototype, *compactions),
                forall|j: int|
                    0 <= j < i ==> (#[trigger] self.properties@[j]).mapped(*compactions),
            decreases n - i,
        {
            if !self.properties[i].key.is_mapped(compactions) || !self.properties[i].value.is_mapped(
                compactions,
            ) {
                return false;
            }
            i += 1;
        }
        true
    }
}

impl Binding {
    /// The handles that the binding holds: those of its name and of its
    /// value.
    pub open spec fn refs(self) -> Seq<HeapRef> {
        self.name.refs() + value_option_refs(self.value)
    }

    /// Whether the sweep kept every slot that the binding names.
    pub open spec fn mapped(self, c: CompactionLists) -> bool {
        self.name.mapped(c) && value_option_mapped(self.value, c)
    }

    /// The binding after the fix-up.
    pub open spec fn swept(self, c: CompactionLists) -> Binding {
        Binding {
            name: self.name.swept(c),
            value: value_option_swept(self.value, c),
            mutable: self.mutable,
        }
    }
}

/// The handles that the bindings hold, binding by binding.
pub open spec fn bindings_refs(bindings: Seq<Binding>) -> Seq<HeapRef>
    decreases bindings.len(),
{
    if bindings.len() == 0 {
        Seq::<HeapRef>::empty()
    } else {
        bindings_refs(bindings.drop_last()) + bindings.last().refs()
    }
}

impl EnvironmentData {
    /// The handles that the record holds: those of its bindings.
    pub open spec fn refs(self) -> Seq<HeapRef> {
        bindings_refs(self.bindings@)
    }

    /// Whether the sweep kept every slot that the record names.
    pub open spec fn mapped(self, c: CompactionLists) -> bool {
        forall|i: int| 0 <= i < self.bindings@.len() ==> (#[trigger] self.bindings@[i]).mapped(c)
    }

    /// Queues the handles that the record holds.
    pub fn mark_values(&self, queues: &mut WorkQueues)
        ensures
            final(queues)@ =~= old(queues)@ + self.refs(),
    {
        let ghost base = queues@;
        let n: usize = self.bindings.len();
        let mut i: usize = 0;
        while i < n
            invariant
                i <= n,
                n == self.bindings@.len(),
                queues@ =~= base + bindings_refs(self.bindings@.take(i as int)),
            decreases n - i,
        {
            proof {
                assert(self.bindings@.take(i + 1).drop_last() =~= self.bindings@.take(i as int));
            }
            self.bindings[i].name.mark_values(queues);
            mark_value_option(&self.bindings[i].value, queues);
            i += 1;
        }
        proof {
            assert(self.bindings@.take(n as int) =~= self.bindings@);
        }
    }

    /// Moves the handles of the record to the places of their slots
    /// after the sweep.
    pub fn sweep_values(&mut self, compactions: &CompactionLists)
        requires
            old(self).mapped(*compactions),
        ensures
            final(self).bindings@ == old(self).bindings@.map_values(
                |b: Binding| b.swept(*compactions),
            ),
    {
        let n: usize = self.bindings.len();
        let mut i: usize = 0;
        while i < n
            invariant
                i <= n,
                n == self.bindings@.len(),
                n == old(self).bindings@.len(),
                forall|j: int|
                    0 <= j < i ==> self.bindings@[j] == old(self).bindings@[j].swept(*compactions),
                forall|j: int| i <= j < n ==> self.bindings@[j] == old(self).bindings@[j],
                forall|j: int|
                    0 <= j < n ==> (#[trigger] old(self).bindings@[j]).mapped(*compactions),
            decreases n - i,
        {
            let mut b = self.bindings[i];
            assert(old(self).bindings@[i as int].mapped(*compactions));
            b.name.sweep_values(compactions);
            sweep_value_option(&mut b.value, compactions);
            self.bindings.set(i, b);
            i += 1;
        }
        proof {
            assert(self.bindings@ =~= old(self).bindings@.map_values(
                |b: Binding| b.swept(*compactions),
            ));
        }
    }

    /// Whether the sweep kept every slot that the record names.
    pub fn is_mapped(&self, compactions: &CompactionLists) -> (r: bool)
        ensures
            r == self.mapped(*compactions),
    {
        let n: usize = self.bindings.len();
        let mut i: usize = 0;
        while i < n
            invariant
                i <= n,
                n == self.bindings@.len(),
                forall|j: int| 0 <= j < i ==> (#[trigger] self.bindings@[j]).mapped(*compactions),
            decreases n - i,
        {
            if !self.bindings[i].name.is_mapped(compactions) || !is_value_option_mapped(
                &self.bindings[i].value,
                compactions,
            ) {
                return false;
            }
            i += 1;
        }
        true
    }
}

impl ResolvedBinding {
    /// The handles that the resolution holds: those of its module and of
    /// the name of its binding.
    pub open spec fn refs(self) -> Seq<HeapRef> {
        match self {
            ResolvedBinding::Ambiguous => Seq::<HeapRef>::empty(),
            ResolvedBinding::Resolved { module, binding_name } => seq![HeapRef::Module(module)]
                + match binding_name {
                Some(name) => name.refs(),
                None => Seq::<HeapRef>::empty(),
            },
        }
    }

    /// Whether the sweep kept every slot that the resolution names.
    pub open spec fn mapped(self, c: CompactionLists) -> bool {
        match self {
            ResolvedBinding::Ambiguous => true,
            ResolvedBinding::Resolved { module, binding_name } => module.mapped(c) && (
            binding_name is Some ==> binding_name->0.mapped(c)),
        }
    }

    /// The resolution after the fix-up.
    pub open spec fn swept(self, c: CompactionLists) -> ResolvedBinding {
        match self {
            ResolvedBinding::Ambiguous => ResolvedBinding::Ambiguous,
            ResolvedBinding::Resolved { module, binding_name } => ResolvedBinding::Resolved {
                module: module.swept(c),
                binding_name: match binding_name {
                    Some(name) => Some(name.swept(c)),
                    None => None,
                },
            },
        }
    }

    /// Queues the handles that the resolution holds.
    pub fn mark_values(&self, queues: &mut WorkQueues)
        ensures
            final(queues)@ =~= old(queues)@ + self.refs(),
    {
        match self {
            ResolvedBinding::Ambiguous => {},
            ResolvedBinding::Resolved { module, binding_name } => {
                module.mark_values(queues);
                match binding_name {
                    Some(name) => name.mark_values(queues),
                    None => {},
                }
            },
        }
    }

    /// Moves the handles of the resolution to the places of their slots
    /// after the sweep.
    pub fn sweep_values(&mut self, compactions: &CompactionLists)
        requires
            old(self).mapped(*compactions),
        ensures
            *final(self) == old(self).swept(*compactions),
    {
        match *self {
            ResolvedBinding::Ambiguous => {},
            ResolvedBinding::Resolved { module, binding_name } => {
                let mut module = module;
                module.sweep_values(compactions);
                let binding_name = match binding_name {
                    Some(mut name) => {
                        name.sweep_values(compactions);
                        Some(name)
                    },
                    None => None,
                };
                *self = ResolvedBinding::Resolved { module, binding_name };
            },
        }
    }

    /// Whether the sweep kept every slot that the resolution names.
    pub fn is_mapped(&self, compactions: &CompactionLists) -> (r: bool)
        ensures
            r == self.mapped(*compactions),
    {
        match self {
            ResolvedBinding::Ambiguous => true,
            ResolvedBinding::Resolved { module, binding_name } => {
                compactions.modules.shift_weak_u32_index(module.0).is_some() && match binding_name {
                    Some(name) => name.is_mapped(compactions),
                    None => true,
                }
            },
        }
    }
}

impl AbstractModuleRecord {
    /// The handles that the record holds: those of its environment and
    /// of its namespace.
    pub open spec fn refs(self) -> Seq<HeapRef> {
        (match self.environment {
            Some(e) => seq![HeapRef::Environment(e)],
            None => Seq::<HeapRef>::empty(),
        }) + (match self.namespace {
            Some(m) => seq![HeapRef::Module(m)],
            None => Seq::<HeapRef>::empty(),
        })
    }

    /// Whether the sweep kept every slot that the record names.
    pub open spec fn mapped(self, c: CompactionLists) -> bool {
        &&& (self.environment is Some ==> self.environment->0.mapped(c))
        &&& (self.namespace is Some ==> self.namespace->0.mapped(c))
    }

    /// The record after the fix-up.
    pub open spec fn swept(self, c: CompactionLists) -> AbstractModuleRecord {
        AbstractModuleRecord {
            realm: self.realm,
            environment: match self.environment {
                Some(e) => Some(e.swept(c)),
                None => None,
            },
            namespace: match self.namespace {
                Some(m) => Some(m.swept(c)),
                None => None,
            },
            host_defined: self.host_defined,
        }
    }

    /// Queues the handles that the record holds.
    pub fn mark_values(&self, queues: &mut WorkQueues)
        ensures
            final(queues)@ =~= old(queues)@ + self.refs(),
    {
        match self.environment {
            Some(e) => e.mark_values(queues),
            None => {},
        }
        match self.namespace {
            Some(m) => m.mark_values(queues),
            None => {},
        }
    }

    /// Moves the handles of the record to the places of their slots
    /// after the sweep.
    pub fn sweep_values(&mut self, compactions: &CompactionLists)
        requires
            old(self).mapped(*compactions),
        ensures
            *final(self) == old(self).swept(*compactions),
    {
        match self.environment {
            Some(mut e) => {
                e.sweep_values(compactions);
                self.environment = Some(e);
            },
            None => {},
        }
        match self.namespace {
            Some(mut m) => {
                m.sweep_values(compactions);
                self.namespace = Some(m);
            },
            None => {},
        }
    }

    /// Whether the sweep kept every slot that the record names.
    pub fn is_mapped(&self, compactions: &CompactionLists) -> (r: bool)
        ensures
            r == self.mapped(*compactions),
    {
        (match self.environment {
            Some(e) => compactions.environments.shift_weak_u32_index(e.0).is_some(),
            None => true,
        }) && (match self.namespace {
            Some(m) => compactions.modules.shift_weak_u32_index(m.0).is_some(),
            None => true,
        })
    }
}

/// The handles that the export names hold, name by name.
pub open spec fn names_refs(names: Seq<JsString>) -> Seq<HeapRef>
    decreases names.len(),
{
    if names.len() == 0 {
        Seq::<HeapRef>::empty()
    } else {
        names_refs(names.drop_last()) + names.last().refs()
    }
}

/// The handles that the resolutions hold, resolution by resolution.
pub open spec fn resolutions_refs(resolutions: Seq<ResolvedBinding>) -> Seq<HeapRef>
    decreases resolutions.len(),
{
    if resolutions.len() == 0 {
        Seq::<HeapRef>::empty()
    } else {
        resolutions_refs(resolutions.drop_last()) + resolutions.last().refs()
    }
}

impl ModuleHeapData {
    /// The handles that the record holds: those of its backing object,
    /// of its export names, of its resolutions and of its module record.
    pub open spec fn refs(self) -> Seq<HeapRef> {
        object_option_refs(self.object_index) + names_refs(self.exports@) + resolutions_refs(
            self.resolutions@,
        ) + self.module.refs()
    }

    /// Whether the sweep kept every slot that the record names.
    pub open spec fn mapped(self, c: CompactionLists) -> bool {
        &&& object_option_mapped(self.object_index, c)
        &&& forall|i: int| 0 <= i < self.exports@.len() ==> (#[trigger] self.exports@[i]).mapped(c)
        &&& forall|i: int|
            0 <= i < self.resolutions@.len() ==> (#[trigger] self.resolutions@[i]).mapped(c)
        &&& self.module.mapped(c)
    }

    /// Queues the handles that the record holds.
    pub fn mark_values(&self, queues: &mut WorkQueues)
        ensures
            final(queues)@ =~= old(queues)@ + self.refs(),
    {
        mark_object_option(&self.object_index, queues);
        let ghost base = queues@;
        let n: usize = self.exports.len();
        let mut i: usize = 0;
        while i < n
            invariant
                i <= n,
                n == self.exports@.len(),
                queues@ =~= base + names_refs(self.exports@.take(i as int)),
            decreases n - i,
        {
            proof {
                assert(self.exports@.take(i + 1).drop_last() =~= self.exports@.take(i as int));
            }
            self.exports[i].mark_values(queues);
            i += 1;
        }
        proof {
            assert(self.exports@.take(n as int) =~= self.exports@);
        }
        let ghost base2 = queues@;
        let m: usize = self.resolutions.len();
        let mut j: usize = 0;
        while j < m
            invariant
                j <= m,
                m == self.resolutions@.len(),
                queues@ =~= base2 + resolutions_refs(self.resolutions@.take(j as int)),
            decreases m - j,
        {
            proof {
                assert(self.resolutions@.take(j + 1).drop_last() =~= self.resolutions@.take(
                    j as int,
                ));
            }
            self.resolutions[j].mark_values(queues);
            j += 1;
        }
        proof {
            assert(self.resolutions@.take(m as int) =~= self.resolutions@);
        }
        self.module.mark_values(queues);
    }

    /// Moves the handles of the record to the places of their slots
    /// after the sweep.
    pub fn sweep_values(&mut self, compactions: &CompactionLists)
        requires
            old(self).mapped(*compactions),
        ensures
            final(self).object_index == object_option_swept(old(self).object_index, *compactions),
            final(self).exports@ == old(self).exports@.map_values(
                |x: JsString| x.swept(*compactions),
            ),
            final(self).resolutions@ == old(self).resolutions@.map_values(
                |x: ResolvedBinding| x.swept(*compactions),
            ),
            final(self).module == old(self).module.swept(*compactions),
    {
        sweep_object_option(&mut self.object_index, compactions);
        self.module.sweep_values(compactions);
        let n: usize = self.exports.len();
        let mut i: usize = 0;
        while i < n
            invariant
                i <= n,
                n == self.exports@.len(),
                n == old(self).exports@.len(),
                self.object_index == object_option_swept(old(self).object_index, *compactions),
                self.module == old(self).module.swept(*compactions),
                self.resolutions == old(self).resolutions,
                forall|j: int|
                    0 <= j < i ==> self.exports@[j] == old(self).exports@[j].swept(*compactions),
                forall|j: int| i <= j < n ==> self.exports@[j] == old(self).exports@[j],
                forall|j: int| 0 <= j < n ==> (#[trigger] old(self).exports@[j]).mapped(*compactions),
            decreases n - i,
        {
            let mut x = self.exports[i];
            assert(old(self).exports@[i as int].mapped(*compactions));
            x.sweep_values(compactions);
            self.exports.set(i, x);
            i += 1;
        }
        let m: usize = self.resolutions.len();
        let mut k: usize = 0;
        while k < m
            invariant
                k <= m,
                m == self.resolutions@.len(),
                m == old(self).resolutions@.len(),
                self.object_index == object_option_swept(old(self).object_index, *compactions),
                self.module == old(self).module.swept(*compactions),
                self.exports@ =~= old(self).exports@.map_values(
                    |x: JsString| x.swept(*compactions),
                ),
                forall|j: int|
                    0 <= j < k ==> self.resolutions@[j] == old(self).resolutions@[j].swept(
                        *compactions,
                    ),
                forall|j: int| k <= j < m ==> self.resolutions@[j] == old(self).resolutions@[j],
                forall|j: int|
                    0 <= j < m ==> (#[trigger] old(self).resolutions@[j]).mapped(*compactions),
            decreases m - k,
        {
            let mut x = self.resolutions[k];
            assert(old(self).resolutions@[k as int].mapped(*compactions));
            x.sweep_values(compactions);
            self.resolutions.set(k, x);
            k += 1;
        }
        proof {
            assert(self.resolutions@ =~= old(self).resolutions@.map_values(
                |x: ResolvedBinding| x.swept(*compactions),
            ));
        }
    }

    /// Whether the sweep kept every slot that the record names.
    pub fn is_mapped(&self, compactions: &CompactionLists) -> (r: bool)
        ensures
            r == self.mapped(*compactions),
    {
        if !is_object_option_mapped(&self.object_index, compactions) || !self.module.is_mapped(
            compactions,
        ) {
            return false;
        }
        let n: usize = self.exports.len();
        let mut i: usize = 0;
        while i < n
            invariant
                i <= n,
                n == self.exports@.len(),
                forall|j: int| 0 <= j < i ==> (#[trigger] self.exports@[j]).mapped(*compactions),
            decreases n - i,
        {
            if !self.exports[i].is_mapped(compactions) {
                return false;
            }
            i += 1;
        }
        let m: usize = self.resolutions.len();
        let mut k: usize = 0;
        while k < m
            invariant
                k <= m,
                m == self.resolutions@.len(),
                forall|j: int|
                    0 <= j < k ==> (#[trigger] self.resolutions@[j]).mapped(*compactions),
            decreases m - k,
        {
            if !self.resolutions[k].is_mapped(compactions) {
                return false;
            }
            k += 1;
        }
        true
    }
}

impl Base {
    /// The handles that the base holds.
    pub open spec fn refs(self) -> Seq<HeapRef> {
        match self {
            Base::Value(v) => v.heap_ref_seq(),
            Base::Environment(e) => seq![HeapRef::Environment(e)],
            Base::Unresolvable => Seq::<HeapRef>::empty(),
        }
    }

    /// Whether the sweep kept the slot that the base names, if it names one.
    pub open spec fn mapped(self, c: CompactionLists) -> bool {
        match self {
            Base::Value(v) => v.mapped(c),
            Base::Environment(e) => e.mapped(c),
            Base::Unresolvable => true,
        }
    }

    /// The base after the fix-up.
    pub open spec fn swept(self, c: CompactionLists) -> Base {
        match self {
            Base::Value(v) => Base::Value(v.swept(c)),
            Base::Environment(e) => Base::Environment(e.swept(c)),
            Base::Unresolvable => Base::Unresolvable,
        }
    }

    /// Queues the handles that the base holds.
    pub fn mark_values(&self, queues: &mut WorkQueues)
        ensures
            final(queues)@ =~= old(queues)@ + self.refs(),
    {
        match self {
            Base::Value(value) => value.mark_values(queues),
            Base::Environment(idx) => idx.mark_values(queues),
            Base::Unresolvable => {},
        }
    }

    /// Moves the handle of the base to the place of its slot after the
    /// sweep.
    pub fn sweep_values(&mut self, compactions: &CompactionLists)
        requires
            old(self).mapped(*compactions),
        ensures
            *final(self) == old(self).swept(*compactions),
    {
        match *self {
            Base::Value(mut value) => {
                value.sweep_values(compactions);
                *self = Base::Value(value);
            },
            Base::Environment(mut idx) => {
                idx.sweep_values(compactions);
                *self = Base::Environment(idx);
            },
            Base::Unresolvable => {},
        }
    }
}

impl Reference {
    /// The handles that the reference holds: those of its base, of its
    /// name and of its `this` value.
    pub open spec fn refs(self) -> Seq<HeapRef> {
        self.base.refs() + self.referenced_name.refs() + value_option_refs(self.this_value)
    }

    /// Whether the sweep kept every slot that the reference names.
    pub open spec fn mapped(self, c: CompactionLists) -> bool {
        &&& self.base.mapped(c)
        &&& self.referenced_name.mapped(c)
        &&& value_option_mapped(self.this_value, c)
    }

    /// The reference after the fix-up.
    pub open spec fn swept(self, c: CompactionLists) -> Reference {
        Reference {
            base: self.base.swept(c),
            referenced_name: self.referenced_name.swept(c),
            strict: self.strict,
            this_value: value_option_swept(self.this_value, c),
        }
    }

    /// Queues the handles that the reference holds.
    pub fn mark_values(&self, queues: &mut WorkQueues)
        ensures
            final(queues)@ =~= old(queues)@ + self.refs(),
    {
        self.base.mark_values(queues);
        self.referenced_name.mark_values(queues);
        mark_value_option(&self.this_value, queues);
    }

    /// Moves the handles of the reference to the places of their slots
    /// after the sweep.
    pub fn sweep_values(&mut self, compactions: &CompactionLists)
        requires
            old(self).mapped(*compactions),
        ensures
            *final(self) == old(self).swept(*compactions),
    {
        self.base.sweep_values(compactions);
        self.referenced_name.sweep_values(compactions);
        sweep_value_option(&mut self.this_value, compactions);
    }
}

/// Whether the sweep kept every slot that the handles of `refs` name.
pub open spec fn all_kept(refs: Seq<HeapRef>, c: CompactionLists) -> bool {
    forall|k: int| 0 <= k < refs.len() ==> c.image(#[trigger] refs[k]) is Some
}

/// The sweep kept the slots of two sequences of handles when it kept
/// those of both of them.
pub proof fn lemma_all_kept_concat(a: Seq<HeapRef>, b: Seq<HeapRef>, c: CompactionLists)
    ensures
        all_kept(a + b, c) <==> all_kept(a, c) && all_kept(b, c),
{
    if all_kept(a + b, c) {
        assert forall|k: int| 0 <= k < a.len() implies c.image(#[trigger] a[k]) is Some by {
            assert((a + b)[k] == a[k]);
        }
        assert forall|k: int| 0 <= k < b.len() implies c.image(#[trigger] b[k]) is Some by {
            assert((a + b)[a.len() + k] == b[k]);
        }
    }
    if all_kept(a, c) && all_kept(b, c) {
        assert forall|k: int| 0 <= k < (a + b).len() implies c.image(#[trigger] (a + b)[k])
            is Some by {
            if k < a.len() {
                assert((a + b)[k] == a[k]);
            } else {
                assert((a + b)[k] == b[k - a.len()]);
            }
        }
    }
}

/// The sweep kept the slot that a value names when it kept the slots of
/// its handles.
pub proof fn lemma_value_kept(v: Value, c: CompactionLists)
    ensures
        all_kept(v.heap_ref_seq(), c) <==> v.mapped(c),
{
    if v.heap_ref() is Some {
        assert(v.heap_ref_seq()[0] == v.heap_ref()->0);
    }
}

/// The sweep kept the slot of an optional object when it kept the slots
/// of its handles.
pub proof fn lemma_object_option_kept(o: Option<OrdinaryObject>, c: CompactionLists)
    ensures
        all_kept(object_option_refs(o), c) <==> object_option_mapped(o, c),
{
    if o is Some {
        assert(object_option_refs(o)[0] == HeapRef::Object(o->0));
    }
}

/// The sweep kept every slot that a property names when it kept the
/// slots of its handles.
pub proof fn lemma_entry_kept(e: PropertyEntry, c: CompactionLists)
    ensures
        all_kept(e.refs(), c) <==> e.mapped(c),
{
    lemma_all_kept_concat(e.key.refs(), e.value.heap_ref_seq(), c);
    lemma_value_kept(e.key.handle_value(), c);
    lemma_value_kept(e.value, c);
}

/// The sweep kept every slot that the properties name when it kept the
/// slots of their handles.
pub proof fn lemma_entries_kept(entries: Seq<PropertyEntry>, c: CompactionLists)
    ensures
        all_kept(entries_refs(entries), c) <==> forall|i: int|
            0 <= i < entries.len() ==> (#[trigger] entries[i]).mapped(c),
    decreases entries.len(),
{
    if entries.len() > 0 {
        let init = entries.drop_last();
        lemma_entries_kept(init, c);
        lemma_all_kept_concat(entries_refs(init), entries.last().refs(), c);
        lemma_entry_kept(entries.last(), c);
        if all_kept(entries_refs(entries), c) {
            assert forall|i: int| 0 <= i < entries.len() implies (#[trigger] entries[i]).mapped(
                c,
            ) by {
                if i < init.len() {
                    assert(init[i] == entries[i]);
                }
            }
        }
        if forall|i: int| 0 <= i < entries.len() ==> (#[trigger] entries[i]).mapped(c) {
            assert forall|i: int| 0 <= i < init.len() implies (#[trigger] init[i]).mapped(c) by {
                assert(init[i] == entries[i]);
            }
            assert(entries[entries.len() - 1].mapped(c));
        }
    }
}

/// The sweep kept every slot that a binding names when it kept the slots
/// of its handles.
pub proof fn lemma_binding_kept(b: Binding, c: CompactionLists)
    ensures
        all_kept(b.refs(), c) <==> b.mapped(c),
{
    lemma_all_kept_concat(b.name.refs(), value_option_refs(b.value), c);
    lemma_value_kept(b.name.spec_into_value(), c);
    if b.value is Some {
        lemma_value_kept(b.value->0, c);
    }
}

/// The sweep kept every slot that the bindings name when it kept the
/// slots of their handles.
pub proof fn lemma_bindings_kept(bindings: Seq<Binding>, c: CompactionLists)
    ensures
        all_kept(bindings_refs(bindings), c) <==> forall|i: int|
            0 <= i < bindings.len() ==> (#[trigger] bindings[i]).mapped(c),
    decreases bindings.len(),
{
    if bindings.len() > 0 {
        let init = bindings.drop_last();
        lemma_bindings_kept(init, c);
        lemma_all_kept_concat(bindings_refs(init), bindings.last().refs(), c);
        lemma_binding_kept(bindings.last(), c);
        if all_kept(bindings_refs(bindings), c) {
            assert forall|i: int| 0 <= i < bindings.len() implies (#[trigger] bindings[i]).mapped(
                c,
            ) by {
                if i < init.len() {
                    assert(init[i] == bindings[i]);
                }
            }
        }
        if forall|i: int| 0 <= i < bindings.len() ==> (#[trigger] bindings[i]).mapped(c) {
            assert forall|i: int| 0 <= i < init.len() implies (#[trigger] init[i]).mapped(c) by {
                assert(init[i] == bindings[i]);
            }
            assert(bindings[bindings.len() - 1].mapped(c));
        }
    }
}

/// The sweep kept every slot that the names name when it kept the slots
/// of their handles.
pub proof fn lemma_names_kept(names: Seq<JsString>, c: CompactionLists)
    ensures
        all_kept(names_refs(names), c) <==> forall|i: int|
            0 <= i < names.len() ==> (#[trigger] names[i]).mapped(c),
    decreases names.len(),
{
    if names.len() > 0 {
        let init = names.drop_last();
        lemma_names_kept(init, c);
        lemma_all_kept_concat(names_refs(init), names.last().refs(), c);
        lemma_value_kept(names.last().spec_into_value(), c);
        if all_kept(names_refs(names), c) {
            assert forall|i: int| 0 <= i < names.len() implies (#[trigger] names[i]).mapped(c) by {
                if i < init.len() {
                    assert(init[i] == names[i]);
                }
            }
        }
        if forall|i: int| 0 <= i < names.len() ==> (#[trigger] names[i]).mapped(c) {
            assert forall|i: int| 0 <= i < init.len() implies (#[trigger] init[i]).mapped(c) by {
                assert(init[i] == names[i]);
            }
            assert(names[names.len() - 1].mapped(c));
        }
    }
}

/// The sweep kept every slot that a resolution names when it kept the
/// slots of its handles.
pub proof fn lemma_resolution_kept(b: ResolvedBinding, c: CompactionLists)
    ensures
        all_kept(b.refs(), c) <==> b.mapped(c),
{
    match b {
        ResolvedBinding::Ambiguous => {},
        ResolvedBinding::Resolved { module, binding_name } => {
            let head = seq![HeapRef::Module(module)];
            let tail = match binding_name {
                Some(name) => name.refs(),
                None => Seq::<HeapRef>::empty(),
            };
            lemma_all_kept_concat(head, tail, c);
            assert(head[0] == HeapRef::Module(module));
            if binding_name is Some {
                lemma_value_kept(binding_name->0.spec_into_value(), c);
            }
        },
    }
}

/// The sweep kept every slot that the resolutions name when it kept the
/// slots of their handles.
pub proof fn lemma_resolutions_kept(resolutions: Seq<ResolvedBinding>, c: CompactionLists)
    ensures
        all_kept(resolutions_refs(resolutions), c) <==> forall|i: int|
            0 <= i < resolutions.len() ==> (#[trigger] resolutions[i]).mapped(c),
    decreases resolutions.len(),
{
    if resolutions.len() > 0 {
        let init = resolutions.drop_last();
        lemma_resolutions_kept(init, c);
        lemma_all_kept_concat(resolutions_refs(init), resolutions.last().refs(), c);
        lemma_resolution_kept(resolutions.last(), c);
        if all_kept(resolutions_refs(resolutions), c) {
            assert forall|i: int| 0 <= i < resolutions.len() implies (
            #[trigger] resolutions[i]).mapped(c) by {
                if i < init.len() {
                    assert(init[i] == resolutions[i]);
                }
            }
        }
        if forall|i: int| 0 <= i < resolutions.len() ==> (#[trigger] resolutions[i]).mapped(c) {
            assert forall|i: int| 0 <= i < init.len() implies (#[trigger] init[i]).mapped(c) by {
                assert(init[i] == resolutions[i]);
            }
            assert(resolutions[resolutions.len() - 1].mapped(c));
        }
    }
}

impl ArrayBufferHeapData {
    /// The sweep kept every slot that the record names when it kept the
    /// slots of its handles.
    pub proof fn lemma_kept(self, c: CompactionLists)
        ensures
            all_kept(self.refs(), c) <==> self.mapped(c),
    {
        lemma_object_option_kept(self.object_index, c);
    }
}

impl ArrayIteratorHeapData {
    /// The sweep kept every slot that the record names when it kept the
    /// slots of its handles.
    pub proof fn lemma_kept(self, c: CompactionLists)
        ensures
            all_kept(self.refs(), c) <==> self.mapped(c),
    {
        let tail = match self.array {
            Some(o) => o.refs(),
            None => Seq::<HeapRef>::empty(),
        };
        lemma_all_kept_concat(object_option_refs(self.object_index), tail, c);
        lemma_object_option_kept(self.object_index, c);
        if self.array is Some {
            lemma_value_kept(self.array->0.spec_into_value(), c);
        }
    }
}

impl ObjectHeapData {
    /// The sweep kept every slot that the record names when it kept the
    /// slots of its handles.
    pub proof fn lemma_kept(self, c: CompactionLists)
        ensures
            all_kept(self.refs(), c) <==> self.mapped(c),
    {
        lemma_all_kept_concat(
            object_option_refs(self.prototype),
            entries_refs(self.properties@),
            c,
        );
        lemma_object_option_kept(self.prototype, c);
        lemma_entries_kept(self.properties@, c);
    }
}

impl EnvironmentData {
    /// The sweep kept every slot that the record names when it kept the
    /// slots of its handles.
    pub proof fn lemma_kept(self, c: CompactionLists)
        ensures
            all_kept(self.refs(), c) <==> self.mapped(c),
    {
        lemma_bindings_kept(self.bindings@, c);
    }
}

impl AbstractModuleRecord {
    /// The sweep kept every slot that the record names when it kept the
    /// slots of its handles.
    pub proof fn lemma_kept(self, c: CompactionLists)
        ensures
            all_kept(self.refs(), c) <==> self.mapped(c),
    {
        let a = match self.environment {
            Some(e) => seq![HeapRef::Environment(e)],
            None => Seq::<HeapRef>::empty(),
        };
        let b = match self.namespace {
            Some(m) => seq![HeapRef::Module(m)],
            None => Seq::<HeapRef>::empty(),
        };
        lemma_all_kept_concat(a, b, c);
        if self.environment is Some {
            assert(a[0] == HeapRef::Environment(self.environment->0));
        }
        if self.namespace is Some {
            assert(b[0] == HeapRef::Module(self.namespace->0));
        }
    }
}

impl ModuleHeapData {
    /// The sweep kept every slot that the record names when it kept the
    /// slots of its handles.
    pub proof fn lemma_kept(self, c: CompactionLists)
        ensures
            all_kept(self.refs(), c) <==> self.mapped(c),
    {
        let a = object_option_refs(self.object_index);
        let b = names_refs(self.exports@);
        let d = resolutions_refs(self.resolutions@);
        let e = self.module.refs();
        lemma_all_kept_concat(a + b + d, e, c);
        lemma_all_kept_concat(a + b, d, c);
        lemma_all_kept_concat(a, b, c);
        lemma_object_option_kept(self.object_index, c);
        lemma_names_kept(self.exports@, c);
        lemma_resolutions_kept(self.resolutions@, c);
        self.module.lemma_kept(c);
    }
}

} // verus!
