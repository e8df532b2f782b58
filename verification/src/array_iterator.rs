//! Array iterators: the stored record of an iteration over an array-like
//! object.

use crate::heap::Agent;
use crate::object::{object_internal_get, object_ready, spec_object_get};
use crate::small_string::SmallString;
use crate::value::{
    is_outcome, ArrayIterator, JsError, Object, OrdinaryObject, Outcome, PropertyKey, Value,
};
use vstd::prelude::*;

verus! {

/// What an iterator hands out at each step.
#[derive(Debug, Clone, Copy, PartialEq, Eq, Structural)]
pub enum CollectionIteratorKind {
    Key,
    Value,
    KeyAndValue,
}

impl Default for CollectionIteratorKind {
    fn default() -> (r: Self)
        ensures
            r == CollectionIteratorKind::Key,
    {
        CollectionIteratorKind::Key
    }
}

/// The stored record of an array iterator. An iterator without a target
/// is exhausted.
#[derive(Debug, Clone, Copy)]
pub struct ArrayIteratorHeapData {
    pub object_index: Option<OrdinaryObject>,
    pub array: Option<Object>,
    pub next_index: i64,
    pub kind: CollectionIteratorKind,
}

impl Default for ArrayIteratorHeapData {
    fn default() -> (r: Self)
        ensures
            r.object_index is None,
            r.array is None,
            r.next_index == 0,
            r.kind == CollectionIteratorKind::Key,
    {
        ArrayIteratorHeapData {
            object_index: None,
            array: None,
            next_index: 0,
            kind: CollectionIteratorKind::Key,
        }
    }
}

impl ArrayIterator {
    /// The handle of the first slot.
    pub fn _def() -> (r: Self)
        ensures
            r.0 == 0,
    {
        ArrayIterator(0)
    }

    /// The index of the slot that the handle names.
    pub fn get_index(self) -> (r: usize)
        ensures
            r == self.0,
    {
        self.0 as usize
    }

    /// A new iterator over `array` that hands out what `kind` says, from
    /// the first index on.
    pub fn from_object(agent: &mut Agent, array: Object, kind: CollectionIteratorKind) -> (r: Self)
        requires
            old(agent).heap.array_iterators@.len() < u32::MAX,
        ensures
            r.0 == old(agent).heap.array_iterators@.len(),
            final(agent).heap.has_array_iterator(r),
            final(agent).heap.array_iterator(r) == (ArrayIteratorHeapData {
                object_index: None,
                array: Some(array),
                next_index: 0,
                kind,
            }),
            final(agent).heap.array_iterators@ == old(agent).heap.array_iterators@.push(
                Some(final(agent).heap.array_iterator(r)),
            ),
            final(agent).heap.same_but_array_iterators(old(agent).heap),
            final(agent).intrinsics == old(agent).intrinsics,
            final(agent).global_object == old(agent).global_object,
    {
        agent.heap.create_array_iterator(
            ArrayIteratorHeapData { object_index: None, array: Some(array), next_index: 0, kind },
        )
    }

    /// A new iterator over `array` that hands out the values from the
    /// index `index` on.
    pub fn from_vm_iterator(agent: &mut Agent, array: Object, index: u32) -> (r: Self)
        requires
            old(agent).heap.array_iterators@.len() < u32::MAX,
        ensures
            r.0 == old(agent).heap.array_iterators@.len(),
            final(agent).heap.has_array_iterator(r),
            final(agent).heap.array_iterator(r) == (ArrayIteratorHeapData {
                object_index: None,
                array: Some(array),
                next_index: index as i64,
                kind: CollectionIteratorKind::Value,
            }),
            final(agent).heap.array_iterators@ == old(agent).heap.array_iterators@.push(
                Some(final(agent).heap.array_iterator(r)),
            ),
            final(agent).heap.same_but_array_iterators(old(agent).heap),
            final(agent).intrinsics == old(agent).intrinsics,
            final(agent).global_object == old(agent).global_object,
    {
        agent.heap.create_array_iterator(
            ArrayIteratorHeapData {
                object_index: None,
                array: Some(array),
                next_index: index as i64,
                kind: CollectionIteratorKind::Value,
            },
        )
    }

    /// The iterator that `value` names, or `Err` when it names none.
    pub fn try_from_value(value: Value) -> (r: Result<Self, ()>)
        ensures
            r is Ok <==> value is ArrayIterator,
            r is Ok ==> Value::ArrayIterator(r->Ok_0) == value,
    {
        match value {
            Value::ArrayIterator(data) => Ok(data),
            _ => Err(()),
        }
    }

    /// The iterator that `value` names, or `Err` when it names none.
    pub fn try_from_object(value: Object) -> (r: Result<Self, ()>)
        ensures
            r is Ok <==> value is ArrayIterator,
            r is Ok ==> Object::ArrayIterator(r->Ok_0) == value,
    {
        match value {
            Object::ArrayIterator(data) => Ok(data),
            _ => Err(()),
        }
    }

    /// The backing object of the iterator, if it has one.
    pub fn get_backing_object(self, agent: &Agent) -> (r: Option<OrdinaryObject>)
        requires
            agent.heap.has_array_iterator(self),
        ensures
            r == agent.heap.array_iterator(self).object_index,
    {
        match &agent.heap.array_iterators[self.0 as usize] {
            Some(data) => data.object_index,
            None => None,
        }
    }

    /// Gives the iterator its backing object, which it must not have yet.
    pub fn set_backing_object(self, agent: &mut Agent, backing_object: OrdinaryObject)
        requires
            old(agent).heap.has_array_iterator(self),
            old(agent).heap.array_iterator(self).object_index is None,
        ensures
            iterator_replaced(
                *old(agent),
                *final(agent),
                self,
                ArrayIteratorHeapData {
                    object_index: Some(backing_object),
                    ..old(agent).heap.array_iterator(self)
                },
            ),
    {
        match &mut agent.heap.array_iterators[self.0 as usize] {
            Some(data) => {
                data.object_index = Some(backing_object);
            },
            None => {},
        }
        proof {
            assert(final(agent).heap.array_iterators@ =~= old(agent).heap.array_iterators@.update(
                self.0 as int,
                Some(final(agent).heap.array_iterator(self)),
            ));
        }
    }
}

/// Whether `after` is `before` with the record of the iterator `it`
/// replaced by `data`.
pub open spec fn iterator_replaced(
    before: Agent,
    after: Agent,
    it: ArrayIterator,
    data: ArrayIteratorHeapData,
) -> bool {
    &&& after.intrinsics == before.intrinsics
    &&& after.global_object == before.global_object
    &&& after.heap.same_but_array_iterators(before.heap)
    &&& after.heap.array_iterators@ == before.heap.array_iterators@.update(it.0 as int, Some(data))
}

/// The number of elements that `value` stands for as a length: itself
/// when it is an integer that is not negative, zero otherwise.
pub open spec fn spec_to_length(value: Value) -> i64 {
    match value {
        Value::Integer(n) => if n >= 0 {
            n
        } else {
            0
        },
        _ => 0,
    }
}

/// What a step of an iterator comes to.
#[derive(Clone, Copy, Debug, PartialEq, Eq)]
pub enum IteratorStep {
    /// The iteration is over.
    Done,
    /// The next index.
    Key(i64),
    /// The element at the next index.
    Value(Value),
    /// The next index and the element at it.
    KeyAndValue(i64, Value),
}

/// What the next step of an iterator with the record `data` comes to: it
/// is over without a target and at an index that is not below the length
/// of the target; otherwise it hands out what the kind of the iterator
/// says. A read of the target that throws makes the step throw.
pub open spec fn spec_next(agent: Agent, data: ArrayIteratorHeapData) -> Outcome<IteratorStep> {
    match data.array {
        None => Outcome::Normal(IteratorStep::Done),
        Some(target) => match spec_object_get(agent, target, length_key()) {
            Outcome::Throw(kind) => Outcome::Throw(kind),
            Outcome::Normal(length) => if data.next_index >= spec_to_length(length) {
                Outcome::Normal(IteratorStep::Done)
            } else {
                match data.kind {
                    CollectionIteratorKind::Key => Outcome::Normal(
                        IteratorStep::Key(data.next_index),
                    ),
                    _ => match spec_object_get(
                        agent,
                        target,
                        PropertyKey::Integer(data.next_index),
                    ) {
                        Outcome::Throw(kind) => Outcome::Throw(kind),
                        Outcome::Normal(element) => Outcome::Normal(
                            if data.kind == CollectionIteratorKind::Value {
                                IteratorStep::Value(element)
                            } else {
                                IteratorStep::KeyAndValue(data.next_index, element)
                            },
                        ),
                    },
                }
            },
        },
    }
}

/// The record of an iterator after a step that came to `step`: a step
/// that ends the iteration clears the target, and any other step moves to
/// the next index.
pub open spec fn spec_after_next(
    data: ArrayIteratorHeapData,
    step: IteratorStep,
) -> ArrayIteratorHeapData {
    if step == IteratorStep::Done {
        ArrayIteratorHeapData { array: None, ..data }
    } else {
        ArrayIteratorHeapData { next_index: (data.next_index + 1) as i64, ..data }
    }
}

/// The key `length`.
pub open spec fn length_key() -> PropertyKey {
    PropertyKey::SmallString(SmallString::spec_from_chars("length"@))
}

/// Takes the next step of the iterator `it`. The target is read at each
/// step, so that the iteration follows what happens to it. A step that
/// throws leaves the iterator as it was.
pub fn array_iterator_next(
    agent: &mut Agent,
    it: ArrayIterator,
) -> (r: Result<IteratorStep, JsError>)
    requires
        old(agent).heap.has_array_iterator(it),
        old(agent).heap.array_iterator(it).array is Some ==> object_ready(
            old(agent).heap,
            old(agent).heap.array_iterator(it).array->0,
        ),
    ensures
        is_outcome(r, spec_next(*old(agent), old(agent).heap.array_iterator(it))),
        r is Err ==> *final(agent) == *old(agent),
        r is Ok ==> iterator_replaced(
            *old(agent),
            *final(agent),
            it,
            spec_after_next(old(agent).heap.array_iterator(it), r->Ok_0),
        ),
{
    let data = match &agent.heap.array_iterators[it.0 as usize] {
        Some(data) => *data,
        None => ArrayIteratorHeapData::default(),
    };
    proof {
        reveal_strlit("length");
        assert(vstd::utf8::is_ascii_chars("length"@));
        vstd::utf8::is_ascii_chars_encode_utf8("length"@);
    }
    let step = match data.array {
        None => IteratorStep::Done,
        Some(target) => {
            let length_key = PropertyKey::SmallString(SmallString::from_str_unchecked("length"));
            let length = match object_internal_get(agent, target, length_key, target.into_value()) {
                Ok(Value::Integer(n)) => if n >= 0 {
                    n
                } else {
                    0
                },
                Ok(_) => 0,
                Err(e) => {
                    return Err(e);
                },
            };
            if data.next_index >= length {
                IteratorStep::Done
            } else {
                match data.kind {
                    CollectionIteratorKind::Key => IteratorStep::Key(data.next_index),
                    CollectionIteratorKind::Value => {
                        match object_internal_get(
                            agent,
                            target,
                            PropertyKey::Integer(data.next_index),
                            target.into_value(),
                        ) {
                            Ok(element) => IteratorStep::Value(element),
                            Err(e) => {
                                return Err(e);
                            },
                        }
                    },
                    CollectionIteratorKind::KeyAndValue => {
                        match object_internal_get(
                            agent,
                            target,
                            PropertyKey::Integer(data.next_index),
                            target.into_value(),
                        ) {
                            Ok(element) => IteratorStep::KeyAndValue(data.next_index, element),
                            Err(e) => {
                                return Err(e);
                            },
                        }
                    },
                }
            }
        },
    };
    match &mut agent.heap.array_iterators[it.0 as usize] {
        Some(stored) => {
            if matches!(step, IteratorStep::Done) {
                stored.array = None;
            } else {
                stored.next_index = data.next_index + 1;
            }
        },
        None => {},
    }
    proof {
        assert(final(agent).heap.array_iterators@ =~= old(agent).heap.array_iterators@.update(
            it.0 as int,
            Some(final(agent).heap.array_iterator(it)),
        ));
    }
    Ok(step)
}

} // verus!
