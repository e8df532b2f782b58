//! The internal methods that every kind of object offers, chosen by the
//! kind that the handle carries.

use crate::heap::{Agent, Heap};
use crate::module::{module_ready, spec_module_get, spec_module_get_symbol, ModuleGet};
use crate::ordinary::{
    ordinary_define_own_property, ordinary_get, ordinary_get_own_property, ordinary_set,
    spec_ordinary_get, spec_ordinary_set, ObjectHeapData, PropertyEntry,
};
use crate::value::{
    is_outcome, ExceptionType, JsError, Object, OrdinaryObject, Outcome, PrivateName,
    PropertyDescriptor, PropertyKey, TryResult, Value,
};
use vstd::prelude::*;

verus! {

/// Whether the object `o` can be used: its record is live, and so is its
/// backing object, if it has one.
pub open spec fn object_ready(heap: Heap, o: Object) -> bool {
    match o {
        Object::Object(x) => heap.has_object(x),
        Object::ArrayBuffer(b) => heap.has_array_buffer(b) && (heap.array_buffer(
            b,
        ).object_index is Some ==> heap.has_object(heap.array_buffer(b).object_index->0)),
        Object::ArrayIterator(i) => heap.has_array_iterator(i) && (heap.array_iterator(
            i,
        ).object_index is Some ==> heap.has_object(heap.array_iterator(i).object_index->0)),
        Object::Module(m) => module_ready(heap, m),
    }
}

/// The ordinary object that holds the properties of `o`: `o` itself when
/// it is ordinary, its backing object otherwise.
pub open spec fn spec_backing(heap: Heap, o: Object) -> Option<OrdinaryObject> {
    match o {
        Object::Object(x) => Some(x),
        Object::ArrayBuffer(b) => heap.array_buffer(b).object_index,
        Object::ArrayIterator(i) => heap.array_iterator(i).object_index,
        Object::Module(m) => heap.module(m).object_index,
    }
}

/// The prototype that an object of the kind of `o` has when it is made.
pub open spec fn default_prototype(agent: Agent, o: Object) -> OrdinaryObject {
    match o {
        Object::ArrayBuffer(_) => agent.intrinsics.array_buffer_prototype,
        Object::ArrayIterator(_) => agent.intrinsics.array_iterator_prototype,
        _ => agent.intrinsics.object_prototype,
    }
}

/// The ordinary object where a property lookup on `o` starts: the one
/// that holds its properties, or the prototype of its kind while it has
/// no backing object.
pub open spec fn lookup_start(agent: Agent, o: Object) -> OrdinaryObject {
    match spec_backing(agent.heap, o) {
        Some(x) => x,
        None => default_prototype(agent, o),
    }
}

/// The ordinary object that holds the properties of `o`.
pub fn get_backing_object(agent: &Agent, o: Object) -> (r: Option<OrdinaryObject>)
    requires
        object_ready(agent.heap, o),
    ensures
        r == spec_backing(agent.heap, o),
{
    match o {
        Object::Object(x) => Some(x),
        Object::ArrayBuffer(b) => match &agent.heap.array_buffers[b.0 as usize] {
            Some(data) => data.object_index,
            None => None,
        },
        Object::ArrayIterator(i) => match &agent.heap.array_iterators[i.0 as usize] {
            Some(data) => data.object_index,
            None => None,
        },
        Object::Module(m) => m.get_backing_object(agent),
    }
}

/// The prototype that an object of the kind of `o` has when it is made.
pub fn get_default_prototype(agent: &Agent, o: Object) -> (r: OrdinaryObject)
    ensures
        r == default_prototype(*agent, o),
{
    match o {
        Object::ArrayBuffer(_) => agent.intrinsics.array_buffer_prototype,
        Object::ArrayIterator(_) => agent.intrinsics.array_iterator_prototype,
        _ => agent.intrinsics.object_prototype,
    }
}

/// Whether `after` is `before` with a backing object for `o`: the same
/// agent when `o` has its properties already, and otherwise `before` with
/// one more object, extensible and without properties, whose prototype is
/// that of the kind of `o`, and with `o` pointing to it.
pub open spec fn upgraded(before: Agent, after: Agent, o: Object) -> bool {
    &&& after.intrinsics == before.intrinsics
    &&& after.global_object == before.global_object
    &&& after.heap.modules == before.heap.modules
    &&& after.heap.environments == before.heap.environments
    &&& after.heap.strings == before.heap.strings
    &&& object_ready(after.heap, o)
    &&& spec_backing(after.heap, o) is Some
    &&& match spec_backing(before.heap, o) {
        Some(x) => after.heap.same_records(before.heap),
        None => {
            let x = spec_backing(after.heap, o)->0;
            &&& x.0 == before.heap.objects@.len()
            &&& after.heap.objects@.len() == before.heap.objects@.len() + 1
            &&& after.heap.objects@.take(before.heap.objects@.len() as int)
                == before.heap.objects@
            &&& after.heap.object(x).prototype == Some(default_prototype(before, o))
            &&& after.heap.object(x).extensible
            &&& after.heap.object(x).properties@.len() == 0
            &&& match o {
                Object::ArrayBuffer(b) => {
                    &&& after.heap.array_iterators == before.heap.array_iterators
                    &&& after.heap.array_buffers@.len() == before.heap.array_buffers@.len()
                    &&& forall|i: int|
                        0 <= i < before.heap.array_buffers@.len() && i != b.0
                            ==> after.heap.array_buffers@[i] == before.heap.array_buffers@[i]
                    &&& after.heap.array_buffer(b).buffer == before.heap.array_buffer(b).buffer
                    &&& after.heap.array_buffer(b).detach_key == before.heap.array_buffer(
                        b,
                    ).detach_key
                },
                Object::ArrayIterator(it) => {
                    &&& after.heap.array_buffers == before.heap.array_buffers
                    &&& after.heap.array_iterators@.len() == before.heap.array_iterators@.len()
                    &&& forall|i: int|
                        0 <= i < before.heap.array_iterators@.len() && i != it.0
                            ==> after.heap.array_iterators@[i] == before.heap.array_iterators@[i]
                    &&& after.heap.array_iterator(it).array == before.heap.array_iterator(it).array
                    &&& after.heap.array_iterator(it).next_index == before.heap.array_iterator(
                        it,
                    ).next_index
                    &&& after.heap.array_iterator(it).kind == before.heap.array_iterator(it).kind
                },
                _ => false,
            }
        },
    }
}

/// Gives `o`, which is no module namespace, a backing object if it has
/// none, and returns the ordinary object that holds its properties.
pub fn ensure_backing_object(agent: &mut Agent, o: Object) -> (r: OrdinaryObject)
    requires
        object_ready(old(agent).heap, o),
        !(o is Module),
        old(agent).heap.wf(),
        old(agent).heap.objects@.len() < u32::MAX,
    ensures
        final(agent).heap.wf(),
        upgraded(*old(agent), *final(agent), o),
        spec_backing(final(agent).heap, o) == Some(r),
{
    match get_backing_object(agent, o) {
        Some(x) => x,
        None => {
            let prototype = get_default_prototype(agent, o);
            let x = agent.heap.create_object(ObjectHeapData::new(Some(prototype)));
            match o {
                Object::ArrayBuffer(b) => match &mut agent.heap.array_buffers[b.0 as usize] {
                    Some(data) => {
                        data.object_index = Some(x);
                    },
                    None => {},
                },
                Object::ArrayIterator(i) => match &mut agent.heap.array_iterators[i.0 as usize] {
                    Some(data) => {
                        data.object_index = Some(x);
                    },
                    None => {},
                },
                _ => {},
            }
            proof {
                assert(final(agent).heap.objects@.take(old(agent).heap.objects@.len() as int)
                    =~= old(agent).heap.objects@);
            }
            x
        },
    }
}

/// What a read of `key` comes to on the object `o`: on a module namespace
/// by its own rules, where an export that cannot be read is a
/// `ReferenceError`; on any other object the value that the ordinary
/// object that holds its properties sees, its own or an inherited one, or
/// `undefined`.
pub open spec fn spec_object_get(agent: Agent, o: Object, key: PropertyKey) -> Outcome<Value> {
    match o {
        Object::Module(m) => if key.spec_is_symbolic() {
            Outcome::Normal(spec_module_get_symbol(agent.heap, m, key))
        } else {
            match spec_module_get(agent.heap, m, key) {
                ModuleGet::Value(v) => Outcome::Normal(v),
                _ => Outcome::Throw(ExceptionType::ReferenceError),
            }
        },
        _ => Outcome::Normal(spec_ordinary_get(agent.heap, lookup_start(agent, o), key)),
    }
}

/// Reads the property `key` of `o`.
pub fn object_internal_get(agent: &Agent, o: Object, key: PropertyKey, receiver: Value) -> (r:
    Result<Value, JsError>)
    requires
        object_ready(agent.heap, o),
    ensures
        is_outcome(r, spec_object_get(*agent, o, key)),
{
    match o {
        Object::Module(m) => m.internal_get(agent, key, receiver),
        _ => {
            let start = match get_backing_object(agent, o) {
                Some(x) => x,
                None => get_default_prototype(agent, o),
            };
            Ok(ordinary_get(agent, start, key, receiver))
        },
    }
}

/// Reads the property `key` of `o` without allocating: `Break` where the
/// read would be an error.
pub fn object_try_get(agent: &Agent, o: Object, key: PropertyKey, receiver: Value) -> (r: TryResult<
    Value,
>)
    requires
        object_ready(agent.heap, o),
    ensures
        r == match spec_object_get(*agent, o, key) {
            Outcome::Normal(v) => TryResult::Continue(v),
            Outcome::Throw(_) => TryResult::Break,
        },
{
    match o {
        Object::Module(m) => m.try_get(agent, key, receiver),
        _ => {
            let start = match get_backing_object(agent, o) {
                Some(x) => x,
                None => get_default_prototype(agent, o),
            };
            TryResult::Continue(ordinary_get(agent, start, key, receiver))
        },
    }
}

/// The receiver that an assignment through the backing object `x` of `o`
/// writes to: `x` in place of `o` itself, any other receiver as it is.
pub open spec fn backing_receiver(o: Object, x: OrdinaryObject, receiver: Value) -> Value {
    if receiver == o.spec_into_value() {
        Value::Object(x)
    } else {
        receiver
    }
}

/// Whether `after` is `before` after an assignment of `value` to `key`
/// through the ordinary object `x`, and `r` says whether the assignment
/// was allowed.
pub open spec fn assigned(
    before: Agent,
    after: Agent,
    x: OrdinaryObject,
    key: PropertyKey,
    value: Value,
    receiver: Value,
    r: bool,
) -> bool {
    let table = spec_ordinary_set(before.heap, x, key, value, receiver);
    &&& after.intrinsics == before.intrinsics
    &&& after.global_object == before.global_object
    &&& r == table is Some
    &&& match table {
        Some(t) => {
            let target = receiver->Object_0;
            &&& after.heap.object_replaced(before.heap, target, after.heap.object(target))
            &&& after.heap.object(target).properties@ == t
            &&& after.heap.object(target).prototype == before.heap.object(target).prototype
            &&& after.heap.object(target).extensible == before.heap.object(target).extensible
        },
        None => after.heap.same_records(before.heap),
    }
}

/// Assigns `value` to the property `key` of `o`. A module namespace
/// refuses and stays as it is. Any other object is first given a backing
/// object, if it has none, and the assignment then goes through the
/// ordinary object that holds its properties.
pub fn object_internal_set(
    agent: &mut Agent,
    o: Object,
    key: PropertyKey,
    value: Value,
    receiver: Value,
) -> (r: bool)
    requires
        object_ready(old(agent).heap, o),
        old(agent).heap.wf(),
        old(agent).heap.objects@.len() < u32::MAX,
    ensures
        final(agent).heap.wf(),
        o is Module ==> !r && *final(agent) == *old(agent),
        !(o is Module) ==> exists|mid: Agent|
            #![trigger upgraded(*old(agent), mid, o)]
            upgraded(*old(agent), mid, o) && assigned(
                mid,
                *final(agent),
                spec_backing(mid.heap, o)->0,
                key,
                value,
                backing_receiver(o, spec_backing(mid.heap, o)->0, receiver),
                r,
            ),
{
    match o {
        Object::Module(_) => false,
        _ => {
            let x = ensure_backing_object(agent, o);
            let ghost mid = *agent;
            let rcv = if receiver.same(&o.into_value()) {
                Value::Object(x)
            } else {
                receiver
            };
            let r = ordinary_set(agent, x, key, value, rcv);
            proof {
                assert(upgraded(*old(agent), mid, o));
                assert(assigned(mid, *agent, x, key, value, rcv, r));
            }
            r
        },
    }
}

/// Assigns `value` to the property `key` of `o` without allocating: it
/// stops with `Break`, and changes nothing, where `o` would first have
/// to be given a backing object, and is the full form otherwise.
pub fn object_try_set(
    agent: &mut Agent,
    o: Object,
    key: PropertyKey,
    value: Value,
    receiver: Value,
) -> (r: TryResult<bool>)
    requires
        object_ready(old(agent).heap, o),
        old(agent).heap.wf(),
        old(agent).heap.objects@.len() < u32::MAX,
    ensures
        final(agent).heap.wf(),
        r is Break <==> !(o is Module) && spec_backing(old(agent).heap, o) is None,
        r is Break ==> *final(agent) == *old(agent),
        o is Module ==> r == TryResult::Continue(false) && *final(agent) == *old(agent),
        r is Continue && !(o is Module) ==> assigned(
            *old(agent),
            *final(agent),
            spec_backing(old(agent).heap, o)->0,
            key,
            value,
            backing_receiver(o, spec_backing(old(agent).heap, o)->0, receiver),
            r->Continue_0,
        ),
{
    match o {
        Object::Module(_) => TryResult::Continue(false),
        _ => match get_backing_object(agent, o) {
            None => TryResult::Break,
            Some(x) => {
                let rcv = if receiver.same(&o.into_value()) {
                    Value::Object(x)
                } else {
                    receiver
                };
                TryResult::Continue(ordinary_set(agent, x, key, value, rcv))
            },
        },
    }
}

/// The value of the private element `name` of the object `o`, if `o` has it.
pub open spec fn spec_private_get(heap: Heap, o: Object, name: PrivateName) -> Option<Value> {
    match spec_backing(heap, o) {
        Some(x) => match heap.object(x).index_of(PropertyKey::PrivateName(name)) {
            Some(i) => Some(heap.object(x).properties@[i].value),
            None => None,
        },
        None => None,
    }
}

/// The error of an access to a private element that the object has not.
pub fn throw_no_private_name_error(agent: &Agent) -> (r: JsError)
    ensures
        r.kind == ExceptionType::TypeError,
        r.message@ == "Cannot access a private name that the object does not have."@,
{
    agent.throw_exception_with_static_message(
        ExceptionType::TypeError,
        "Cannot access a private name that the object does not have.",
    )
}

/// Reads the private element `name` of `o`. It is a `TypeError` when `o`
/// has no such element.
pub fn private_get(agent: &Agent, o: Object, name: PrivateName) -> (r: Result<Value, JsError>)
    requires
        object_ready(agent.heap, o),
    ensures
        is_outcome(
            r,
            match spec_private_get(agent.heap, o, name) {
                Some(v) => Outcome::Normal(v),
                None => Outcome::Throw(ExceptionType::TypeError),
            },
        ),
{
    let found = match get_backing_object(agent, o) {
        Some(x) => ordinary_get_own_property(agent, x, PropertyKey::PrivateName(name)),
        None => None,
    };
    match found {
        Some(desc) => match desc.value {
            Some(v) => Ok(v),
            None => Err(throw_no_private_name_error(agent)),
        },
        None => Err(throw_no_private_name_error(agent)),
    }
}

/// The table of the ordinary object that holds the properties of `o`
/// after `value` has been written to its private element `name`, when
/// `o` has that element and it is writable.
pub open spec fn spec_private_set(heap: Heap, o: Object, name: PrivateName, value: Value) -> Option<
    Seq<PropertyEntry>,
> {
    match spec_backing(heap, o) {
        Some(x) => match heap.object(x).index_of(PropertyKey::PrivateName(name)) {
            Some(i) => if heap.object(x).properties@[i].writable {
                Some(
                    heap.object(x).properties@.update(
                        i,
                        PropertyEntry {
                            key: PropertyKey::PrivateName(name),
                            value,
                            writable: true,
                            enumerable: heap.object(x).properties@[i].enumerable,
                            configurable: heap.object(x).properties@[i].configurable,
                        },
                    ),
                )
            } else {
                None
            },
            None => None,
        },
        None => None,
    }
}

/// What a write to a private element leaves of the agent: the table of
/// the ordinary object that holds the properties of `o` is `table` when
/// the write was carried out, and every other record is as before.
pub open spec fn private_written(before: Agent, after: Agent, o: Object, table: Option<
    Seq<PropertyEntry>,
>) -> bool {
    &&& after.intrinsics == before.intrinsics
    &&& after.global_object == before.global_object
    &&& match table {
        Some(t) => {
            let x = spec_backing(before.heap, o)->0;
            &&& after.heap.object_replaced(before.heap, x, after.heap.object(x))
            &&& after.heap.object(x).properties@ == t
            &&& after.heap.object(x).prototype == before.heap.object(x).prototype
            &&& after.heap.object(x).extensible == before.heap.object(x).extensible
        },
        None => after.heap.same_records(before.heap),
    }
}

/// Writes `value` to the private element `name` of `o`. It is a
/// `TypeError`, and nothing changes, when `o` has no such element or the
/// element is not writable.
pub fn private_set(agent: &mut Agent, o: Object, name: PrivateName, value: Value) -> (r: Result<
    (),
    JsError,
>)
    requires
        object_ready(old(agent).heap, o),
        old(agent).heap.wf(),
    ensures
        final(agent).heap.wf(),
        r is Ok <==> spec_private_set(old(agent).heap, o, name, value) is Some,
        r is Err ==> r->Err_0.kind == ExceptionType::TypeError,
        private_written(
            *old(agent),
            *final(agent),
            o,
            spec_private_set(old(agent).heap, o, name, value),
        ),
{
    let key = PropertyKey::PrivateName(name);
    let x = match get_backing_object(agent, o) {
        Some(x) => x,
        None => {
            return Err(throw_no_private_name_error(agent));
        },
    };
    match ordinary_get_own_property(agent, x, key) {
        Some(desc) => {
            if !matches!(desc.writable, Some(true)) {
                return Err(throw_no_private_name_error(agent));
            }
            let update = PropertyDescriptor {
                value: Some(value),
                writable: None,
                get: None,
                set: None,
                enumerable: None,
                configurable: None,
            };
            let done = ordinary_define_own_property(agent, x, key, update);
            proof {
                let data = old(agent).heap.object(x);
                let i = data.index_of(key)->0;
                crate::ordinary::lemma_first_index_from(
                    crate::ordinary::keys_of(data.properties@),
                    key,
                    0,
                );
                assert(data.properties@[i].accepts(update));
                assert(data.properties@[i].applied(update) == PropertyEntry {
                    key,
                    value,
                    writable: true,
                    enumerable: data.properties@[i].enumerable,
                    configurable: data.properties@[i].configurable,
                });
            }
            Ok(())
        },
        None => Err(throw_no_private_name_error(agent)),
    }
}

/// The object that `value` stands for in a property access: an object is
/// itself.
pub open spec fn spec_to_object(value: Value) -> Option<Object> {
    match value {
        Value::Object(o) => Some(Object::Object(o)),
        Value::ArrayBuffer(o) => Some(Object::ArrayBuffer(o)),
        Value::ArrayIterator(o) => Some(Object::ArrayIterator(o)),
        Value::Module(o) => Some(Object::Module(o)),
        _ => None,
    }
}

/// Whether `after` is `before` with one more object, which is extensible,
/// has no properties and has the prototype `prototype`.
pub open spec fn wrapper_created(before: Agent, after: Agent, prototype: OrdinaryObject) -> bool {
    &&& after.intrinsics == before.intrinsics
    &&& after.global_object == before.global_object
    &&& after.heap.same_but_objects(before.heap)
    &&& after.heap.objects@.len() == before.heap.objects@.len() + 1
    &&& after.heap.objects@.take(before.heap.objects@.len() as int) == before.heap.objects@
    &&& after.heap.objects@.last() is Some
    &&& after.heap.objects@.last()->0.prototype == Some(prototype)
    &&& after.heap.objects@.last()->0.extensible
    &&& after.heap.objects@.last()->0.properties@.len() == 0
}

/// The object that `value` stands for: an object is itself; `undefined`
/// and `null` are a `TypeError`; any other primitive gets a new object
/// whose prototype is that of its kind.
pub fn to_object(agent: &mut Agent, value: Value) -> (r: Result<Object, JsError>)
    requires
        old(agent).heap.objects@.len() < u32::MAX,
    ensures
        old(agent).heap.wf() ==> final(agent).heap.wf(),
        spec_to_object(value) is Some ==> r == Ok::<Object, JsError>(spec_to_object(value)->0)
            && *final(agent) == *old(agent),
        value is Undefined || value is Null ==> r is Err && r->Err_0.kind
            == ExceptionType::TypeError && r->Err_0.message@
            == "Cannot convert undefined or null to object"@ && *final(agent) == *old(agent),
        spec_to_object(value) is None && !(value is Undefined) && !(value is Null) ==> r
            == Ok::<Object, JsError>(
            Object::Object(OrdinaryObject(old(agent).heap.objects@.len() as u32)),
        ) && wrapper_created(
            *old(agent),
            *final(agent),
            crate::reference::primitive_prototype(*old(agent), value),
        ),
{
    let prototype = match value {
        Value::Object(o) => {
            return Ok(Object::Object(o));
        },
        Value::ArrayBuffer(o) => {
            return Ok(Object::ArrayBuffer(o));
        },
        Value::ArrayIterator(o) => {
            return Ok(Object::ArrayIterator(o));
        },
        Value::Module(o) => {
            return Ok(Object::Module(o));
        },
        Value::Undefined | Value::Null => {
            return Err(
                agent.throw_exception_with_static_message(
                    ExceptionType::TypeError,
                    "Cannot convert undefined or null to object",
                ),
            );
        },
        Value::Boolean(_) => agent.intrinsics.boolean_prototype,
        Value::SmallString(_) | Value::String(_) => agent.intrinsics.string_prototype,
        Value::Symbol(_) => agent.intrinsics.symbol_prototype,
        Value::SmallBigInt(_) => agent.intrinsics.big_int_prototype,
        _ => agent.intrinsics.number_prototype,
    };
    let o = agent.heap.create_object(ObjectHeapData::new(Some(prototype)));
    proof {
        assert(final(agent).heap.objects@.take(old(agent).heap.objects@.len() as int)
            =~= old(agent).heap.objects@);
    }
    Ok(Object::Object(o))
}

/// Assigns `value` to the property `key` of `o`, with `o` as the
/// receiver. A refused assignment is a `TypeError` when `throw` is set,
/// and passes in silence otherwise.
pub fn set_property(agent: &mut Agent, o: Object, key: PropertyKey, value: Value, throw: bool) -> (r: Result<
    (),
    JsError,
>)
    requires
        object_ready(old(agent).heap, o),
        old(agent).heap.wf(),
        old(agent).heap.objects@.len() < u32::MAX,
    ensures
        final(agent).heap.wf(),
        r is Err ==> throw && r->Err_0.kind == ExceptionType::TypeError && r->Err_0.message@
            == "Could not set property."@,
        o is Module ==> *final(agent) == *old(agent) && (r is Err <==> throw),
        !(o is Module) ==> exists|mid: Agent, succeeded: bool|
            #![trigger upgraded(*old(agent), mid, o), assigned(mid, *final(agent), spec_backing(mid.heap, o)->0, key, value, Value::Object(spec_backing(mid.heap, o)->0), succeeded)]
            upgraded(*old(agent), mid, o) && assigned(
                mid,
                *final(agent),
                spec_backing(mid.heap, o)->0,
                key,
                value,
                Value::Object(spec_backing(mid.heap, o)->0),
                succeeded,
            ) && (r is Err <==> throw && !succeeded),
{
    let ghost start = *agent;
    let succeeded = object_internal_set(agent, o, key, value, o.into_value());
    proof {
        if !(o is Module) {
            let mid = choose|mid: Agent|
                #![trigger upgraded(start, mid, o)]
                upgraded(start, mid, o) && assigned(
                    mid,
                    *agent,
                    spec_backing(mid.heap, o)->0,
                    key,
                    value,
                    backing_receiver(o, spec_backing(mid.heap, o)->0, o.spec_into_value()),
                    succeeded,
                );
            assert(upgraded(start, mid, o) && assigned(
                mid,
                *agent,
                spec_backing(mid.heap, o)->0,
                key,
                value,
                Value::Object(spec_backing(mid.heap, o)->0),
                succeeded,
            ));
        }
    }
    if !succeeded && throw {
        return Err(
            agent.throw_exception_with_static_message(
                ExceptionType::TypeError,
                "Could not set property.",
            ),
        );
    }
    Ok(())
}

} // verus!
