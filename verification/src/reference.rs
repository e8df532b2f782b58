//! Reference records: what the evaluation of an expression leaves behind
//! to name a binding, and the reads and writes through it.

use crate::environment::{
    get_binding_value, initialize_binding, set_mutable_binding, spec_env_get, spec_env_set_bindings,
    spec_env_set_error, Binding, BindingOutcome,
};
use crate::heap::{Agent, Heap};
use crate::object::{
    assigned, backing_receiver, get_backing_object, object_internal_get, object_internal_set,
    object_ready, object_try_get, private_get, private_set, private_written, spec_backing,
    spec_object_get, spec_private_get, spec_private_set, spec_to_object,
    throw_no_private_name_error, upgraded,
};
use crate::ordinary::{ordinary_get, ordinary_set, spec_ordinary_get};
use crate::string::{
    key_display, message_of, spec_key_display, spec_string_property,
    string_get_property_descriptor,
};
use crate::value::{
    is_outcome, is_try_outcome, Environment, ExceptionType, JsError, JsString, Object, Outcome,
    PropertyKey, TryResult, Value,
};
use vstd::prelude::*;

verus! {

/// What holds the binding that a reference names.
#[derive(Debug, PartialEq, Clone, Copy)]
pub enum Base {
    Value(Value),
    Environment(Environment),
    Unresolvable,
}

/// A reference record. A reference with a `this_value` is a super
/// reference.
#[derive(Debug, Clone, Copy)]
pub struct Reference {
    pub base: Base,
    pub referenced_name: PropertyKey,
    pub strict: bool,
    pub this_value: Option<Value>,
}

/// Whether the base of the reference is a value.
pub fn is_property_reference(reference: &Reference) -> (r: bool)
    ensures
        r == (reference.base is Value),
{
    match reference.base {
        Base::Unresolvable => false,
        Base::Environment(_) => false,
        _ => true,
    }
}

/// Whether the binding of the reference could not be resolved.
pub fn is_unresolvable_reference(reference: &Reference) -> (r: bool)
    ensures
        r == (reference.base is Unresolvable),
{
    matches!(reference.base, Base::Unresolvable)
}

/// Whether the reference was made with the `super` keyword.
pub fn is_super_reference(reference: &Reference) -> (r: bool)
    ensures
        r == (reference.this_value is Some),
{
    reference.this_value.is_some()
}

/// Whether the reference names a private element.
pub fn is_private_reference(reference: &Reference) -> (r: bool)
    ensures
        r == (reference.referenced_name is PrivateName),
{
    matches!(reference.referenced_name, PropertyKey::PrivateName(_))
}

/// The `this` value of a property reference: the one it was made with,
/// or its base.
pub open spec fn spec_this_value(reference: Reference) -> Value {
    match reference.this_value {
        Some(v) => v,
        None => reference.base->Value_0,
    }
}

/// The `this` value of a property reference.
pub fn get_this_value(reference: &Reference) -> (r: Value)
    requires
        reference.base is Value,
    ensures
        r == spec_this_value(*reference),
{
    match reference.this_value {
        Some(v) => v,
        None => match reference.base {
            Base::Value(value) => value,
            _ => Value::Undefined,
        },
    }
}

/// The name of a reference into an environment, which is a string.
pub open spec fn spec_binding_name(reference: Reference) -> JsString {
    reference.referenced_name.spec_to_js_string()->0
}

/// Whether the reference can be used with the heap: an object base is
/// usable, a string base in the heap is live and of a length that the
/// machine can count in UTF-16, and an environment base is live and goes
/// with a string name.
pub open spec fn reference_ready(heap: Heap, reference: Reference) -> bool {
    match reference.base {
        Base::Value(v) => {
            &&& (spec_to_object(v) is Some ==> object_ready(heap, spec_to_object(v)->0))
            &&& (v is String ==> heap.has_string(v->String_0) && 4 * heap.string(
                v->String_0,
            ).len() <= usize::MAX)
        },
        Base::Environment(env) => heap.has_environment(env)
            && reference.referenced_name.spec_to_js_string() is Some,
        Base::Unresolvable => true,
    }
}

/// The prototype where a property read on the primitive `value` goes.
pub open spec fn primitive_prototype(agent: Agent, value: Value) -> crate::value::OrdinaryObject {
    match value {
        Value::Boolean(_) => agent.intrinsics.boolean_prototype,
        Value::SmallString(_) | Value::String(_) => agent.intrinsics.string_prototype,
        Value::Symbol(_) => agent.intrinsics.symbol_prototype,
        Value::SmallBigInt(_) => agent.intrinsics.big_int_prototype,
        _ => agent.intrinsics.number_prototype,
    }
}

/// The characters of a string value.
pub open spec fn value_chars(heap: Heap, value: Value) -> Seq<char> {
    match value {
        Value::SmallString(x) => x@,
        Value::String(h) => heap.string(h),
        _ => Seq::<char>::empty(),
    }
}

/// What a read of the property `name` comes to on the primitive `value`:
/// a `TypeError` for a private name and on `undefined` and `null`; on a
/// string its own property, if `name` is one; otherwise what the
/// prototype of the kind of `value` sees.
pub open spec fn spec_primitive_get(
    agent: Agent,
    name: PropertyKey,
    value: Value,
) -> Outcome<Value> {
    if name is PrivateName {
        Outcome::Throw(ExceptionType::TypeError)
    } else if value is Undefined || value is Null {
        Outcome::Throw(ExceptionType::TypeError)
    } else if value.is_string() && spec_string_property(value_chars(agent.heap, value), name) is Some {
        Outcome::Normal(spec_string_property(value_chars(agent.heap, value), name)->0.value->0)
    } else {
        Outcome::Normal(spec_ordinary_get(agent.heap, primitive_prototype(agent, value), name))
    }
}

/// What a read through the reference comes to: a `ReferenceError` when it
/// is unresolvable; the value of the binding for an environment; for a
/// value the private element or the property of the object, or the
/// property as the primitive sees it.
pub open spec fn spec_get_value(agent: Agent, reference: Reference) -> Outcome<Value> {
    match reference.base {
        Base::Unresolvable => Outcome::Throw(ExceptionType::ReferenceError),
        Base::Environment(env) => match spec_env_get(
            agent.heap.environment(env),
            spec_binding_name(reference),
            reference.strict,
        ) {
            Some(v) => Outcome::Normal(v),
            None => Outcome::Throw(ExceptionType::ReferenceError),
        },
        Base::Value(value) => match spec_to_object(value) {
            Some(object) => match reference.referenced_name {
                PropertyKey::PrivateName(name) => match spec_private_get(agent.heap, object, name) {
                    Some(v) => Outcome::Normal(v),
                    None => Outcome::Throw(ExceptionType::TypeError),
                },
                _ => spec_object_get(agent, object, reference.referenced_name),
            },
            None => spec_primitive_get(agent, reference.referenced_name, value),
        },
    }
}

/// The error of a property read on `undefined` or `null`.
pub fn throw_read_undefined_or_null_error(
    agent: &Agent,
    referenced_name: PropertyKey,
    value: Value,
) -> (r:
    JsError)
    ensures
        r.kind == ExceptionType::TypeError,
        r.message@ == nullish_read_message(agent.heap, referenced_name, value),
{
    let name = key_display(agent, referenced_name);
    let error_message = if value.is_undefined() {
        message_of("Cannot read property '", &name, "' of undefined.")
    } else {
        message_of("Cannot read property '", &name, "' of null.")
    };
    agent.throw_exception(ExceptionType::TypeError, error_message)
}

/// Reads the property `referenced_name` on the primitive `value`.
pub fn handle_primitive_get_value(agent: &Agent, referenced_name: PropertyKey, value: Value) -> (r:
    Result<Value, JsError>)
    requires
        spec_to_object(value) is None,
        value is String ==> agent.heap.has_string(value->String_0) && 4 * agent.heap.string(
            value->String_0,
        ).len() <= usize::MAX,
    ensures
        is_outcome(r, spec_primitive_get(*agent, referenced_name, value)),
        !(referenced_name is PrivateName) && (value is Undefined || value is Null)
            ==> r->Err_0.message@ == nullish_read_message(agent.heap, referenced_name, value),
{
    if referenced_name.is_private_name() {
        return Err(throw_no_private_name_error(agent));
    }
    match value {
        Value::Undefined | Value::Null => Err(
            throw_read_undefined_or_null_error(agent, referenced_name, value),
        ),
        Value::Boolean(_) => Ok(
            ordinary_get(agent, agent.intrinsics.boolean_prototype, referenced_name, value),
        ),
        Value::SmallString(x) => {
            proof {
                use_type_invariant(&x);
                x.lemma_char_count();
            }
            match string_get_property_descriptor(x.as_str(), referenced_name) {
                Some(prop_desc) => match prop_desc.value {
                    Some(v) => Ok(v),
                    None => Ok(Value::Undefined),
                },
                None => Ok(
                    ordinary_get(agent, agent.intrinsics.string_prototype, referenced_name, value),
                ),
            }
        },
        Value::String(h) => {
            let found = match &agent.heap.strings[h.0 as usize] {
                Some(data) => string_get_property_descriptor(data.as_str(), referenced_name),
                None => None,
            };
            match found {
                Some(prop_desc) => match prop_desc.value {
                    Some(v) => Ok(v),
                    None => Ok(Value::Undefined),
                },
                None => Ok(
                    ordinary_get(agent, agent.intrinsics.string_prototype, referenced_name, value),
                ),
            }
        },
        Value::Symbol(_) => Ok(
            ordinary_get(agent, agent.intrinsics.symbol_prototype, referenced_name, value),
        ),
        Value::SmallBigInt(_) => Ok(
            ordinary_get(agent, agent.intrinsics.big_int_prototype, referenced_name, value),
        ),
        _ => Ok(ordinary_get(agent, agent.intrinsics.number_prototype, referenced_name, value)),
    }
}

/// Reads the property `referenced_name` on the primitive `value`, in
/// the form that may not allocate. It never has to stop.
pub fn try_handle_primitive_get_value(
    agent: &Agent,
    referenced_name: PropertyKey,
    value: Value,
) -> (r:
    TryResult<Result<Value, JsError>>)
    requires
        spec_to_object(value) is None,
        value is String ==> agent.heap.has_string(value->String_0) && 4 * agent.heap.string(
            value->String_0,
        ).len() <= usize::MAX,
    ensures
        is_try_outcome(r, Some(spec_primitive_get(*agent, referenced_name, value))),
        !(referenced_name is PrivateName) && (value is Undefined || value is Null)
            ==> r->Continue_0->Err_0.message@ == nullish_read_message(
            agent.heap,
            referenced_name,
            value,
        ),
{
    TryResult::Continue(handle_primitive_get_value(agent, referenced_name, value))
}

/// The message of a read through an unresolvable reference of the name
/// `name`.
pub open spec fn undeclared_read_message(heap: Heap, name: PropertyKey) -> Seq<char> {
    "Cannot access undeclared variable '"@ + spec_key_display(heap, name) + "'."@
}

/// The message of a write through an unresolvable reference of the name
/// `name`.
pub open spec fn undeclared_write_message(heap: Heap, name: PropertyKey) -> Seq<char> {
    "Cannot assign to undeclared variable '"@ + spec_key_display(heap, name) + "'."@
}

/// The message of a write that the property `name` refused.
pub open spec fn refused_write_message(heap: Heap, name: PropertyKey) -> Seq<char> {
    "Could not set property '"@ + spec_key_display(heap, name) + "'."@
}

/// The message of a read of the property `name` on `undefined` or `null`.
pub open spec fn nullish_read_message(heap: Heap, name: PropertyKey, value: Value) -> Seq<char> {
    "Cannot read property '"@ + spec_key_display(heap, name) + (if value is Undefined {
        "' of undefined."@
    } else {
        "' of null."@
    })
}

/// Whether a read through the reference is a read of a property, which
/// is no private name, on `undefined` or `null`.
pub open spec fn reads_nullish(reference: Reference) -> bool {
    &&& reference.base is Value
    &&& (reference.base->Value_0 is Undefined || reference.base->Value_0 is Null)
    &&& !(reference.referenced_name is PrivateName)
}

/// Reads the value that the reference names.
pub fn get_value(agent: &Agent, reference: &Reference) -> (r: Result<Value, JsError>)
    requires
        reference_ready(agent.heap, *reference),
    ensures
        is_outcome(r, spec_get_value(*agent, *reference)),
        reference.base is Unresolvable ==> r->Err_0.message@ == undeclared_read_message(
            agent.heap,
            reference.referenced_name,
        ),
        reads_nullish(*reference) ==> r->Err_0.message@ == nullish_read_message(
            agent.heap,
            reference.referenced_name,
            reference.base->Value_0,
        ),
{
    let referenced_name = reference.referenced_name;
    match reference.base {
        Base::Value(value) => {
            match Object::try_from(value) {
                Ok(object) => {
                    match referenced_name {
                        PropertyKey::PrivateName(name) => private_get(agent, object, name),
                        _ => object_internal_get(
                            agent,
                            object,
                            referenced_name,
                            match reference.this_value {
                                Some(v) => v,
                                None => object.into_value(),
                            },
                        ),
                    }
                },
                Err(_) => handle_primitive_get_value(agent, referenced_name, value),
            }
        },
        Base::Environment(env) => {
            match referenced_name.to_js_string() {
                Some(name) => get_binding_value(agent, env, name, reference.strict),
                None => Ok(Value::Undefined),
            }
        },
        Base::Unresolvable => {
            let name = key_display(agent, referenced_name);
            let error_message = message_of("Cannot access undeclared variable '", &name, "'.");
            Err(agent.throw_exception(ExceptionType::ReferenceError, error_message))
        },
    }
}

/// What a read through the reference comes to in the form that may not
/// allocate: as the full form, except that a read of an object property
/// that would be an error stops with `Break`, which `None` stands for.
pub open spec fn spec_try_get_value(agent: Agent, reference: Reference) -> Option<Outcome<Value>> {
    if reference.base is Value && spec_to_object(reference.base->Value_0) is Some && !(
    reference.referenced_name is PrivateName) && spec_get_value(agent, reference) is Throw {
        None
    } else {
        Some(spec_get_value(agent, reference))
    }
}

/// Reads the value that the reference names, in the form that may not
/// allocate.
pub fn try_get_value(agent: &Agent, reference: &Reference) -> (r: TryResult<Result<Value, JsError>>)
    requires
        reference_ready(agent.heap, *reference),
    ensures
        is_try_outcome(r, spec_try_get_value(*agent, *reference)),
        reference.base is Unresolvable ==> r->Continue_0->Err_0.message@
            == undeclared_read_message(agent.heap, reference.referenced_name),
        reads_nullish(*reference) ==> r->Continue_0->Err_0.message@ == nullish_read_message(
            agent.heap,
            reference.referenced_name,
            reference.base->Value_0,
        ),
{
    let referenced_name = reference.referenced_name;
    match reference.base {
        Base::Value(value) => {
            match Object::try_from(value) {
                Ok(object) => {
                    match referenced_name {
                        PropertyKey::PrivateName(name) => TryResult::Continue(
                            private_get(agent, object, name),
                        ),
                        _ => match object_try_get(
                            agent,
                            object,
                            referenced_name,
                            get_this_value(reference),
                        ) {
                            TryResult::Continue(v) => TryResult::Continue(Ok(v)),
                            TryResult::Break => TryResult::Break,
                        },
                    }
                },
                Err(_) => try_handle_primitive_get_value(agent, referenced_name, value),
            }
        },
        Base::Environment(env) => {
            match referenced_name.to_js_string() {
                Some(name) => TryResult::Continue(
                    get_binding_value(agent, env, name, reference.strict),
                ),
                None => TryResult::Continue(Ok(Value::Undefined)),
            }
        },
        Base::Unresolvable => {
            let name = key_display(agent, referenced_name);
            let error_message = message_of("Cannot access undeclared variable '", &name, "'.");
            TryResult::Continue(
                Err(agent.throw_exception(ExceptionType::ReferenceError, error_message)),
            )
        },
    }
}

/// The error of a write of `w` through the reference, if the write is
/// one, where `succeeded` says whether the object of a property
/// reference took the assignment: a `ReferenceError` for an unresolvable
/// reference in strict code; for a property reference a `TypeError` on
/// `undefined` and `null`, for a private element that is missing or not
/// writable, and in strict code when the assignment was refused, as it
/// always is on a primitive; for an environment the error of the
/// assignment to its binding.
pub open spec fn spec_put_value_error(
    agent: Agent,
    v: Reference,
    w: Value,
    succeeded: bool,
) -> Option<
    ExceptionType,
> {
    match v.base {
        Base::Unresolvable => if v.strict {
            Some(ExceptionType::ReferenceError)
        } else {
            None
        },
        Base::Value(base) => match spec_to_object(base) {
            Some(object) => match v.referenced_name {
                PropertyKey::PrivateName(name) => if spec_private_set(agent.heap, object, name, w)
                    is Some {
                    None
                } else {
                    Some(ExceptionType::TypeError)
                },
                _ => if !succeeded && v.strict {
                    Some(ExceptionType::TypeError)
                } else {
                    None
                },
            },
            None => if base is Undefined || base is Null || v.referenced_name is PrivateName
                || v.strict {
                Some(ExceptionType::TypeError)
            } else {
                None
            },
        },
        Base::Environment(env) => spec_env_set_error(
            agent.heap.environment(env),
            spec_binding_name(v),
            w,
            v.strict,
        ),
    }
}

/// What a write of `w` through the reference leaves of the agent, where
/// `succeeded` says whether the object of a property reference took the
/// assignment: an unresolvable reference outside strict code assigns to
/// the global object; a property reference writes the private element of
/// its object or assigns to its property, and leaves a primitive as it
/// is; an environment reference assigns to its binding. A write that is
/// an error for another reason than a refused assignment changes nothing.
pub open spec fn spec_put_value_effect(
    before: Agent,
    after: Agent,
    v: Reference,
    w: Value,
    succeeded: bool,
) -> bool {
    match v.base {
        Base::Unresolvable => if v.strict {
            after == before
        } else {
            exists|r: bool|
                #![trigger assigned(before, after, before.global_object, v.referenced_name, w, Value::Object(before.global_object), r)]
                assigned(
                    before,
                    after,
                    before.global_object,
                    v.referenced_name,
                    w,
                    Value::Object(before.global_object),
                    r,
                )
        },
        Base::Value(base) => match spec_to_object(base) {
            Some(object) => match v.referenced_name {
                PropertyKey::PrivateName(name) => private_written(
                    before,
                    after,
                    object,
                    spec_private_set(before.heap, object, name, w),
                ),
                _ => if object is Module {
                    !succeeded && after == before
                } else {
                    exists|mid: Agent|
                        #![trigger upgraded(before, mid, object)]
                        upgraded(before, mid, object) && assigned(
                            mid,
                            after,
                            spec_backing(mid.heap, object)->0,
                            v.referenced_name,
                            w,
                            backing_receiver(
                                object,
                                spec_backing(mid.heap, object)->0,
                                spec_this_value(v),
                            ),
                            succeeded,
                        )
                },
            },
            None => !succeeded && after == before,
        },
        Base::Environment(env) => {
            &&& after.intrinsics == before.intrinsics
            &&& after.global_object == before.global_object
            &&& after.heap.environment_replaced(before.heap, env, after.heap.environment(env))
            &&& after.heap.environment(env).bindings@ == spec_env_set_bindings(
                before.heap.environment(env),
                spec_binding_name(v),
                w,
                v.strict,
            )
        },
    }
}

/// Whether a write through the reference is an assignment to a property,
/// which is no private name, of a value that is neither `undefined` nor
/// `null`: the write that strict code is told of when it is refused.
pub open spec fn write_is_assignment(v: Reference) -> bool {
    &&& v.base is Value
    &&& !(v.base->Value_0 is Undefined)
    &&& !(v.base->Value_0 is Null)
    &&& !(v.referenced_name is PrivateName)
}

/// Writes `w` to what the reference names.
pub fn put_value(agent: &mut Agent, v: &Reference, w: Value) -> (r: Result<(), JsError>)
    requires
        reference_ready(old(agent).heap, *v),
        old(agent).heap.wf(),
        old(agent).heap.objects@.len() < u32::MAX,
    ensures
        final(agent).heap.wf(),
        exists|succeeded: bool|
            #![trigger spec_put_value_effect(*old(agent), *final(agent), *v, w, succeeded)]
            spec_put_value_effect(*old(agent), *final(agent), *v, w, succeeded) && match spec_put_value_error(
                *old(agent),
                *v,
                w,
                succeeded,
            ) {
                Some(kind) => r is Err && r->Err_0.kind == kind,
                None => r is Ok,
            },
        v.base is Unresolvable && v.strict ==> r->Err_0.message@ == undeclared_write_message(
            old(agent).heap,
            v.referenced_name,
        ),
        r is Err && write_is_assignment(*v) ==> r->Err_0.message@ == refused_write_message(
            final(agent).heap,
            v.referenced_name,
        ),
        v.base is Value && (v.base->Value_0 is Undefined || v.base->Value_0 is Null)
            ==> r->Err_0.message@ == "Cannot convert undefined or null to object"@,
{
    if is_unresolvable_reference(v) {
        if v.strict {
            let name = key_display(agent, v.referenced_name);
            let error_message = message_of("Cannot assign to undeclared variable '", &name, "'.");
            let e = agent.throw_exception(ExceptionType::ReferenceError, error_message);
            proof {
                assert(spec_put_value_effect(*old(agent), *agent, *v, w, false));
            }
            return Err(e);
        }
        let global_obj = agent.global_object;
        let referenced_name = v.referenced_name;
        let done = ordinary_set(agent, global_obj, referenced_name, w, Value::Object(global_obj));
        proof {
            assert(assigned(
                *old(agent),
                *agent,
                global_obj,
                referenced_name,
                w,
                Value::Object(global_obj),
                done,
            ));
            assert(spec_put_value_effect(*old(agent), *agent, *v, w, false));
        }
        Ok(())
    } else if is_property_reference(v) {
        let base = match v.base {
            Base::Value(value) => value,
            _ => Value::Undefined,
        };
        let referenced_name = v.referenced_name;
        let base_obj = match Object::try_from(base) {
            Ok(base_obj) => base_obj,
            Err(_) => {
                proof {
                    assert(spec_put_value_effect(*old(agent), *agent, *v, w, false));
                }
                if matches!(base, Value::Undefined | Value::Null) {
                    return Err(
                        agent.throw_exception_with_static_message(
                            ExceptionType::TypeError,
                            "Cannot convert undefined or null to object",
                        ),
                    );
                }
                if referenced_name.is_private_name() {
                    return Err(throw_no_private_name_error(agent));
                }
                if v.strict {
                    let name = key_display(agent, referenced_name);
                    let error_message = message_of("Could not set property '", &name, "'.");
                    return Err(agent.throw_exception(ExceptionType::TypeError, error_message));
                }
                return Ok(());
            },
        };
        match referenced_name {
            PropertyKey::PrivateName(name) => {
                let r = private_set(agent, base_obj, name, w);
                proof {
                    assert(spec_put_value_effect(*old(agent), *agent, *v, w, false));
                }
                return r;
            },
            _ => {},
        }
        let this_value = get_this_value(v);
        let succeeded = object_internal_set(agent, base_obj, referenced_name, w, this_value);
        proof {
            assert(spec_put_value_effect(*old(agent), *agent, *v, w, succeeded));
        }
        if !succeeded && v.strict {
            let name = key_display(agent, referenced_name);
            let error_message = message_of("Could not set property '", &name, "'.");
            return Err(agent.throw_exception(ExceptionType::TypeError, error_message));
        }
        Ok(())
    } else {
        let env = match v.base {
            Base::Environment(env) => env,
            _ => Environment(0),
        };
        let referenced_name = match v.referenced_name.to_js_string() {
            Some(name) => name,
            None => JsString::String(crate::value::HeapString(0)),
        };
        let r = set_mutable_binding(agent, env, referenced_name, w, v.strict);
        proof {
            assert(spec_put_value_effect(*old(agent), *agent, *v, w, false));
        }
        r
    }
}

/// Gives the binding that the reference names its first value. The
/// reference must name a binding of an environment that has not been
/// initialized: each binding is initialized once.
pub fn initialize_referenced_binding(agent: &mut Agent, v: Reference, w: Value) -> (r: Result<
    (),
    JsError,
>)
    requires
        v.base is Environment,
        reference_ready(old(agent).heap, v),
        old(agent).heap.wf(),
        old(agent).heap.environment(v.base->Environment_0).spec_get_binding_value(
            spec_binding_name(v),
        ) == BindingOutcome::Uninitialized,
    ensures
        r is Ok,
        final(agent).heap.wf(),
        final(agent).intrinsics == old(agent).intrinsics,
        final(agent).global_object == old(agent).global_object,
        final(agent).heap.environment_replaced(
            old(agent).heap,
            v.base->Environment_0,
            final(agent).heap.environment(v.base->Environment_0),
        ),
        final(agent).heap.environment(v.base->Environment_0).spec_get_binding_value(
            spec_binding_name(v),
        ) == BindingOutcome::Done(w),
        ({
            let before = old(agent).heap.environment(v.base->Environment_0);
            let i = before.index_of(spec_binding_name(v))->0;
            final(agent).heap.environment(v.base->Environment_0).bindings@
                == before.bindings@.update(
                i,
                Binding {
                    name: spec_binding_name(v),
                    value: Some(w),
                    mutable: before.bindings@[i].mutable,
                },
            )
        }),
{
    let base = match v.base {
        Base::Environment(env) => env,
        _ => Environment(0),
    };
    let referenced_name = match v.referenced_name.to_js_string() {
        Some(name) => name,
        None => JsString::String(crate::value::HeapString(0)),
    };
    initialize_binding(agent, base, referenced_name, w);
    Ok(())
}

/// Gives the binding that the reference names its first value, in the
/// form that may not allocate. It never has to stop.
pub fn try_initialize_referenced_binding(
    agent: &mut Agent,
    v: Reference,
    w: Value,
) -> (r: TryResult<
    Result<(), JsError>,
>)
    requires
        v.base is Environment,
        reference_ready(old(agent).heap, v),
        old(agent).heap.wf(),
        old(agent).heap.environment(v.base->Environment_0).spec_get_binding_value(
            spec_binding_name(v),
        ) == BindingOutcome::Uninitialized,
    ensures
        r is Continue,
        r->Continue_0 is Ok,
        final(agent).heap.wf(),
        final(agent).intrinsics == old(agent).intrinsics,
        final(agent).global_object == old(agent).global_object,
        final(agent).heap.environment_replaced(
            old(agent).heap,
            v.base->Environment_0,
            final(agent).heap.environment(v.base->Environment_0),
        ),
        final(agent).heap.environment(v.base->Environment_0).spec_get_binding_value(
            spec_binding_name(v),
        ) == BindingOutcome::Done(w),
{
    TryResult::Continue(initialize_referenced_binding(agent, v, w))
}

/// Whether a write through the reference has to allocate: it assigns to
/// a property of an object that is no module namespace and has no
/// backing object yet.
pub open spec fn put_value_allocates(heap: Heap, v: Reference) -> bool {
    &&& v.base is Value
    &&& spec_to_object(v.base->Value_0) is Some
    &&& !(spec_to_object(v.base->Value_0)->0 is Module)
    &&& !(v.referenced_name is PrivateName)
    &&& spec_backing(heap, spec_to_object(v.base->Value_0)->0) is None
}

/// Writes `w` to what the reference names, in the form that may not
/// allocate: it stops with `Break`, and changes nothing, where the write
/// has to allocate, and is the full form otherwise.
pub fn try_put_value(
    agent: &mut Agent,
    v: &Reference,
    w: Value,
) -> (r: TryResult<Result<(), JsError>>)
    requires
        reference_ready(old(agent).heap, *v),
        old(agent).heap.wf(),
        old(agent).heap.objects@.len() < u32::MAX,
    ensures
        final(agent).heap.wf(),
        r is Break <==> put_value_allocates(old(agent).heap, *v),
        r is Break ==> *final(agent) == *old(agent),
        r is Continue ==> exists|succeeded: bool|
            #![trigger spec_put_value_effect(*old(agent), *final(agent), *v, w, succeeded)]
            spec_put_value_effect(*old(agent), *final(agent), *v, w, succeeded) && match spec_put_value_error(
                *old(agent),
                *v,
                w,
                succeeded,
            ) {
                Some(kind) => r->Continue_0 is Err && r->Continue_0->Err_0.kind == kind,
                None => r->Continue_0 is Ok,
            },
        v.base is Unresolvable && v.strict ==> r->Continue_0->Err_0.message@
            == undeclared_write_message(old(agent).heap, v.referenced_name),
{
    match v.base {
        Base::Value(base) => match Object::try_from(base) {
            Ok(base_obj) => {
                if !matches!(base_obj, Object::Module(_)) && !is_private_reference(v)
                    && get_backing_object(agent, base_obj).is_none() {
                    return TryResult::Break;
                }
            },
            Err(_) => {},
        },
        _ => {},
    }
    TryResult::Continue(put_value(agent, v, w))
}

} // verus!
