//! Module namespace exotic objects: frozen, prototype-less views of the
//! exports of a module.

use crate::environment::{get_binding_value, spec_env_get, EnvironmentData};
use crate::heap::{Agent, Heap};
use crate::ordinary::{
    first_index, first_index_from, keys_of, keys_of_class, lemma_first_index_from,
    ordinary_define_own_property,
    ordinary_delete, ordinary_get, ordinary_get_own_property, ordinary_has_property,
    ordinary_own_property_keys, spec_lookup, spec_ordinary_get, spec_own_property_keys,
};
use crate::string::{message_of, spec_string_chars, string_to_owned};
use crate::value::{
    same_value, Environment, ExceptionType, JsError, JsString, Module, Object, OrdinaryObject,
    PropertyDescriptor, PropertyKey, TryResult, Value,
};
use vstd::prelude::*;

verus! {

/// Handle of a realm.
#[derive(Clone, Copy, PartialEq, Eq, Structural, Debug)]
pub struct Realm(pub u32);

/// A token of the host that travels with a module.
#[derive(Clone, Copy, PartialEq, Eq, Structural, Debug)]
pub struct HostDefined(pub u64);

/// What resolving an export name comes to.
#[derive(Debug, Clone, Copy)]
pub enum ResolvedBinding {
    /// Several bindings were found.
    Ambiguous,
    /// The binding `binding_name` of `module`, or the namespace of
    /// `module` when there is no name.
    Resolved { module: Module, binding_name: Option<JsString> },
}

/// The fields that every module record has.
#[derive(Debug)]
pub struct AbstractModuleRecord {
    pub realm: Realm,
    pub environment: Option<Environment>,
    pub namespace: Option<Module>,
    pub host_defined: Option<HostDefined>,
}

impl AbstractModuleRecord {
    /// The record of a module of `realm` that has not been linked.
    pub fn new(realm: Realm, host_defined: Option<HostDefined>) -> (r: Self)
        ensures
            r.realm == realm,
            r.environment is None,
            r.namespace is None,
            r.host_defined == host_defined,
    {
        Self { realm, environment: None, namespace: None, host_defined }
    }

    /// The environment of the module, once it is linked.
    pub fn environment(&self) -> (r: Option<Environment>)
        ensures
            r == self.environment,
    {
        self.environment
    }

    /// Gives the module its environment, which it must not have yet.
    pub fn set_environment(&mut self, env: Environment)
        requires
            old(self).environment is None,
        ensures
            final(self).environment == Some(env),
            final(self).realm == old(self).realm,
            final(self).namespace == old(self).namespace,
            final(self).host_defined == old(self).host_defined,
    {
        self.environment = Some(env);
    }

    /// The realm of the module.
    pub fn realm(&self) -> (r: Realm)
        ensures
            r == self.realm,
    {
        self.realm
    }
}

/// The stored record of a module namespace object: the export names in
/// their declared order, what each of them resolves to, and the record
/// of the module.
#[derive(Debug)]
pub struct ModuleHeapData {
    pub object_index: Option<OrdinaryObject>,
    pub exports: Vec<JsString>,
    pub resolutions: Vec<ResolvedBinding>,
    pub module: AbstractModuleRecord,
}

impl ModuleHeapData {
    /// Every export has a resolution, and none is ambiguous.
    pub open spec fn wf(self) -> bool {
        &&& self.exports@.len() == self.resolutions@.len()
        &&& forall|i: int|
            0 <= i < self.resolutions@.len() ==> #[trigger] self.resolutions@[i] is Resolved
    }
}

/// What a read of an export comes to.
#[derive(Clone, Copy, Debug)]
pub enum ModuleGet {
    /// The read gives this value.
    Value(Value),
    /// The module of the binding has no environment yet.
    Unlinked,
    /// The environment has no value for the binding.
    Unbound,
}

/// Whether the target of a resolution can be read: it is resolved, and
/// when it names a binding, its module is live and the environment of
/// that module, if it has one, is live.
pub open spec fn target_ready(heap: Heap, b: ResolvedBinding) -> bool {
    &&& b is Resolved
    &&& (b->binding_name is Some ==> {
        &&& heap.has_module(b->module)
        &&& (heap.module(b->module).module.environment is Some ==> heap.has_environment(
            heap.module(b->module).module.environment->0,
        ))
    })
}

/// Whether the namespace `m` can be used: it is live and well formed, its
/// backing object, if it has one, is live, and every resolution can be
/// read.
pub open spec fn module_ready(heap: Heap, m: Module) -> bool {
    &&& heap.has_module(m)
    &&& heap.module(m).wf()
    &&& (heap.module(m).object_index is Some ==> heap.has_object(heap.module(m).object_index->0))
    &&& forall|i: int|
        0 <= i < heap.module(m).resolutions@.len() ==> target_ready(
            heap,
            #[trigger] heap.module(m).resolutions@[i],
        )
}

/// The position of the export that the key `key` names. An integer, a
/// symbol and a private name name no export.
pub open spec fn export_index(data: ModuleHeapData, key: PropertyKey) -> Option<int> {
    match key.spec_to_js_string() {
        Some(name) => first_index(data.exports@, name),
        None => None,
    }
}

/// What a read of the resolved binding `b` comes to.
pub open spec fn spec_read_binding(heap: Heap, b: ResolvedBinding) -> ModuleGet {
    match b {
        ResolvedBinding::Resolved { module, binding_name } => match binding_name {
            None => ModuleGet::Value(Value::Module(module)),
            Some(name) => match heap.module(module).module.environment {
                None => ModuleGet::Unlinked,
                Some(env) => match spec_env_get(heap.environment(env), name, true) {
                    Some(v) => ModuleGet::Value(v),
                    None => ModuleGet::Unbound,
                },
            },
        },
        ResolvedBinding::Ambiguous => ModuleGet::Unbound,
    }
}

/// What a read of the key `key`, which is no symbol and no private name,
/// comes to on the namespace `m`: `undefined` when `key` names no export,
/// the namespace of the target module when the export resolves to a
/// namespace, the value of the binding otherwise.
pub open spec fn spec_module_get(heap: Heap, m: Module, key: PropertyKey) -> ModuleGet {
    match export_index(heap.module(m), key) {
        None => ModuleGet::Value(Value::Undefined),
        Some(i) => spec_read_binding(heap, heap.module(m).resolutions@[i]),
    }
}

/// The value that a read of the symbol or private name `key` gives on the
/// namespace `m`: that of the backing object, `undefined` without one.
pub open spec fn spec_module_get_symbol(heap: Heap, m: Module, key: PropertyKey) -> Value {
    match heap.module(m).object_index {
        Some(o) => spec_ordinary_get(heap, o, key),
        None => Value::Undefined,
    }
}

/// The descriptor of an export whose value is `value`.
pub open spec fn export_descriptor(value: Value) -> PropertyDescriptor {
    PropertyDescriptor::spec_new_data(value, true, true, false)
}

/// Whether the descriptor `desc` may be defined on an export whose value
/// is `current`: it must ask for nothing but what the export is.
pub open spec fn export_accepts(desc: PropertyDescriptor, current: Value) -> bool {
    &&& desc.configurable != Some(true)
    &&& desc.enumerable != Some(false)
    &&& !desc.spec_is_accessor_descriptor()
    &&& desc.writable != Some(false)
    &&& (desc.value is Some ==> desc.value->0.spec_same_value(current))
}

/// The export names as property keys.
pub open spec fn export_keys(exports: Seq<JsString>) -> Seq<PropertyKey> {
    exports.map_values(|s: JsString| s.spec_into_property_key())
}

/// The own keys of the namespace `m`: the exports in their declared
/// order, then the own keys of the backing object.
pub open spec fn spec_module_own_keys(heap: Heap, m: Module) -> Seq<PropertyKey> {
    export_keys(heap.module(m).exports@) + match heap.module(m).object_index {
        Some(o) => spec_own_property_keys(keys_of(heap.object(o).properties@)),
        None => Seq::<PropertyKey>::empty(),
    }
}

impl ModuleHeapData {
    /// The position of the export that `key` names, if it names one.
    pub fn find_export(&self, key: PropertyKey) -> (r: Option<usize>)
        ensures
            match r {
                Some(i) => export_index(*self, key) == Some(i as int) && i < self.exports@.len(),
                None => export_index(*self, key) is None,
            },
    {
        let name = match key.to_js_string() {
            Some(name) => name,
            None => {
                return None;
            },
        };
        let n: usize = self.exports.len();
        let mut i: usize = 0;
        proof {
            lemma_first_index_from(self.exports@, name, 0);
        }
        while i < n
            invariant
                i <= n,
                n == self.exports@.len(),
                key.spec_to_js_string() == Some(name),
                first_index(self.exports@, name) == first_index_from(self.exports@, name, i as int),
            decreases n - i,
        {
            if self.exports[i].same(&name) {
                return Some(i);
            }
            i += 1;
        }
        None
    }
}

/// Reads the key `key`, which is no symbol and no private name, on the
/// namespace `m`.
pub fn module_get(agent: &Agent, m: Module, key: PropertyKey) -> (r: ModuleGet)
    requires
        module_ready(agent.heap, m),
        !key.spec_is_symbolic(),
    ensures
        r == spec_module_get(agent.heap, m, key),
{
    let binding = match &agent.heap.modules[m.0 as usize] {
        Some(data) => match data.find_export(key) {
            Some(i) => data.resolutions[i],
            None => {
                return ModuleGet::Value(Value::Undefined);
            },
        },
        None => {
            return ModuleGet::Value(Value::Undefined);
        },
    };
    match binding {
        ResolvedBinding::Resolved { module: target_module, binding_name } => match binding_name {
            None => ModuleGet::Value(Value::Module(target_module)),
            Some(name) => {
                let target_env = match &agent.heap.modules[target_module.0 as usize] {
                    Some(target) => target.module.environment(),
                    None => None,
                };
                match target_env {
                    None => ModuleGet::Unlinked,
                    Some(env) => match get_binding_value(agent, env, name, true) {
                        Ok(v) => ModuleGet::Value(v),
                        Err(_) => ModuleGet::Unbound,
                    },
                }
            },
        },
        ResolvedBinding::Ambiguous => ModuleGet::Unbound,
    }
}

impl Module {
    /// The handle of the first slot.
    pub fn _def() -> (r: Self)
        ensures
            r.0 == 0,
    {
        Self::from_u32(0)
    }

    /// The index of the slot that the handle names.
    pub fn get_index(self) -> (r: usize)
        ensures
            r == self.0,
    {
        self.0 as usize
    }

    /// The handle of the slot `value`, which must fit in 32 bits.
    pub fn from_index(value: usize) -> (r: Self)
        requires
            value <= u32::MAX,
        ensures
            r.0 == value,
    {
        Module(value as u32)
    }

    /// The handle of the slot `value`.
    pub fn from_u32(value: u32) -> (r: Self)
        ensures
            r.0 == value,
    {
        Module(value)
    }

    /// The handle of the last slot of `modules`, which must not be empty.
    pub fn last(modules: &Vec<Option<ModuleHeapData>>) -> (r: Self)
        requires
            0 < modules@.len() <= u32::MAX + 1,
        ensures
            r.0 == modules@.len() - 1,
    {
        let index: usize = modules.len() - 1;
        Self::from_index(index)
    }

    /// The backing object that holds the symbol properties of the
    /// namespace, if it has one.
    pub fn get_backing_object(self, agent: &Agent) -> (r: Option<OrdinaryObject>)
        requires
            agent.heap.has_module(self),
        ensures
            r == agent.heap.module(self).object_index,
    {
        match &agent.heap.modules[self.0 as usize] {
            Some(data) => data.object_index,
            None => None,
        }
    }

    /// Gives the namespace its backing object, which it must not have yet.
    pub fn set_backing_object(self, agent: &mut Agent, backing_object: OrdinaryObject)
        requires
            old(agent).heap.has_module(self),
            old(agent).heap.module(self).object_index is None,
        ensures
            final(agent).heap.has_module(self),
            final(agent).heap.module(self).object_index == Some(backing_object),
            final(agent).heap.module(self).exports == old(agent).heap.module(self).exports,
            final(agent).heap.module(self).resolutions == old(agent).heap.module(self).resolutions,
            final(agent).heap.module(self).module == old(agent).heap.module(self).module,
            final(agent).heap.same_but_modules(old(agent).heap),
            final(agent).heap.modules@ == old(agent).heap.modules@.update(
                self.0 as int,
                Some(final(agent).heap.module(self)),
            ),
            final(agent).intrinsics == old(agent).intrinsics,
            final(agent).global_object == old(agent).global_object,
    {
        match &mut agent.heap.modules[self.0 as usize] {
            Some(data) => {
                data.object_index = Some(backing_object);
            },
            None => {},
        }
        proof {
            assert(final(agent).heap.modules@ =~= old(agent).heap.modules@.update(
                self.0 as int,
                Some(final(agent).heap.module(self)),
            ));
        }
    }

    /// A namespace is never extensible.
    pub fn internal_extensible(self, agent: &Agent) -> (r: bool)
        ensures
            !r,
    {
        false
    }

    /// A namespace stays as it is: it cannot be made extensible.
    pub fn internal_set_extensible(self, agent: &mut Agent, value: bool)
        ensures
            *final(agent) == *old(agent),
    {
    }

    /// A namespace has no prototype.
    pub fn internal_prototype(self, agent: &Agent) -> (r: Option<Object>)
        ensures
            r is None,
    {
        None
    }

    /// A namespace stays as it is: it cannot be given a prototype.
    pub fn internal_set_prototype(self, agent: &mut Agent, prototype: Option<Object>)
        ensures
            *final(agent) == *old(agent),
    {
    }

    /// The prototype of a namespace: none.
    pub fn try_get_prototype_of(self, agent: &Agent) -> (r: TryResult<Option<Object>>)
        ensures
            r == TryResult::Continue(None::<Object>),
    {
        TryResult::Continue(None)
    }

    /// Whether the prototype of the namespace is `prototype` afterwards:
    /// only when that is no prototype.
    pub fn try_set_prototype_of(self, agent: &Agent, prototype: Option<Object>) -> (r: TryResult<
        bool,
    >)
        ensures
            r == TryResult::Continue(prototype is None),
    {
        TryResult::Continue(prototype.is_none())
    }

    /// Whether the namespace is extensible: never.
    pub fn try_is_extensible(self, agent: &Agent) -> (r: TryResult<bool>)
        ensures
            r == TryResult::Continue(false),
    {
        TryResult::Continue(false)
    }

    /// Whether the namespace is not extensible afterwards: always.
    pub fn try_prevent_extensions(self, agent: &Agent) -> (r: TryResult<bool>)
        ensures
            r == TryResult::Continue(true),
    {
        TryResult::Continue(true)
    }

    /// Whether the namespace accepts an assignment: never.
    pub fn try_set(self, agent: &Agent, key: PropertyKey, value: Value, receiver: Value) -> (r:
        TryResult<bool>)
        ensures
            r == TryResult::Continue(false),
    {
        TryResult::Continue(false)
    }

    /// Reads the property `key`. A symbol or a private name is read from
    /// the backing object. Another key gives `undefined` when it names no
    /// export, and the value that the export resolves to otherwise; a
    /// read that would be a `ReferenceError` ends in `Break`.
    pub fn try_get(self, agent: &Agent, key: PropertyKey, receiver: Value) -> (r: TryResult<Value>)
        requires
            module_ready(agent.heap, self),
        ensures
            key.spec_is_symbolic() ==> r == TryResult::Continue(
                spec_module_get_symbol(agent.heap, self, key),
            ),
            !key.spec_is_symbolic() ==> r == match spec_module_get(agent.heap, self, key) {
                ModuleGet::Value(v) => TryResult::Continue(v),
                _ => TryResult::Break,
            },
    {
        if key.is_symbolic() {
            match self.get_backing_object(agent) {
                Some(object) => TryResult::Continue(ordinary_get(agent, object, key, receiver)),
                None => TryResult::Continue(Value::Undefined),
            }
        } else {
            match module_get(agent, self, key) {
                ModuleGet::Value(v) => TryResult::Continue(v),
                _ => TryResult::Break,
            }
        }
    }

    /// Reads the property `key`. A symbol or a private name is read from
    /// the backing object. Another key gives `undefined` when it names no
    /// export, and the value that the export resolves to otherwise; it is
    /// a `ReferenceError` when the module of the binding has no
    /// environment yet or the environment no value for the binding.
    pub fn internal_get(self, agent: &Agent, key: PropertyKey, receiver: Value) -> (r: Result<
        Value,
        JsError,
    >)
        requires
            module_ready(agent.heap, self),
        ensures
            key.spec_is_symbolic() ==> r == Ok::<Value, JsError>(
                spec_module_get_symbol(agent.heap, self, key),
            ),
            !key.spec_is_symbolic() ==> match spec_module_get(agent.heap, self, key) {
                ModuleGet::Value(v) => r == Ok::<Value, JsError>(v),
                ModuleGet::Unlinked => r is Err && r->Err_0.kind == ExceptionType::ReferenceError
                    && r->Err_0.message@ == "Could not resolve module '"@ + spec_string_chars(
                    agent.heap,
                    key.spec_to_js_string()->0,
                ) + "'."@,
                ModuleGet::Unbound => r is Err && r->Err_0.kind == ExceptionType::ReferenceError
                    && r->Err_0.message@ == "Cannot access an export before its initialization."@,
            },
    {
        if key.is_symbolic() {
            match self.get_backing_object(agent) {
                Some(object) => Ok(ordinary_get(agent, object, key, receiver)),
                None => Ok(Value::Undefined),
            }
        } else {
            match module_get(agent, self, key) {
                ModuleGet::Value(v) => Ok(v),
                ModuleGet::Unlinked => {
                    let name = match key.to_js_string() {
                        Some(name) => string_to_owned(agent, name),
                        None => String::new(),
                    };
                    let message = message_of("Could not resolve module '", &name, "'.");
                    Err(agent.throw_exception(ExceptionType::ReferenceError, message))
                },
                ModuleGet::Unbound => Err(
                    agent.throw_exception_with_static_message(
                        ExceptionType::ReferenceError,
                        "Cannot access an export before its initialization.",
                    ),
                ),
            }
        }
    }

    /// Whether the namespace has the property `key`: a symbol or a
    /// private name when the backing object or its prototypes have it,
    /// another key when it names an export.
    pub fn try_has_property(self, agent: &Agent, key: PropertyKey) -> (r: TryResult<bool>)
        requires
            module_ready(agent.heap, self),
        ensures
            r == TryResult::Continue(
                if key.spec_is_symbolic() {
                    agent.heap.module(self).object_index is Some && spec_lookup(
                        agent.heap,
                        agent.heap.module(self).object_index->0,
                        key,
                    ) is Some
                } else {
                    export_index(agent.heap.module(self), key) is Some
                },
            ),
    {
        if key.is_symbolic() {
            match self.get_backing_object(agent) {
                Some(object) => TryResult::Continue(ordinary_has_property(agent, object, key)),
                None => TryResult::Continue(false),
            }
        } else {
            match &agent.heap.modules[self.0 as usize] {
                Some(data) => TryResult::Continue(data.find_export(key).is_some()),
                None => TryResult::Continue(false),
            }
        }
    }

    /// The own property `key` as a descriptor: that of the backing object
    /// for a symbol or a private name; for an export its value, writable,
    /// enumerable and not configurable; none for any other key. A read
    /// that would be a `ReferenceError` ends in `Break`.
    pub fn try_get_own_property(self, agent: &Agent, key: PropertyKey) -> (r: TryResult<
        Option<PropertyDescriptor>,
    >)
        requires
            module_ready(agent.heap, self),
        ensures
            key.spec_is_symbolic() ==> r == TryResult::Continue(
                match agent.heap.module(self).object_index {
                    Some(o) => agent.heap.object(o).spec_get_own_property(key),
                    None => None,
                },
            ),
            !key.spec_is_symbolic() ==> r == if export_index(agent.heap.module(self), key) is None {
                TryResult::Continue(None::<PropertyDescriptor>)
            } else {
                match spec_module_get(agent.heap, self, key) {
                    ModuleGet::Value(v) => TryResult::Continue(Some(export_descriptor(v))),
                    _ => TryResult::Break,
                }
            },
    {
        if key.is_symbolic() {
            match self.get_backing_object(agent) {
                Some(object) => TryResult::Continue(ordinary_get_own_property(agent, object, key)),
                None => TryResult::Continue(None),
            }
        } else {
            let exports_contains_p = match &agent.heap.modules[self.0 as usize] {
                Some(data) => data.find_export(key).is_some(),
                None => false,
            };
            if !exports_contains_p {
                TryResult::Continue(None)
            } else {
                match self.try_get(agent, key, Value::Module(self)) {
                    TryResult::Continue(value) => TryResult::Continue(
                        Some(PropertyDescriptor::new_data(value, true, true, false)),
                    ),
                    TryResult::Break => TryResult::Break,
                }
            }
        }
    }

    /// The own property `key` as a descriptor: that of the backing object
    /// for a symbol or a private name; for an export its value, writable,
    /// enumerable and not configurable; none for any other key. It is a
    /// `ReferenceError` when the export cannot be read.
    pub fn internal_get_own_property(self, agent: &Agent, key: PropertyKey) -> (r: Result<
        Option<PropertyDescriptor>,
        JsError,
    >)
        requires
            module_ready(agent.heap, self),
        ensures
            key.spec_is_symbolic() ==> r == Ok::<Option<PropertyDescriptor>, JsError>(
                match agent.heap.module(self).object_index {
                    Some(o) => agent.heap.object(o).spec_get_own_property(key),
                    None => None,
                },
            ),
            !key.spec_is_symbolic() ==> if export_index(agent.heap.module(self), key) is None {
                r == Ok::<Option<PropertyDescriptor>, JsError>(None)
            } else {
                match spec_module_get(agent.heap, self, key) {
                    ModuleGet::Value(v) => r == Ok::<Option<PropertyDescriptor>, JsError>(
                        Some(export_descriptor(v)),
                    ),
                    _ => r is Err && r->Err_0.kind == ExceptionType::ReferenceError,
                }
            },
    {
        if key.is_symbolic() {
            match self.get_backing_object(agent) {
                Some(object) => Ok(ordinary_get_own_property(agent, object, key)),
                None => Ok(None),
            }
        } else {
            let exports_contains_p = match &agent.heap.modules[self.0 as usize] {
                Some(data) => data.find_export(key).is_some(),
                None => false,
            };
            if !exports_contains_p {
                Ok(None)
            } else {
                match self.internal_get(agent, key, Value::Module(self)) {
                    Ok(value) => Ok(Some(PropertyDescriptor::new_data(value, true, true, false))),
                    Err(e) => Err(e),
                }
            }
        }
    }
}

/// What defining `desc` under the key `key`, which is no symbol and no
/// private name, comes to on the namespace `m`: it is refused when `key`
/// names no export, and allowed for an export when `desc` asks for
/// nothing but what the export is; `None` when the export cannot be read.
pub open spec fn spec_module_define(
    heap: Heap,
    m: Module,
    key: PropertyKey,
    desc: PropertyDescriptor,
) -> Option<
    bool,
> {
    if export_index(heap.module(m), key) is None {
        Some(false)
    } else {
        match spec_module_get(heap, m, key) {
            ModuleGet::Value(v) => Some(export_accepts(desc, v)),
            _ => None,
        }
    }
}

/// Whether the descriptor `desc` may be defined on an export whose value
/// is `current`.
pub fn check_export_descriptor(desc: PropertyDescriptor, current: Value) -> (r: bool)
    ensures
        r == export_accepts(desc, current),
{
    if matches!(desc.configurable, Some(true)) {
        return false;
    }
    if matches!(desc.enumerable, Some(false)) {
        return false;
    }
    if desc.is_accessor_descriptor() {
        return false;
    }
    if matches!(desc.writable, Some(false)) {
        return false;
    }
    match desc.value {
        Some(value) => same_value(value, current),
        None => true,
    }
}

/// What a definition or a deletion under a symbol or a private name
/// leaves of the heap: the table of the backing object is `table` when
/// the operation changed it, and every other record is as before.
pub open spec fn backing_changed(before: Heap, after: Heap, m: Module, table: Option<
    Seq<crate::ordinary::PropertyEntry>,
>) -> bool {
    match table {
        Some(t) => {
            let o = before.module(m).object_index->0;
            &&& after.object_replaced(before, o, after.object(o))
            &&& after.object(o).properties@ == t
            &&& after.object(o).prototype == before.object(o).prototype
            &&& after.object(o).extensible == before.object(o).extensible
        },
        None => after.same_records(before),
    }
}

impl Module {
    /// Defines the property `key` by `desc`. A symbol or a private name
    /// is defined on the backing object, and refused without one. For
    /// another key nothing changes: the definition is refused when `key`
    /// names no export, and allowed for an export when `desc` asks for
    /// nothing but what the export is. `Break` when the export cannot be
    /// read.
    pub fn try_define_own_property(
        self,
        agent: &mut Agent,
        key: PropertyKey,
        desc: PropertyDescriptor,
    ) -> (r: TryResult<bool>)
        requires
            module_ready(old(agent).heap, self),
            old(agent).heap.wf(),
        ensures
            final(agent).heap.wf(),
            module_ready(final(agent).heap, self),
            final(agent).intrinsics == old(agent).intrinsics,
            final(agent).global_object == old(agent).global_object,
            key.spec_is_symbolic() ==> {
                let backing = old(agent).heap.module(self).object_index;
                let table = if backing is Some {
                    old(agent).heap.object(backing->0).spec_define(key, desc)
                } else {
                    None
                };
                &&& r == TryResult::Continue(table is Some)
                &&& backing_changed(old(agent).heap, final(agent).heap, self, table)
            },
            !key.spec_is_symbolic() ==> {
                &&& final(agent).heap.same_records(old(agent).heap)
                &&& r == match spec_module_define(old(agent).heap, self, key, desc) {
                    Some(b) => TryResult::Continue(b),
                    None => TryResult::Break,
                }
            },
    {
        if key.is_symbolic() {
            match self.get_backing_object(agent) {
                Some(object) => TryResult::Continue(
                    ordinary_define_own_property(agent, object, key, desc),
                ),
                None => TryResult::Continue(false),
            }
        } else {
            match self.try_get_own_property(agent, key) {
                TryResult::Break => TryResult::Break,
                TryResult::Continue(None) => TryResult::Continue(false),
                TryResult::Continue(Some(current)) => {
                    match current.value {
                        Some(v) => TryResult::Continue(check_export_descriptor(desc, v)),
                        None => TryResult::Continue(false),
                    }
                },
            }
        }
    }

    /// Defines the property `key` by `desc`. A symbol or a private name
    /// is defined on the backing object, and refused without one. For
    /// another key nothing changes: the definition is refused when `key`
    /// names no export, and allowed for an export when `desc` asks for
    /// nothing but what the export is. It is a `ReferenceError` when the
    /// export cannot be read.
    pub fn internal_define_own_property(
        self,
        agent: &mut Agent,
        key: PropertyKey,
        desc: PropertyDescriptor,
    ) -> (r: Result<bool, JsError>)
        requires
            module_ready(old(agent).heap, self),
            old(agent).heap.wf(),
        ensures
            final(agent).heap.wf(),
            module_ready(final(agent).heap, self),
            final(agent).intrinsics == old(agent).intrinsics,
            final(agent).global_object == old(agent).global_object,
            key.spec_is_symbolic() ==> {
                let backing = old(agent).heap.module(self).object_index;
                let table = if backing is Some {
                    old(agent).heap.object(backing->0).spec_define(key, desc)
                } else {
                    None
                };
                &&& r == Ok::<bool, JsError>(table is Some)
                &&& backing_changed(old(agent).heap, final(agent).heap, self, table)
            },
            !key.spec_is_symbolic() ==> {
                &&& final(agent).heap.same_records(old(agent).heap)
                &&& match spec_module_define(old(agent).heap, self, key, desc) {
                    Some(b) => r == Ok::<bool, JsError>(b),
                    None => r is Err && r->Err_0.kind == ExceptionType::ReferenceError,
                }
            },
    {
        if key.is_symbolic() {
            match self.get_backing_object(agent) {
                Some(object) => Ok(ordinary_define_own_property(agent, object, key, desc)),
                None => Ok(false),
            }
        } else {
            let is_accessor_descriptor = desc.is_accessor_descriptor();
            let current = match self.internal_get_own_property(agent, key) {
                Ok(current) => current,
                Err(e) => {
                    return Err(e);
                },
            };
            let current = match current {
                Some(current) => current,
                None => {
                    return Ok(false);
                },
            };
            if matches!(desc.configurable, Some(true)) {
                return Ok(false);
            }
            if matches!(desc.enumerable, Some(false)) {
                return Ok(false);
            }
            if is_accessor_descriptor {
                return Ok(false);
            }
            if matches!(desc.writable, Some(false)) {
                return Ok(false);
            }
            match desc.value {
                Some(value) => {
                    let held = match current.value {
                        Some(v) => v,
                        None => Value::Undefined,
                    };
                    Ok(same_value(value, held))
                },
                None => Ok(true),
            }
        }
    }

    /// Deletes the property `key`. A symbol or a private name is deleted
    /// from the backing object; without one there is nothing to delete.
    /// For another key nothing changes, and the namespace is without the
    /// property exactly when `key` names no export.
    pub fn try_delete(self, agent: &mut Agent, key: PropertyKey) -> (r: TryResult<bool>)
        requires
            module_ready(old(agent).heap, self),
            old(agent).heap.wf(),
        ensures
            final(agent).heap.wf(),
            module_ready(final(agent).heap, self),
            final(agent).intrinsics == old(agent).intrinsics,
            final(agent).global_object == old(agent).global_object,
            key.spec_is_symbolic() ==> {
                let backing = old(agent).heap.module(self).object_index;
                let table = if backing is Some {
                    old(agent).heap.object(backing->0).spec_delete(key)
                } else {
                    None
                };
                &&& r == TryResult::Continue(backing is None || table is Some)
                &&& backing_changed(old(agent).heap, final(agent).heap, self, table)
            },
            !key.spec_is_symbolic() ==> {
                &&& final(agent).heap.same_records(old(agent).heap)
                &&& r == TryResult::Continue(export_index(old(agent).heap.module(self), key) is None)
            },
    {
        if key.is_symbolic() {
            match self.get_backing_object(agent) {
                Some(object) => TryResult::Continue(ordinary_delete(agent, object, key)),
                None => TryResult::Continue(true),
            }
        } else {
            match &agent.heap.modules[self.0 as usize] {
                Some(data) => TryResult::Continue(data.find_export(key).is_none()),
                None => TryResult::Continue(true),
            }
        }
    }

    /// The own keys of the namespace: the exports in their declared
    /// order, then the own keys of the backing object.
    pub fn try_own_property_keys(self, agent: &Agent) -> (r: TryResult<Vec<PropertyKey>>)
        requires
            module_ready(agent.heap, self),
        ensures
            r is Continue,
            r->Continue_0@ == spec_module_own_keys(agent.heap, self),
    {
        let mut own_property_keys: Vec<PropertyKey> = Vec::new();
        match &agent.heap.modules[self.0 as usize] {
            Some(data) => {
                let n: usize = data.exports.len();
                let mut i: usize = 0;
                while i < n
                    invariant
                        i <= n,
                        n == data.exports@.len(),
                        own_property_keys@ =~= export_keys(data.exports@.take(i as int)),
                    decreases n - i,
                {
                    own_property_keys.push(data.exports[i].into_property_key());
                    i += 1;
                }
                proof {
                    assert(data.exports@.take(n as int) =~= data.exports@);
                }
            },
            None => {},
        }
        match self.get_backing_object(agent) {
            Some(object) => {
                let ghost head = own_property_keys@;
                let symbol_keys = ordinary_own_property_keys(agent, object);
                let m: usize = symbol_keys.len();
                let mut j: usize = 0;
                while j < m
                    invariant
                        j <= m,
                        m == symbol_keys@.len(),
                        own_property_keys@ =~= head + symbol_keys@.take(j as int),
                    decreases m - j,
                {
                    own_property_keys.push(symbol_keys[j]);
                    j += 1;
                }
                proof {
                    assert(symbol_keys@.take(m as int) =~= symbol_keys@);
                }
            },
            None => {
                proof {
                    assert(own_property_keys@ + Seq::<PropertyKey>::empty() =~= own_property_keys@);
                }
            },
        }
        TryResult::Continue(own_property_keys)
    }
}

/// A table whose keys are all symbols or private names lists its
/// symbols, as they were added, as its own keys.
pub proof fn lemma_symbol_table_keys(keys: Seq<PropertyKey>)
    requires
        forall|i: int| 0 <= i < keys.len() ==> (#[trigger] keys[i]).spec_is_symbolic(),
    ensures
        spec_own_property_keys(keys) == keys_of_class(keys, 2),
        crate::ordinary::sorted_integer_keys(keys).len() == 0,
        keys_of_class(keys, 1).len() == 0,
    decreases keys.len(),
{
    if keys.len() > 0 {
        let init = keys.drop_last();
        assert forall|i: int| 0 <= i < init.len() implies (#[trigger] init[i]).spec_is_symbolic() by {
            assert(init[i] == keys[i]);
        }
        lemma_symbol_table_keys(init);
        assert(keys.last() == keys[keys.len() - 1]);
        assert(keys.last().spec_is_symbolic());
    }
    assert(spec_own_property_keys(keys) =~= keys_of_class(keys, 2));
}

/// The own keys of a namespace whose backing object holds only symbols
/// and private names are the exports in their declared order, followed
/// by the symbols of the backing object in the order in which they were
/// added.
pub proof fn lemma_module_own_keys(heap: Heap, m: Module)
    requires
        module_ready(heap, m),
        heap.module(m).object_index is Some ==> forall|i: int|
            0 <= i < heap.object(heap.module(m).object_index->0).properties@.len() ==> (
            #[trigger] heap.object(
                heap.module(m).object_index->0,
            ).properties@[i]).key.spec_is_symbolic(),
    ensures
        spec_module_own_keys(heap, m) == export_keys(heap.module(m).exports@) + match heap.module(
            m,
        ).object_index {
            Some(o) => keys_of_class(keys_of(heap.object(o).properties@), 2),
            None => Seq::<PropertyKey>::empty(),
        },
        forall|i: int|
            0 <= i < heap.module(m).exports@.len() ==> spec_module_own_keys(heap, m)[i]
                == heap.module(m).exports@[i].spec_into_property_key(),
{
    if heap.module(m).object_index is Some {
        let keys = keys_of(heap.object(heap.module(m).object_index->0).properties@);
        lemma_symbol_table_keys(keys);
    }
}

/// The operations that every kind of module record offers.
pub trait ModuleAbstractMethods {
    /// Whether the record can be used with the heap of `agent`.
    spec fn usable(&self, agent: &Agent) -> bool;

    /// The names that the module exports.
    fn get_exported_names(&self, agent: &Agent) -> (r: Vec<JsString>)
        requires
            self.usable(agent),
    ;

    /// The binding that the export `export_name` resolves to, or `None`
    /// when the module exports no such name. The same name gives the
    /// same answer every time.
    fn resolve_export(&self, agent: &Agent, export_name: JsString) -> (r: Option<ResolvedBinding>)
        requires
            self.usable(agent),
    ;
}

impl ModuleAbstractMethods for Module {
    open spec fn usable(&self, agent: &Agent) -> bool {
        module_ready(agent.heap, *self)
    }

    fn get_exported_names(&self, agent: &Agent) -> (r: Vec<JsString>)
        ensures
            r@ == agent.heap.module(*self).exports@,
    {
        let mut names: Vec<JsString> = Vec::new();
        match &agent.heap.modules[self.0 as usize] {
            Some(data) => {
                let n: usize = data.exports.len();
                let mut i: usize = 0;
                while i < n
                    invariant
                        i <= n,
                        n == data.exports@.len(),
                        names@ =~= data.exports@.take(i as int),
                    decreases n - i,
                {
                    names.push(data.exports[i]);
                    i += 1;
                }
                proof {
                    assert(data.exports@.take(n as int) =~= data.exports@);
                }
            },
            None => {},
        }
        names
    }

    fn resolve_export(&self, agent: &Agent, export_name: JsString) -> (r: Option<ResolvedBinding>)
        ensures
            r == match first_index(agent.heap.module(*self).exports@, export_name) {
                Some(i) => Some(agent.heap.module(*self).resolutions@[i]),
                None => None,
            },
    {
        match &agent.heap.modules[self.0 as usize] {
            Some(data) => match data.find_export(export_name.into_property_key()) {
                Some(i) => Some(data.resolutions[i]),
                None => None,
            },
            None => None,
        }
    }
}

/// Links the module behind the namespace `m`: a module without an
/// environment gets a new one without bindings; a linked module stays as
/// it is.
pub fn link(agent: &mut Agent, m: Module) -> (r: Option<Environment>)
    requires
        old(agent).heap.has_module(m),
        old(agent).heap.environments@.len() < u32::MAX,
    ensures
        final(agent).heap.has_module(m),
        final(agent).heap.module(m).module.environment == r,
        r is Some,
        old(agent).heap.module(m).module.environment is Some ==> r == old(agent).heap.module(
            m,
        ).module.environment && final(agent).heap.same_records(old(agent).heap),
        old(agent).heap.module(m).module.environment is None ==> {
            &&& r == Some(Environment(old(agent).heap.environments@.len() as u32))
            &&& final(agent).heap.has_environment(r->0)
            &&& final(agent).heap.environment(r->0).bindings@.len() == 0
            &&& final(agent).heap.environments@.len() == old(agent).heap.environments@.len() + 1
        },
        final(agent).heap.module(m).exports == old(agent).heap.module(m).exports,
        final(agent).heap.module(m).resolutions == old(agent).heap.module(m).resolutions,
        final(agent).heap.module(m).object_index == old(agent).heap.module(m).object_index,
        final(agent).heap.objects == old(agent).heap.objects,
        final(agent).heap.array_buffers == old(agent).heap.array_buffers,
        final(agent).heap.strings == old(agent).heap.strings,
{
    let linked = match &agent.heap.modules[m.0 as usize] {
        Some(data) => data.module.environment(),
        None => None,
    };
    match linked {
        Some(env) => Some(env),
        None => {
            let env = agent.heap.create_environment(EnvironmentData::new());
            match &mut agent.heap.modules[m.0 as usize] {
                Some(data) => {
                    data.module.set_environment(env);
                },
                None => {},
            }
            Some(env)
        },
    }
}

} // verus!
