use nova_vm::environment::{Binding, EnvironmentData};
use nova_vm::heap::Agent;
use nova_vm::module::{
    link, AbstractModuleRecord, HostDefined, ModuleAbstractMethods, ModuleHeapData, Realm,
    ResolvedBinding,
};
use nova_vm::ordinary::ordinary_define_own_property;
use nova_vm::small_string::SmallString;
use nova_vm::value::{
    ExceptionType, JsString, Module, Object, OrdinaryObject, PropertyDescriptor, PropertyKey,
    Symbol, TryResult, Value,
};

fn export_name(s: &str) -> JsString {
    JsString::SmallString(SmallString::try_from(s).unwrap())
}

fn export_key(s: &str) -> PropertyKey {
    PropertyKey::SmallString(SmallString::try_from(s).unwrap())
}

fn export_data(value: i64) -> PropertyDescriptor {
    PropertyDescriptor::new_data(Value::Integer(value), true, true, false)
}

/// A module that exports `a` and `b`, bound to 1 and 2 in its environment.
fn module_a_b(agent: &mut Agent) -> Module {
    let env = agent.heap.create_environment(EnvironmentData {
        bindings: vec![
            Binding { name: export_name("a"), value: Some(Value::Integer(1)), mutable: true },
            Binding { name: export_name("b"), value: Some(Value::Integer(2)), mutable: true },
        ],
    });
    let m = Module(agent.heap.modules.len() as u32);
    let mut record = AbstractModuleRecord::new(Realm(0), None);
    record.set_environment(env);
    agent.heap.create_module(ModuleHeapData {
        object_index: None,
        exports: vec![export_name("a"), export_name("b")],
        resolutions: vec![
            ResolvedBinding::Resolved { module: m, binding_name: Some(export_name("a")) },
            ResolvedBinding::Resolved { module: m, binding_name: Some(export_name("b")) },
        ],
        module: record,
    })
}

fn same_descriptor(a: &PropertyDescriptor, b: &PropertyDescriptor) -> bool {
    a.value == b.value
        && a.writable == b.writable
        && a.get == b.get
        && a.set == b.set
        && a.enumerable == b.enumerable
        && a.configurable == b.configurable
}

#[test]
fn module_namespace() {
    let mut agent = Agent::new();
    let m = module_a_b(&mut agent);
    let this = Value::Module(m);
    assert_eq!(m.internal_get(&agent, export_key("a"), this).unwrap(), Value::Integer(1));
    assert_eq!(m.internal_get(&agent, export_key("b"), this).unwrap(), Value::Integer(2));
    assert_eq!(m.internal_get(&agent, export_key("c"), this).unwrap(), Value::Undefined);
    assert!(matches!(m.try_get(&agent, export_key("a"), this), TryResult::Continue(Value::Integer(1))));
    let desc = m.internal_get_own_property(&agent, export_key("a")).unwrap().unwrap();
    assert!(same_descriptor(&desc, &export_data(1)));
    assert!(m.internal_get_own_property(&agent, export_key("c")).unwrap().is_none());
    assert!(matches!(
        m.try_set(&agent, export_key("a"), Value::Integer(99), this),
        TryResult::Continue(false)
    ));
    assert_eq!(m.internal_get(&agent, export_key("a"), this).unwrap(), Value::Integer(1));
    assert!(m.internal_define_own_property(&mut agent, export_key("a"), export_data(1)).unwrap());
    assert!(!m.internal_define_own_property(&mut agent, export_key("a"), export_data(2)).unwrap());
    assert!(matches!(
        m.try_define_own_property(&mut agent, export_key("a"), export_data(1)),
        TryResult::Continue(true)
    ));
    assert!(matches!(
        m.try_define_own_property(&mut agent, export_key("c"), export_data(1)),
        TryResult::Continue(false)
    ));
    assert!(matches!(m.try_delete(&mut agent, export_key("a")), TryResult::Continue(false)));
    assert!(matches!(m.try_delete(&mut agent, export_key("c")), TryResult::Continue(true)));
    assert!(matches!(m.try_has_property(&agent, export_key("b")), TryResult::Continue(true)));
    assert!(matches!(m.try_has_property(&agent, export_key("c")), TryResult::Continue(false)));
    assert!(matches!(
        m.try_has_property(&agent, PropertyKey::Integer(0)),
        TryResult::Continue(false)
    ));
}

#[test]
fn module_namespace_is_frozen_and_without_prototype() {
    let mut agent = Agent::new();
    let m = module_a_b(&mut agent);
    assert!(matches!(m.try_get_prototype_of(&agent), TryResult::Continue(None)));
    assert!(matches!(m.try_set_prototype_of(&agent, None), TryResult::Continue(true)));
    assert!(matches!(
        m.try_set_prototype_of(&agent, Some(Object::Object(OrdinaryObject(0)))),
        TryResult::Continue(false)
    ));
    assert!(matches!(m.try_is_extensible(&agent), TryResult::Continue(false)));
    assert!(matches!(m.try_prevent_extensions(&agent), TryResult::Continue(true)));
    assert!(!m.internal_extensible(&agent));
    assert!(m.internal_prototype(&agent).is_none());
}

#[test]
fn define_on_export_refuses_what_the_export_is_not() {
    let mut agent = Agent::new();
    let m = module_a_b(&mut agent);
    let mut d = export_data(1);
    d.configurable = Some(true);
    assert!(!m.internal_define_own_property(&mut agent, export_key("a"), d).unwrap());
    let mut d = export_data(1);
    d.enumerable = Some(false);
    assert!(!m.internal_define_own_property(&mut agent, export_key("a"), d).unwrap());
    let mut d = export_data(1);
    d.writable = Some(false);
    assert!(!m.internal_define_own_property(&mut agent, export_key("a"), d).unwrap());
    let mut d = export_data(1);
    d.get = Some(Value::Undefined);
    assert!(!m.internal_define_own_property(&mut agent, export_key("a"), d).unwrap());
    let d = PropertyDescriptor {
        value: None,
        writable: None,
        get: None,
        set: None,
        enumerable: None,
        configurable: None,
    };
    assert!(m.internal_define_own_property(&mut agent, export_key("a"), d).unwrap());
}

#[test]
fn own_keys_are_exports_then_symbols() {
    let mut agent = Agent::new();
    let m = module_a_b(&mut agent);
    let TryResult::Continue(keys) = m.try_own_property_keys(&agent) else {
        panic!("own keys stopped");
    };
    assert_eq!(keys, vec![export_key("a"), export_key("b")]);
    let backing = agent.heap.create_object(nova_vm::ordinary::ObjectHeapData::new(None));
    m.set_backing_object(&mut agent, backing);
    assert_eq!(m.get_backing_object(&agent), Some(backing));
    let s2 = PropertyKey::Symbol(Symbol(2));
    let s1 = PropertyKey::Symbol(Symbol(1));
    assert!(matches!(
        m.try_define_own_property(&mut agent, s2, export_data(7)),
        TryResult::Continue(true)
    ));
    assert!(matches!(
        m.try_define_own_property(&mut agent, s1, export_data(8)),
        TryResult::Continue(true)
    ));
    let TryResult::Continue(keys) = m.try_own_property_keys(&agent) else {
        panic!("own keys stopped");
    };
    assert_eq!(keys, vec![export_key("a"), export_key("b"), s2, s1]);
    assert_eq!(m.internal_get(&agent, s1, Value::Module(m)).unwrap(), Value::Integer(8));
    assert!(matches!(m.try_has_property(&agent, s2), TryResult::Continue(true)));
    assert!(matches!(m.try_delete(&mut agent, s2), TryResult::Continue(false)));
    let desc = m.internal_get_own_property(&agent, s2).unwrap().unwrap();
    assert!(same_descriptor(&desc, &export_data(7)));
}

#[test]
fn symbols_without_backing_object() {
    let mut agent = Agent::new();
    let m = module_a_b(&mut agent);
    let s = PropertyKey::Symbol(Symbol(1));
    assert_eq!(m.internal_get(&agent, s, Value::Module(m)).unwrap(), Value::Undefined);
    assert!(matches!(m.try_has_property(&agent, s), TryResult::Continue(false)));
    assert!(matches!(m.try_delete(&mut agent, s), TryResult::Continue(true)));
    assert!(matches!(
        m.try_define_own_property(&mut agent, s, export_data(1)),
        TryResult::Continue(false)
    ));
    assert!(m.internal_get_own_property(&agent, s).unwrap().is_none());
}

#[test]
fn unlinked_module_is_a_reference_error() {
    let mut agent = Agent::new();
    let m = Module(0);
    agent.heap.create_module(ModuleHeapData {
        object_index: None,
        exports: vec![export_name("a"), export_name("ns")],
        resolutions: vec![
            ResolvedBinding::Resolved { module: m, binding_name: Some(export_name("a")) },
            ResolvedBinding::Resolved { module: m, binding_name: None },
        ],
        module: AbstractModuleRecord::new(Realm(0), Some(HostDefined(5))),
    });
    let err = m.internal_get(&agent, export_key("a"), Value::Module(m)).unwrap_err();
    assert_eq!(err.kind, ExceptionType::ReferenceError);
    assert_eq!(err.message, "Could not resolve module 'a'.");
    assert!(matches!(m.try_get(&agent, export_key("a"), Value::Module(m)), TryResult::Break));
    assert!(matches!(m.try_get_own_property(&agent, export_key("a")), TryResult::Break));
    assert!(m.internal_define_own_property(&mut agent, export_key("a"), export_data(1)).is_err());
    assert_eq!(m.internal_get(&agent, export_key("ns"), Value::Module(m)).unwrap(), Value::Module(m));
    let env = link(&mut agent, m).unwrap();
    assert_eq!(link(&mut agent, m), Some(env));
    let err = m.internal_get(&agent, export_key("a"), Value::Module(m)).unwrap_err();
    assert_eq!(err.kind, ExceptionType::ReferenceError);
    let record = &agent.heap.modules[0].as_ref().unwrap().module;
    assert_eq!(record.environment(), Some(env));
    assert_eq!(record.realm(), Realm(0));
}

#[test]
fn exports_resolve_through_the_record() {
    let mut agent = Agent::new();
    let m = module_a_b(&mut agent);
    assert_eq!(m.get_exported_names(&agent), vec![export_name("a"), export_name("b")]);
    assert!(matches!(
        m.resolve_export(&agent, export_name("b")),
        Some(ResolvedBinding::Resolved { module, binding_name: Some(n) }) if module == m && n == export_name("b")
    ));
    assert!(m.resolve_export(&agent, export_name("c")).is_none());
    assert_eq!(Module::_def().get_index(), 0);
    assert_eq!(Module::from_index(3), Module::from_u32(3));
    assert_eq!(Module::last(&agent.heap.modules), m);
}

#[test]
fn ordinary_define_keeps_frozen_properties() {
    let mut agent = Agent::new();
    let o = agent.heap.create_object(nova_vm::ordinary::ObjectHeapData::new(None));
    let k = export_key("x");
    let frozen = PropertyDescriptor::new_data(Value::Integer(1), false, true, false);
    assert!(ordinary_define_own_property(&mut agent, o, k, frozen));
    assert!(ordinary_define_own_property(&mut agent, o, k, frozen));
    let other = PropertyDescriptor::new_data(Value::Integer(2), false, true, false);
    assert!(!ordinary_define_own_property(&mut agent, o, k, other));
    let accessor = PropertyDescriptor {
        value: None,
        writable: None,
        get: Some(Value::Undefined),
        set: None,
        enumerable: None,
        configurable: None,
    };
    assert!(!ordinary_define_own_property(&mut agent, o, export_key("y"), accessor));
}
