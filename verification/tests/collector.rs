use nova_vm::array_buffer::allocate_array_buffer;
use nova_vm::collector::collect;
use nova_vm::compaction::{build_compaction_list, compact};
use nova_vm::environment::{Binding, EnvironmentData};
use nova_vm::gc::{CompactionList, CompactionLists, HeapRef, WorkQueues};
use nova_vm::heap::Agent;
use nova_vm::module::{AbstractModuleRecord, ModuleHeapData, Realm, ResolvedBinding};
use nova_vm::ordinary::{ordinary_define_own_property, ordinary_get, ObjectHeapData};
use nova_vm::reference::{Base, Reference};
use nova_vm::small_string::SmallString;
use nova_vm::value::{
    JsString, Module, Object, OrdinaryObject, PropertyDescriptor, PropertyKey, Value,
};

fn small_key(s: &str) -> PropertyKey {
    PropertyKey::SmallString(SmallString::try_from(s).unwrap())
}

fn data_property(value: Value) -> PropertyDescriptor {
    PropertyDescriptor::new_data(value, true, true, true)
}

#[test]
fn gc_moves_handles() {
    let mut agent = Agent::new();
    let proto = agent.intrinsics.object_prototype;
    for _ in 0..500 {
        agent.heap.create_object(ObjectHeapData::new(Some(proto)));
    }
    let long_lived = agent.heap.create_object(ObjectHeapData::new(Some(proto)));
    assert!(ordinary_define_own_property(
        &mut agent,
        long_lived,
        small_key("tag"),
        data_property(Value::Integer(42))
    ));
    for _ in 0..500 {
        agent.heap.create_object(ObjectHeapData::new(Some(proto)));
    }
    let mut roots = vec![Value::Object(long_lived), Value::Integer(1), Value::Object(long_lived)];
    assert_eq!(agent.heap.objects.len(), 1010);
    let c = collect(&mut agent, &mut roots).expect("the heap has no stale handle");
    assert_eq!(agent.heap.objects.len(), 10);
    assert_eq!(roots[0], roots[2]);
    assert_eq!(roots[1], Value::Integer(1));
    assert_eq!(roots[0], Value::Object(OrdinaryObject(9)));
    assert_eq!(c.objects.map[long_lived.0 as usize], Some(9));
    assert_eq!(c.objects.map[9], None);
    let Value::Object(moved) = roots[0] else { panic!("the root is no object") };
    assert_eq!(ordinary_get(&agent, moved, small_key("tag"), roots[0]), Value::Integer(42));
    assert_eq!(agent.heap.alloc_counter, 0);
    assert!(agent.heap.objects.iter().all(|slot| slot.is_some()));
}

#[test]
fn collection_follows_every_kind_of_handle() {
    let mut agent = Agent::new();
    let proto = agent.intrinsics.object_prototype;
    let _garbage = agent.heap.create_string("garbage string".to_string());
    let name = agent.heap.create_string("a long export name".to_string());
    let _dead_buffer = allocate_array_buffer(&mut agent, 1, None).unwrap();
    let buffer = allocate_array_buffer(&mut agent, 2, None).unwrap();
    let _dead_env = agent.heap.create_environment(EnvironmentData::new());
    let env = agent.heap.create_environment(EnvironmentData {
        bindings: vec![Binding {
            name: JsString::String(name),
            value: Some(Value::ArrayBuffer(buffer)),
            mutable: true,
        }],
    });
    let _dead_object = agent.heap.create_object(ObjectHeapData::new(None));
    let holder = agent.heap.create_object(ObjectHeapData::new(Some(proto)));
    let mut record = AbstractModuleRecord::new(Realm(0), None);
    record.set_environment(env);
    let m = Module(0);
    agent.heap.create_module(ModuleHeapData {
        object_index: None,
        exports: vec![JsString::String(name)],
        resolutions: vec![ResolvedBinding::Resolved {
            module: m,
            binding_name: Some(JsString::String(name)),
        }],
        module: record,
    });
    assert!(ordinary_define_own_property(&mut agent, holder, small_key("m"), data_property(Value::Module(m))));
    let global = agent.global_object;
    assert!(ordinary_define_own_property(
        &mut agent,
        global,
        small_key("holder"),
        data_property(Value::Object(holder))
    ));
    let mut roots = vec![];
    let c = collect(&mut agent, &mut roots).expect("the heap has no stale handle");
    assert_eq!(agent.heap.strings.len(), 1);
    assert_eq!(agent.heap.strings[0].as_deref(), Some("a long export name"));
    assert_eq!(agent.heap.array_buffers.len(), 1);
    assert_eq!(agent.heap.environments.len(), 1);
    assert_eq!(agent.heap.modules.len(), 1);
    assert_eq!(agent.heap.objects.len(), 10);
    let holder_now = OrdinaryObject(c.objects.map[holder.0 as usize].unwrap());
    assert_eq!(holder_now, OrdinaryObject(9));
    assert_eq!(
        ordinary_get(&agent, agent.global_object, small_key("holder"), Value::Undefined),
        Value::Object(holder_now)
    );
    let module = agent.heap.modules[0].as_ref().unwrap();
    assert_eq!(module.exports, vec![JsString::String(nova_vm::value::HeapString(0))]);
    assert_eq!(module.module.environment(), Some(nova_vm::value::Environment(0)));
    let bindings = &agent.heap.environments[0].as_ref().unwrap().bindings;
    assert_eq!(bindings[0].value, Some(Value::ArrayBuffer(nova_vm::value::ArrayBuffer(0))));
    assert_eq!(
        m.internal_get(
            &agent,
            PropertyKey::String(nova_vm::value::HeapString(0)),
            Value::Module(m)
        )
        .unwrap(),
        Value::ArrayBuffer(nova_vm::value::ArrayBuffer(0))
    );
}

#[test]
fn collection_is_given_up_on_a_stale_handle() {
    let mut agent = Agent::new();
    let mut roots = vec![Value::Object(OrdinaryObject(77))];
    assert!(collect(&mut agent, &mut roots).is_none());
    assert_eq!(roots, vec![Value::Object(OrdinaryObject(77))]);
    assert_eq!(agent.heap.objects.len(), 9);
}

#[test]
fn compaction_maps_give_ranks() {
    let list = build_compaction_list(&vec![true, false, false, true, true]).unwrap();
    assert_eq!(list.map, vec![Some(0), None, None, Some(1), Some(2)]);
    assert_eq!(list.shift_weak_u32_index(3), Some(1));
    assert_eq!(list.shift_weak_u32_index(1), None);
    assert_eq!(list.shift_weak_u32_index(9), None);
    let mut index = 4;
    list.shift_u32_index(&mut index);
    assert_eq!(index, 2);
    let mut v = vec![Some('a'), Some('b'), None, Some('d'), Some('e')];
    compact(&mut v, &vec![true, false, false, true, true]);
    assert_eq!(v, vec![Some('a'), Some('d'), Some('e')]);
}

fn sample_lists(objects: Vec<Option<u32>>, strings: Vec<Option<u32>>) -> CompactionLists {
    CompactionLists {
        array_buffers: CompactionList { map: vec![] },
        array_iterators: CompactionList { map: vec![Some(0)] },
        environments: CompactionList { map: vec![None, Some(0)] },
        modules: CompactionList { map: vec![Some(0)] },
        objects: CompactionList { map: objects },
        strings: CompactionList { map: strings },
    }
}

#[test]
fn handles_are_marked_and_fixed_up() {
    let c = sample_lists(vec![None, Some(0), Some(1)], vec![None, Some(0)]);
    let mut queues = WorkQueues::new();
    let mut reference = Reference {
        base: Base::Value(Value::Object(OrdinaryObject(2))),
        referenced_name: PropertyKey::String(nova_vm::value::HeapString(1)),
        strict: false,
        this_value: Some(Value::Module(Module(0))),
    };
    reference.mark_values(&mut queues);
    assert_eq!(
        queues.pending,
        vec![
            HeapRef::Object(OrdinaryObject(2)),
            HeapRef::String(nova_vm::value::HeapString(1)),
            HeapRef::Module(Module(0)),
        ]
    );
    reference.sweep_values(&c);
    assert_eq!(reference.base, Base::Value(Value::Object(OrdinaryObject(1))));
    assert_eq!(reference.referenced_name, PropertyKey::String(nova_vm::value::HeapString(0)));
    assert_eq!(reference.this_value, Some(Value::Module(Module(0))));
    let mut base = Base::Environment(nova_vm::value::Environment(1));
    base.sweep_values(&c);
    assert_eq!(base, Base::Environment(nova_vm::value::Environment(0)));
    assert_eq!(OrdinaryObject(0).sweep_weak_reference(&c), None);
    assert_eq!(OrdinaryObject(2).sweep_weak_reference(&c), Some(OrdinaryObject(1)));
    assert_eq!(Module(0).sweep_weak_reference(&c), Some(Module(0)));
    assert_eq!(Module(3).sweep_weak_reference(&c), None);
    assert!(Value::Integer(3).is_mapped(&c));
    assert!(!Value::Object(OrdinaryObject(0)).is_mapped(&c));
    let mut o = Object::ArrayIterator(nova_vm::value::ArrayIterator(0));
    assert!(o.is_mapped(&c));
    o.sweep_values(&c);
    assert_eq!(o, Object::ArrayIterator(nova_vm::value::ArrayIterator(0)));
}
