//! The collector: marks what the roots reach, drops every other record,
//! closes the gaps and moves every handle to the new place of its slot.

use crate::array_buffer::ArrayBufferHeapData;
use crate::array_iterator::ArrayIteratorHeapData;
use crate::compaction::{
    build_compaction_list, compact, is_compaction, lemma_kept, lemma_rank_nonnegative,
    lemma_swept_by, one_to_one, origin, rank_swept, source, swept_by,
};
use crate::environment::{Binding, EnvironmentData};
use crate::gc::{object_option_swept, CompactionLists, HeapRef};
use crate::heap::{Agent, Heap};
use crate::marking::{
    agent_roots, all_live, all_reached, closed, complete, live, mark, marked, reachable,
    record_refs, roots_refs, start_refs, HeapBits,
};
use crate::module::{ModuleHeapData, ResolvedBinding};
use crate::ordinary::{ObjectHeapData, PropertyEntry};
use crate::sweep::{
    agent_mapped, array_buffers_mapped, array_iterators_mapped, check_agent, check_array_buffers,
    check_array_iterators, check_environments, check_modules, check_objects, check_roots,
    environments_mapped, modules_mapped, objects_mapped, swept_array_buffer, swept_array_iterator,
    swept_environment, swept_module, swept_object, sweep_array_buffers, sweep_array_iterators,
    sweep_environments, sweep_modules, sweep_objects, sweep_roots,
};
use crate::value::{JsString, OrdinaryObject, Value};
use vstd::prelude::*;

verus! {

/// Whether `after` is what a collection with the compaction maps `c`
/// leaves of the heap `before`: each vector is swept by its map, the
/// handles of every record that stays are moved to the new places of
/// their slots, the strings stay as they are, and the count of
/// allocations starts again.
pub open spec fn heap_swept(before: Heap, after: Heap, c: CompactionLists) -> bool {
    &&& swept_by(
        before.array_buffers@,
        after.array_buffers@,
        c.array_buffers,
        |a: ArrayBufferHeapData, b: ArrayBufferHeapData| swept_array_buffer(a, b, c),
    )
    &&& swept_by(
        before.array_iterators@,
        after.array_iterators@,
        c.array_iterators,
        |a: ArrayIteratorHeapData, b: ArrayIteratorHeapData| swept_array_iterator(a, b, c),
    )
    &&& swept_by(
        before.environments@,
        after.environments@,
        c.environments,
        |a: EnvironmentData, b: EnvironmentData| swept_environment(a, b, c),
    )
    &&& swept_by(
        before.modules@,
        after.modules@,
        c.modules,
        |a: ModuleHeapData, b: ModuleHeapData| swept_module(a, b, c),
    )
    &&& swept_by(
        before.objects@,
        after.objects@,
        c.objects,
        |a: ObjectHeapData, b: ObjectHeapData| swept_object(a, b, c),
    )
    &&& swept_by(before.strings@, after.strings@, c.strings, |a: String, b: String| a == b)
    &&& after.alloc_counter == 0
}

/// What a collection leaves behind: the heap is swept by the compaction
/// maps `c`; every record that stays was reached by the handles that the
/// collector starts from, and held only handles of slots that stay; and
/// the prototypes, the global object and the values of the
/// roots, all of which the sweep kept, name the new places of their
/// slots, each of which holds a record.
pub open spec fn collected(
    before: Agent,
    after: Agent,
    roots_before: Seq<Value>,
    roots_after: Seq<Value>,
    c: CompactionLists,
) -> bool {
    &&& heap_swept(before.heap, after.heap, c)
    &&& forall|x: HeapRef|
        (#[trigger] c.image(x)) is Some ==> crate::gc::all_kept(record_refs(before.heap, x), c)
    &&& forall|x: HeapRef| (#[trigger] c.image(x)) is Some ==> reachable(before, roots_before, x)
    &&& agent_mapped(before, c)
    &&& agent_roots(after) == agent_roots(before).map_values(|o: OrdinaryObject| o.swept(c))
    &&& forall|i: int| 0 <= i < 9 ==> after.heap.has_object(#[trigger] agent_roots(after)[i])
    &&& forall|k: int| 0 <= k < roots_before.len() ==> (#[trigger] roots_before[k]).mapped(c)
    &&& roots_after == roots_before.map_values(|v: Value| v.swept(c))
    &&& forall|k: int|
        0 <= k < roots_after.len() && (#[trigger] roots_after[k]).heap_ref() is Some ==> live(
            after.heap,
            roots_after[k].heap_ref()->0,
        )
}

/// Whether every place that the compaction maps move a slot to holds a
/// record in `after`.
pub open spec fn images_live(after: Heap, c: CompactionLists) -> bool {
    forall|x: HeapRef| (#[trigger] c.image(x)) is Some ==> live(after, c.image(x)->0)
}

/// After a collection every handle that a compaction map keeps named a
/// record before, and its new place holds a record.
pub proof fn lemma_images_live(before: Heap, after: Heap, c: CompactionLists, r: HeapRef)
    requires
        heap_swept(before, after, c),
        c.image(r) is Some,
    ensures
        live(before, r),
        live(after, c.image(r)->0),
{
    match r {
        HeapRef::ArrayBuffer(h) => {
            assert(c.array_buffers.map@[h.0 as int] is Some);
        },
        HeapRef::ArrayIterator(h) => {
            assert(c.array_iterators.map@[h.0 as int] is Some);
        },
        HeapRef::Environment(h) => {
            assert(c.environments.map@[h.0 as int] is Some);
        },
        HeapRef::Module(h) => {
            assert(c.modules.map@[h.0 as int] is Some);
        },
        HeapRef::Object(h) => {
            assert(c.objects.map@[h.0 as int] is Some);
        },
        HeapRef::String(h) => {
            assert(c.strings.map@[h.0 as int] is Some);
        },
    }
}

/// The handles of two sequences name records when those of both do.
pub proof fn lemma_all_live_concat(heap: Heap, a: Seq<HeapRef>, b: Seq<HeapRef>)
    ensures
        all_live(heap, a + b) <==> all_live(heap, a) && all_live(heap, b),
{
    if all_live(heap, a + b) {
        assert forall|k: int| 0 <= k < a.len() implies live(heap, #[trigger] a[k]) by {
            assert((a + b)[k] == a[k]);
        }
        assert forall|k: int| 0 <= k < b.len() implies live(heap, #[trigger] b[k]) by {
            assert((a + b)[a.len() + k] == b[k]);
        }
    }
    if all_live(heap, a) && all_live(heap, b) {
        assert forall|k: int| 0 <= k < (a + b).len() implies live(heap, #[trigger] (a + b)[k]) by {
            if k < a.len() {
                assert((a + b)[k] == a[k]);
            } else {
                assert((a + b)[k] == b[k - a.len()]);
            }
        }
    }
}

/// The handle of a fixed-up value names a slot that holds a record.
pub proof fn lemma_value_swept_live(after: Heap, c: CompactionLists, v: Value)
    requires
        images_live(after, c),
        v.mapped(c),
    ensures
        all_live(after, v.swept(c).heap_ref_seq()),
{
    if v.heap_ref() is Some {
        let x = v.heap_ref()->0;
        assert(c.image(x) is Some);
        assert(v.swept(c).heap_ref() == c.image(x));
    }
}

/// The handle of a fixed-up optional object names a slot that holds a
/// record.
pub proof fn lemma_object_option_swept_live(
    after: Heap,
    c: CompactionLists,
    o: Option<OrdinaryObject>,
)
    requires
        images_live(after, c),
        crate::gc::object_option_mapped(o, c),
    ensures
        all_live(after, crate::gc::object_option_refs(object_option_swept(o, c))),
{
    if o is Some {
        lemma_value_swept_live(after, c, Value::Object(o->0));
    }
}

/// The handle of a fixed-up string names a slot that holds a record.
pub proof fn lemma_string_swept_live(after: Heap, c: CompactionLists, x: JsString)
    requires
        images_live(after, c),
        x.mapped(c),
    ensures
        all_live(after, x.swept(c).refs()),
{
    lemma_value_swept_live(after, c, x.spec_into_value());
    assert(x.swept(c).spec_into_value() == x.spec_into_value().swept(c));
}

/// The handles of a fixed-up property name slots that hold a record.
pub proof fn lemma_entry_swept_live(after: Heap, c: CompactionLists, e: PropertyEntry)
    requires
        images_live(after, c),
        e.mapped(c),
    ensures
        all_live(after, e.swept(c).refs()),
{
    lemma_value_swept_live(after, c, e.key.handle_value());
    assert(e.key.swept(c).handle_value() == e.key.handle_value().swept(c));
    lemma_value_swept_live(after, c, e.value);
    lemma_all_live_concat(after, e.swept(c).key.refs(), e.swept(c).value.heap_ref_seq());
}

/// The handles of a fixed-up binding name slots that hold a record.
pub proof fn lemma_binding_swept_live(after: Heap, c: CompactionLists, b: Binding)
    requires
        images_live(after, c),
        b.mapped(c),
    ensures
        all_live(after, b.swept(c).refs()),
{
    lemma_string_swept_live(after, c, b.name);
    if b.value is Some {
        lemma_value_swept_live(after, c, b.value->0);
    }
    lemma_all_live_concat(
        after,
        b.swept(c).name.refs(),
        crate::gc::value_option_refs(b.swept(c).value),
    );
}

/// The handles of a fixed-up resolution name slots that hold a record.
pub proof fn lemma_resolution_swept_live(after: Heap, c: CompactionLists, b: ResolvedBinding)
    requires
        images_live(after, c),
        b.mapped(c),
    ensures
        all_live(after, b.swept(c).refs()),
{
    match b {
        ResolvedBinding::Ambiguous => {},
        ResolvedBinding::Resolved { module, binding_name } => {
            lemma_value_swept_live(after, c, Value::Module(module));
            let head = seq![HeapRef::Module(module.swept(c))];
            assert(head =~= Value::Module(module).swept(c).heap_ref_seq());
            let tail = match binding_name {
                Some(name) => name.swept(c).refs(),
                None => Seq::<HeapRef>::empty(),
            };
            if binding_name is Some {
                lemma_string_swept_live(after, c, binding_name->0);
            }
            lemma_all_live_concat(after, head, tail);
        },
    }
}

/// The handles of fixed-up entries name slots that hold a record.
pub proof fn lemma_entries_swept_live(
    after: Heap,
    c: CompactionLists,
    before: Seq<PropertyEntry>,
    fixed: Seq<PropertyEntry>,
)
    requires
        images_live(after, c),
        fixed.len() == before.len(),
        forall|i: int| 0 <= i < before.len() ==> (#[trigger] before[i]).mapped(c),
        forall|i: int| 0 <= i < before.len() ==> #[trigger] fixed[i] == before[i].swept(c),
    ensures
        all_live(after, crate::gc::entries_refs(fixed)),
    decreases before.len(),
{
    if before.len() > 0 {
        let n = before.len() - 1;
        assert(fixed.last() == fixed[n]);
        assert(before[n].mapped(c));
        assert forall|i: int| 0 <= i < n implies (#[trigger] before.drop_last()[i]).mapped(c) by {
            assert(before.drop_last()[i] == before[i]);
        }
        assert forall|i: int| 0 <= i < n implies #[trigger] fixed.drop_last()[i]
            == before.drop_last()[i].swept(c) by {
            assert(fixed.drop_last()[i] == fixed[i]);
            assert(before.drop_last()[i] == before[i]);
        }
        lemma_entries_swept_live(after, c, before.drop_last(), fixed.drop_last());
        lemma_entry_swept_live(after, c, before[n]);
        lemma_all_live_concat(after, crate::gc::entries_refs(fixed.drop_last()), fixed.last().refs());
    }
}

/// The handles of fixed-up bindings name slots that hold a record.
pub proof fn lemma_bindings_swept_live(
    after: Heap,
    c: CompactionLists,
    before: Seq<Binding>,
    fixed: Seq<Binding>,
)
    requires
        images_live(after, c),
        fixed.len() == before.len(),
        forall|i: int| 0 <= i < before.len() ==> (#[trigger] before[i]).mapped(c),
        forall|i: int| 0 <= i < before.len() ==> #[trigger] fixed[i] == before[i].swept(c),
    ensures
        all_live(after, crate::gc::bindings_refs(fixed)),
    decreases before.len(),
{
    if before.len() > 0 {
        let n = before.len() - 1;
        assert(fixed.last() == fixed[n]);
        assert(before[n].mapped(c));
        assert forall|i: int| 0 <= i < n implies (#[trigger] before.drop_last()[i]).mapped(c) by {
            assert(before.drop_last()[i] == before[i]);
        }
        assert forall|i: int| 0 <= i < n implies #[trigger] fixed.drop_last()[i]
            == before.drop_last()[i].swept(c) by {
            assert(fixed.drop_last()[i] == fixed[i]);
            assert(before.drop_last()[i] == before[i]);
        }
        lemma_bindings_swept_live(after, c, before.drop_last(), fixed.drop_last());
        lemma_binding_swept_live(after, c, before[n]);
        lemma_all_live_concat(after, crate::gc::bindings_refs(fixed.drop_last()), fixed.last().refs());
    }
}

/// The handles of fixed-up names name slots that hold a record.
pub proof fn lemma_names_swept_live(
    after: Heap,
    c: CompactionLists,
    before: Seq<JsString>,
    fixed: Seq<JsString>,
)
    requires
        images_live(after, c),
        fixed.len() == before.len(),
        forall|i: int| 0 <= i < before.len() ==> (#[trigger] before[i]).mapped(c),
        forall|i: int| 0 <= i < before.len() ==> #[trigger] fixed[i] == before[i].swept(c),
    ensures
        all_live(after, crate::gc::names_refs(fixed)),
    decreases before.len(),
{
    if before.len() > 0 {
        let n = before.len() - 1;
        assert(fixed.last() == fixed[n]);
        assert(before[n].mapped(c));
        assert forall|i: int| 0 <= i < n implies (#[trigger] before.drop_last()[i]).mapped(c) by {
            assert(before.drop_last()[i] == before[i]);
        }
        assert forall|i: int| 0 <= i < n implies #[trigger] fixed.drop_last()[i]
            == before.drop_last()[i].swept(c) by {
            assert(fixed.drop_last()[i] == fixed[i]);
            assert(before.drop_last()[i] == before[i]);
        }
        lemma_names_swept_live(after, c, before.drop_last(), fixed.drop_last());
        lemma_string_swept_live(after, c, before[n]);
        lemma_all_live_concat(after, crate::gc::names_refs(fixed.drop_last()), fixed.last().refs());
    }
}

/// The handles of fixed-up resolutions name slots that hold a record.
pub proof fn lemma_resolutions_swept_live(
    after: Heap,
    c: CompactionLists,
    before: Seq<ResolvedBinding>,
    fixed: Seq<ResolvedBinding>,
)
    requires
        images_live(after, c),
        fixed.len() == before.len(),
        forall|i: int| 0 <= i < before.len() ==> (#[trigger] before[i]).mapped(c),
        forall|i: int| 0 <= i < before.len() ==> #[trigger] fixed[i] == before[i].swept(c),
    ensures
        all_live(after, crate::gc::resolutions_refs(fixed)),
    decreases before.len(),
{
    if before.len() > 0 {
        let n = before.len() - 1;
        assert(fixed.last() == fixed[n]);
        assert(before[n].mapped(c));
        assert forall|i: int| 0 <= i < n implies (#[trigger] before.drop_last()[i]).mapped(c) by {
            assert(before.drop_last()[i] == before[i]);
        }
        assert forall|i: int| 0 <= i < n implies #[trigger] fixed.drop_last()[i]
            == before.drop_last()[i].swept(c) by {
            assert(fixed.drop_last()[i] == fixed[i]);
            assert(before.drop_last()[i] == before[i]);
        }
        lemma_resolutions_swept_live(after, c, before.drop_last(), fixed.drop_last());
        lemma_resolution_swept_live(after, c, before[n]);
        lemma_all_live_concat(after, crate::gc::resolutions_refs(fixed.drop_last()), fixed.last().refs());
    }
}

/// The handles that a fixed-up record holds name slots that hold a record.
pub proof fn lemma_record_swept_live(before: Heap, after: Heap, c: CompactionLists, r: HeapRef)
    requires
        heap_swept(before, after, c),
        images_live(after, c),
        live(after, r),
        forall|x: HeapRef|
            (#[trigger] c.image(x)) is Some ==> crate::gc::all_kept(record_refs(before, x), c),
    ensures
        all_live(after, record_refs(after, r)),
{
    match r {
        HeapRef::ArrayBuffer(h) => {
            let i = origin(c.array_buffers, h.0 as int);
            let x = HeapRef::ArrayBuffer(crate::value::ArrayBuffer(i as u32));
            assert(c.array_buffers.map@[i] is Some);
            assert(c.image(x) is Some);
            let a = before.array_buffers@[i]->0;
            let b = after.array_buffers@[h.0 as int]->0;
            a.lemma_kept(c);
            assert(swept_array_buffer(a, b, c));
            lemma_object_option_swept_live(after, c, a.object_index);
        },
        HeapRef::ArrayIterator(h) => {
            let i = origin(c.array_iterators, h.0 as int);
            let x = HeapRef::ArrayIterator(crate::value::ArrayIterator(i as u32));
            assert(c.array_iterators.map@[i] is Some);
            assert(c.image(x) is Some);
            let a = before.array_iterators@[i]->0;
            let b = after.array_iterators@[h.0 as int]->0;
            a.lemma_kept(c);
            assert(swept_array_iterator(a, b, c));
            lemma_object_option_swept_live(after, c, a.object_index);
            let tail = match b.array {
                Some(o) => o.refs(),
                None => Seq::<HeapRef>::empty(),
            };
            if a.array is Some {
                lemma_value_swept_live(after, c, a.array->0.spec_into_value());
                assert(a.array->0.swept(c).spec_into_value() == a.array->0.spec_into_value().swept(
                    c,
                ));
            }
            lemma_all_live_concat(after, crate::gc::object_option_refs(b.object_index), tail);
        },
        HeapRef::Environment(h) => {
            let i = origin(c.environments, h.0 as int);
            let x = HeapRef::Environment(crate::value::Environment(i as u32));
            assert(c.environments.map@[i] is Some);
            assert(c.image(x) is Some);
            let a = before.environments@[i]->0;
            let b = after.environments@[h.0 as int]->0;
            a.lemma_kept(c);
            assert(swept_environment(a, b, c));
            lemma_bindings_swept_live(after, c, a.bindings@, b.bindings@);
        },
        HeapRef::Module(h) => {
            let i = origin(c.modules, h.0 as int);
            let x = HeapRef::Module(crate::value::Module(i as u32));
            assert(c.modules.map@[i] is Some);
            assert(c.image(x) is Some);
            let a = before.modules@[i]->0;
            let b = after.modules@[h.0 as int]->0;
            a.lemma_kept(c);
            assert(swept_module(a, b, c));
            lemma_object_option_swept_live(after, c, a.object_index);
            lemma_names_swept_live(after, c, a.exports@, b.exports@);
            lemma_resolutions_swept_live(after, c, a.resolutions@, b.resolutions@);
            let env = match b.module.environment {
                Some(e) => seq![HeapRef::Environment(e)],
                None => Seq::<HeapRef>::empty(),
            };
            let ns = match b.module.namespace {
                Some(m) => seq![HeapRef::Module(m)],
                None => Seq::<HeapRef>::empty(),
            };
            if a.module.environment is Some {
                let e = HeapRef::Environment(a.module.environment->0);
                assert(c.image(e) is Some);
                assert(env[0] == c.image(e)->0);
            }
            if a.module.namespace is Some {
                let m = HeapRef::Module(a.module.namespace->0);
                assert(c.image(m) is Some);
                assert(ns[0] == c.image(m)->0);
            }
            lemma_all_live_concat(after, env, ns);
            let p = crate::gc::object_option_refs(b.object_index);
            let q = crate::gc::names_refs(b.exports@);
            let d = crate::gc::resolutions_refs(b.resolutions@);
            lemma_all_live_concat(after, p, q);
            lemma_all_live_concat(after, p + q, d);
            lemma_all_live_concat(after, p + q + d, b.module.refs());
        },
        HeapRef::Object(h) => {
            let i = origin(c.objects, h.0 as int);
            let x = HeapRef::Object(OrdinaryObject(i as u32));
            assert(c.objects.map@[i] is Some);
            assert(c.image(x) is Some);
            let a = before.objects@[i]->0;
            let b = after.objects@[h.0 as int]->0;
            a.lemma_kept(c);
            assert(swept_object(a, b, c));
            lemma_object_option_swept_live(after, c, a.prototype);
            lemma_entries_swept_live(after, c, a.properties@, b.properties@);
            lemma_all_live_concat(
                after,
                crate::gc::object_option_refs(b.prototype),
                crate::gc::entries_refs(b.properties@),
            );
        },
        HeapRef::String(h) => {},
    }
}

/// The handles of the roots name records when the handle of each root
/// does.
pub proof fn lemma_roots_live(heap: Heap, roots: Seq<Value>)
    ensures
        all_live(heap, roots_refs(roots)) <==> forall|k: int|
            0 <= k < roots.len() && (#[trigger] roots[k]).heap_ref() is Some ==> live(
                heap,
                roots[k].heap_ref()->0,
            ),
    decreases roots.len(),
{
    if roots.len() > 0 {
        let init = roots.drop_last();
        let last = roots.last();
        lemma_roots_live(heap, init);
        lemma_all_live_concat(heap, roots_refs(init), last.heap_ref_seq());
        if last.heap_ref() is Some {
            assert(last.heap_ref_seq()[0] == last.heap_ref()->0);
        }
        if all_live(heap, roots_refs(roots)) {
            assert forall|k: int|
                0 <= k < roots.len() && (#[trigger] roots[k]).heap_ref() is Some implies live(
                heap,
                roots[k].heap_ref()->0,
            ) by {
                if k < init.len() {
                    assert(init[k] == roots[k]);
                }
            }
        }
        if forall|k: int|
            0 <= k < roots.len() && (#[trigger] roots[k]).heap_ref() is Some ==> live(
                heap,
                roots[k].heap_ref()->0,
            ) {
            assert forall|k: int|
                0 <= k < init.len() && (#[trigger] init[k]).heap_ref() is Some implies live(
                heap,
                init[k].heap_ref()->0,
            ) by {
                assert(init[k] == roots[k]);
            }
            assert(roots[roots.len() - 1] == last);
        }
    }
}

/// After a collection the heap has no stale handle: every handle of the
/// agent, of the roots and of every record names a slot that holds a
/// record.
pub proof fn lemma_collected_closed(
    before: Agent,
    after: Agent,
    roots_before: Seq<Value>,
    roots_after: Seq<Value>,
    c: CompactionLists,
)
    requires
        collected(before, after, roots_before, roots_after, c),
    ensures
        closed(after, roots_after),
{
    assert forall|x: HeapRef| (#[trigger] c.image(x)) is Some implies live(
        after.heap,
        c.image(x)->0,
    ) by {
        lemma_images_live(before.heap, after.heap, c, x);
    }
    assert forall|r: HeapRef| live(after.heap, r) implies all_live(
        after.heap,
        #[trigger] record_refs(after.heap, r),
    ) by {
        lemma_record_swept_live(before.heap, after.heap, c, r);
    }
    lemma_roots_live(after.heap, roots_after);
    let own = agent_roots(after).map_values(|o: OrdinaryObject| HeapRef::Object(o));
    assert forall|k: int| 0 <= k < own.len() implies live(after.heap, #[trigger] own[k]) by {
        assert(after.heap.has_object(agent_roots(after)[k]));
    }
    lemma_all_live_concat(after.heap, own, roots_refs(roots_after));
}

/// The fix-up gives two keys of slots that stay the same key only when
/// they are the same key.
pub proof fn lemma_key_swept_injective(
    c: CompactionLists,
    a: crate::value::PropertyKey,
    b: crate::value::PropertyKey,
)
    requires
        one_to_one(c.strings),
        a.mapped(c),
        b.mapped(c),
        a.swept(c) == b.swept(c),
    ensures
        a == b,
{
    if a is String && b is String {
        let i = a->String_0.0 as int;
        let k = b->String_0.0 as int;
        assert(c.image(HeapRef::String(a->String_0)) is Some);
        assert(c.image(HeapRef::String(b->String_0)) is Some);
        assert(c.strings.map@[i] is Some);
        assert(c.strings.map@[i] == c.strings.map@[k]);
    }
}

/// The fix-up gives two strings of slots that stay the same string only
/// when they are the same string.
pub proof fn lemma_string_swept_injective(c: CompactionLists, a: JsString, b: JsString)
    requires
        one_to_one(c.strings),
        a.mapped(c),
        b.mapped(c),
        a.swept(c) == b.swept(c),
    ensures
        a == b,
{
    lemma_key_swept_injective(c, a.spec_into_property_key(), b.spec_into_property_key());
}

/// A collection keeps the tables of the heap well formed: no table of a
/// record that stays holds a key twice, and every export of a module
/// that stays has its resolution.
pub proof fn lemma_collected_wf(
    before: Agent,
    after: Agent,
    roots_before: Seq<Value>,
    roots_after: Seq<Value>,
    c: CompactionLists,
)
    requires
        collected(before, after, roots_before, roots_after, c),
        before.heap.wf(),
    ensures
        after.heap.wf(),
{
    let h = before.heap;
    let g = after.heap;
    assert forall|j: int| 0 <= j < g.objects@.len() && g.objects@[j] is Some implies (
    #[trigger] g.objects@[j])->0.wf() by {
        let i = origin(c.objects, j);
        assert(c.objects.map@[i] is Some);
        let x = HeapRef::Object(OrdinaryObject(i as u32));
        assert(c.image(x) is Some);
        let a = h.objects@[i]->0;
        let b = g.objects@[j]->0;
        assert(swept_object(a, b, c));
        a.lemma_kept(c);
        assert(a.wf());
        let ka = crate::ordinary::keys_of(a.properties@);
        let kb = crate::ordinary::keys_of(b.properties@);
        assert forall|p: int, q: int| 0 <= p < kb.len() && 0 <= q < kb.len() && p != q implies kb[p]
            != kb[q] by {
            assert(a.properties@[p].mapped(c));
            assert(a.properties@[q].mapped(c));
            assert(kb[p] == ka[p].swept(c));
            assert(kb[q] == ka[q].swept(c));
            if kb[p] == kb[q] {
                lemma_key_swept_injective(c, ka[p], ka[q]);
                assert(ka[p] != ka[q]);
            }
        }
    }
    assert forall|j: int| 0 <= j < g.environments@.len() && g.environments@[j] is Some implies (
    #[trigger] g.environments@[j])->0.wf() by {
        let i = origin(c.environments, j);
        assert(c.environments.map@[i] is Some);
        let x = HeapRef::Environment(crate::value::Environment(i as u32));
        assert(c.image(x) is Some);
        let a = h.environments@[i]->0;
        let b = g.environments@[j]->0;
        assert(swept_environment(a, b, c));
        a.lemma_kept(c);
        assert(a.wf());
        let ka = crate::environment::names_of(a.bindings@);
        let kb = crate::environment::names_of(b.bindings@);
        assert forall|p: int, q: int| 0 <= p < kb.len() && 0 <= q < kb.len() && p != q implies kb[p]
            != kb[q] by {
            assert(a.bindings@[p].mapped(c));
            assert(a.bindings@[q].mapped(c));
            assert(kb[p] == ka[p].swept(c));
            assert(kb[q] == ka[q].swept(c));
            if kb[p] == kb[q] {
                lemma_string_swept_injective(c, ka[p], ka[q]);
                assert(ka[p] != ka[q]);
            }
        }
    }
    assert forall|j: int| 0 <= j < g.modules@.len() && g.modules@[j] is Some implies (
    #[trigger] g.modules@[j])->0.wf() by {
        let i = origin(c.modules, j);
        assert(c.modules.map@[i] is Some);
        let a = h.modules@[i]->0;
        let b = g.modules@[j]->0;
        assert(swept_module(a, b, c));
        assert(a.wf());
        assert forall|k: int| 0 <= k < b.resolutions@.len() implies (
        #[trigger] b.resolutions@[k]) is Resolved by {
            assert(a.resolutions@[k] is Resolved);
            assert(b.resolutions@[k] == a.resolutions@[k].swept(c));
        }
    }
}

/// The compaction maps of the marks keep every marked slot.
pub open spec fn maps_of(c: CompactionLists, bits: HeapBits) -> bool {
    &&& is_compaction(c.array_buffers, bits.array_buffers@)
    &&& is_compaction(c.array_iterators, bits.array_iterators@)
    &&& is_compaction(c.environments, bits.environments@)
    &&& is_compaction(c.modules, bits.modules@)
    &&& is_compaction(c.objects, bits.objects@)
    &&& is_compaction(c.strings, bits.strings@)
}

/// Handles that are all marked, with nothing queued, are all kept by the
/// compaction maps of the marks.
pub proof fn lemma_reached_kept(bits: HeapBits, c: CompactionLists, refs: Seq<HeapRef>)
    requires
        maps_of(c, bits),
        all_reached(bits, Seq::<HeapRef>::empty(), refs),
    ensures
        crate::gc::all_kept(refs, c),
{
    assert forall|k: int| 0 <= k < refs.len() implies c.image(#[trigger] refs[k]) is Some by {
        assert(marked(bits, refs[k]));
    }
}

/// When the handles of the roots are kept, so is the slot that each root
/// names.
pub proof fn lemma_roots_kept(roots: Seq<Value>, c: CompactionLists)
    ensures
        crate::gc::all_kept(roots_refs(roots), c) <==> forall|k: int|
            0 <= k < roots.len() ==> (#[trigger] roots[k]).mapped(c),
    decreases roots.len(),
{
    if roots.len() > 0 {
        let init = roots.drop_last();
        lemma_roots_kept(init, c);
        crate::gc::lemma_all_kept_concat(roots_refs(init), roots.last().heap_ref_seq(), c);
        crate::gc::lemma_value_kept(roots.last(), c);
        if crate::gc::all_kept(roots_refs(roots), c) {
            assert forall|k: int| 0 <= k < roots.len() implies (#[trigger] roots[k]).mapped(c) by {
                if k < init.len() {
                    assert(init[k] == roots[k]);
                }
            }
        }
        if forall|k: int| 0 <= k < roots.len() ==> (#[trigger] roots[k]).mapped(c) {
            assert forall|k: int| 0 <= k < init.len() implies (#[trigger] init[k]).mapped(c) by {
                assert(init[k] == roots[k]);
            }
            assert(roots[roots.len() - 1].mapped(c));
        }
    }
}

/// With complete marks the compaction maps keep every slot that the
/// collector starts from and every slot that a marked record names.
pub proof fn lemma_complete_is_mapped(
    agent: Agent,
    roots: Seq<Value>,
    bits: HeapBits,
    c: CompactionLists,
)
    requires
        closed(agent, roots),
        bits.sound(agent.heap),
        complete(agent, roots, bits),
        maps_of(c, bits),
    ensures
        agent_mapped(agent, c),
        forall|k: int| 0 <= k < roots.len() ==> (#[trigger] roots[k]).mapped(c),
        array_buffers_mapped(agent.heap.array_buffers@, bits.array_buffers@, c),
        array_iterators_mapped(agent.heap.array_iterators@, bits.array_iterators@, c),
        environments_mapped(agent.heap.environments@, bits.environments@, c),
        modules_mapped(agent.heap.modules@, bits.modules@, c),
        objects_mapped(agent.heap.objects@, bits.objects@, c),
{
    let heap = agent.heap;
    let own = agent_roots(agent).map_values(|o: OrdinaryObject| HeapRef::Object(o));
    lemma_reached_kept(bits, c, start_refs(agent, roots));
    crate::gc::lemma_all_kept_concat(own, roots_refs(roots), c);
    lemma_roots_kept(roots, c);
    assert forall|i: int| 0 <= i < 9 implies (#[trigger] agent_roots(agent)[i]).mapped(c) by {
        assert(own[i] == HeapRef::Object(agent_roots(agent)[i]));
        assert(c.image(own[i]) is Some);
    }
    assert forall|i: int| 0 <= i < heap.array_buffers@.len() && bits.array_buffers@[i] implies (
    #[trigger] heap.array_buffers@[i]) is Some && heap.array_buffers@[i]->0.mapped(c) by {
        let r = HeapRef::ArrayBuffer(crate::value::ArrayBuffer(i as u32));
        assert(marked(bits, r));
        lemma_reached_kept(bits, c, record_refs(heap, r));
        heap.array_buffers@[i]->0.lemma_kept(c);
    }
    assert forall|i: int| 0 <= i < heap.array_iterators@.len() && bits.array_iterators@[i] implies (
    #[trigger] heap.array_iterators@[i]) is Some && heap.array_iterators@[i]->0.mapped(c) by {
        let r = HeapRef::ArrayIterator(crate::value::ArrayIterator(i as u32));
        assert(marked(bits, r));
        lemma_reached_kept(bits, c, record_refs(heap, r));
        heap.array_iterators@[i]->0.lemma_kept(c);
    }
    assert forall|i: int| 0 <= i < heap.environments@.len() && bits.environments@[i] implies (
    #[trigger] heap.environments@[i]) is Some && heap.environments@[i]->0.mapped(c) by {
        let r = HeapRef::Environment(crate::value::Environment(i as u32));
        assert(marked(bits, r));
        lemma_reached_kept(bits, c, record_refs(heap, r));
        heap.environments@[i]->0.lemma_kept(c);
    }
    assert forall|i: int| 0 <= i < heap.modules@.len() && bits.modules@[i] implies (
    #[trigger] heap.modules@[i]) is Some && heap.modules@[i]->0.mapped(c) by {
        let r = HeapRef::Module(crate::value::Module(i as u32));
        assert(marked(bits, r));
        lemma_reached_kept(bits, c, record_refs(heap, r));
        heap.modules@[i]->0.lemma_kept(c);
    }
    assert forall|i: int| 0 <= i < heap.objects@.len() && bits.objects@[i] implies (
    #[trigger] heap.objects@[i]) is Some && heap.objects@[i]->0.mapped(c) by {
        let r = HeapRef::Object(OrdinaryObject(i as u32));
        assert(marked(bits, r));
        lemma_reached_kept(bits, c, record_refs(heap, r));
        heap.objects@[i]->0.lemma_kept(c);
    }
}

/// Collects the garbage of the heap. The records that the prototypes and
/// the global object of the agent and the values of `roots` reach are
/// marked; every other record is dropped; the gaps are closed; and every
/// handle in the heap, in the agent and in `roots` is moved to the new
/// place of its slot. Returns the compaction maps, with which the caller
/// moves the handles that it holds elsewhere.
///
/// On a heap without a stale handle the collection is always carried
/// out, and keeps exactly the records that the handles it starts from
/// reach. It is given up, and nothing changes, when a record that stays
/// would name a slot that does not: a handle without a record was found
/// in the heap or in the roots.
pub fn collect(agent: &mut Agent, roots: &mut Vec<Value>) -> (r: Option<CompactionLists>)
    ensures
        closed(*old(agent), old(roots)@) ==> r is Some,
        r is None ==> *final(agent) == *old(agent) && *final(roots) == *old(roots),
        r is Some ==> collected(*old(agent), *final(agent), old(roots)@, final(roots)@, r->0),
        r is Some ==> closed(*final(agent), final(roots)@),
        r is Some && old(agent).heap.wf() ==> final(agent).heap.wf(),
        r is Some && closed(*old(agent), old(roots)@) ==> forall|x: HeapRef|
            #[trigger] reachable(*old(agent), old(roots)@, x) ==> r->0.image(x) is Some,
{
    let bits = mark(agent, roots);
    proof {
        lemma_rank_nonnegative(bits.array_buffers@, bits.array_buffers@.len() as int);
        lemma_rank_nonnegative(bits.array_iterators@, bits.array_iterators@.len() as int);
        lemma_rank_nonnegative(bits.environments@, bits.environments@.len() as int);
        lemma_rank_nonnegative(bits.modules@, bits.modules@.len() as int);
        lemma_rank_nonnegative(bits.objects@, bits.objects@.len() as int);
        lemma_rank_nonnegative(bits.strings@, bits.strings@.len() as int);
    }
    let array_buffers = match build_compaction_list(&bits.array_buffers) {
        Some(list) => list,
        None => {
            return None;
        },
    };
    let array_iterators = match build_compaction_list(&bits.array_iterators) {
        Some(list) => list,
        None => {
            return None;
        },
    };
    let environments = match build_compaction_list(&bits.environments) {
        Some(list) => list,
        None => {
            return None;
        },
    };
    let modules = match build_compaction_list(&bits.modules) {
        Some(list) => list,
        None => {
            return None;
        },
    };
    let objects = match build_compaction_list(&bits.objects) {
        Some(list) => list,
        None => {
            return None;
        },
    };
    let strings = match build_compaction_list(&bits.strings) {
        Some(list) => list,
        None => {
            return None;
        },
    };
    let c = CompactionLists { array_buffers, array_iterators, environments, modules, objects, strings };
    proof {
        if closed(*agent, roots@) {
            lemma_complete_is_mapped(*agent, roots@, bits, c);
        }
    }
    if !check_agent(agent, &c) || !check_roots(roots, &c) || !check_array_buffers(
        &agent.heap.array_buffers,
        &bits.array_buffers,
        &c,
    ) || !check_array_iterators(&agent.heap.array_iterators, &bits.array_iterators, &c)
        || !check_environments(&agent.heap.environments, &bits.environments, &c) || !check_modules(
        &agent.heap.modules,
        &bits.modules,
        &c,
    ) || !check_objects(&agent.heap.objects, &bits.objects, &c) {
        return None;
    }
    sweep_array_buffers(&mut agent.heap.array_buffers, &bits.array_buffers, &c);
    sweep_array_iterators(&mut agent.heap.array_iterators, &bits.array_iterators, &c);
    sweep_environments(&mut agent.heap.environments, &bits.environments, &c);
    sweep_modules(&mut agent.heap.modules, &bits.modules, &c);
    sweep_objects(&mut agent.heap.objects, &bits.objects, &c);
    compact(&mut agent.heap.strings, &bits.strings);
    agent.heap.alloc_counter = 0;
    sweep_roots(roots, &c);
    proof {
        assert(agent_roots(*old(agent))[0].mapped(c));
        assert(agent_roots(*old(agent))[1].mapped(c));
        assert(agent_roots(*old(agent))[2].mapped(c));
        assert(agent_roots(*old(agent))[3].mapped(c));
        assert(agent_roots(*old(agent))[4].mapped(c));
        assert(agent_roots(*old(agent))[5].mapped(c));
        assert(agent_roots(*old(agent))[6].mapped(c));
        assert(agent_roots(*old(agent))[7].mapped(c));
        assert(agent_roots(*old(agent))[8].mapped(c));
    }
    agent.intrinsics.object_prototype.sweep_values(&c);
    agent.intrinsics.array_buffer_prototype.sweep_values(&c);
    agent.intrinsics.array_iterator_prototype.sweep_values(&c);
    agent.intrinsics.boolean_prototype.sweep_values(&c);
    agent.intrinsics.string_prototype.sweep_values(&c);
    agent.intrinsics.symbol_prototype.sweep_values(&c);
    agent.intrinsics.number_prototype.sweep_values(&c);
    agent.intrinsics.big_int_prototype.sweep_values(&c);
    agent.global_object.sweep_values(&c);
    proof {
        let before = old(agent).heap;
        let after = agent.heap;
        lemma_swept_by(
            before.array_buffers@,
            after.array_buffers@,
            bits.array_buffers@,
            c.array_buffers,
            |a: ArrayBufferHeapData, b: ArrayBufferHeapData| swept_array_buffer(a, b, c),
        );
        lemma_swept_by(
            before.array_iterators@,
            after.array_iterators@,
            bits.array_iterators@,
            c.array_iterators,
            |a: ArrayIteratorHeapData, b: ArrayIteratorHeapData| swept_array_iterator(a, b, c),
        );
        lemma_swept_by(
            before.environments@,
            after.environments@,
            bits.environments@,
            c.environments,
            |a: EnvironmentData, b: EnvironmentData| swept_environment(a, b, c),
        );
        lemma_swept_by(
            before.modules@,
            after.modules@,
            bits.modules@,
            c.modules,
            |a: ModuleHeapData, b: ModuleHeapData| swept_module(a, b, c),
        );
        lemma_swept_by(
            before.objects@,
            after.objects@,
            bits.objects@,
            c.objects,
            |a: ObjectHeapData, b: ObjectHeapData| swept_object(a, b, c),
        );
        lemma_kept(before.strings@, bits.strings@);
        let same = |a: String, b: String| a == b;
        assert(rank_swept(before.strings@, after.strings@, bits.strings@, same)) by {
            assert forall|j: int| 0 <= j < after.strings@.len() implies (
            #[trigger] after.strings@[j]) is Some by {
                let i = source(bits.strings@, j);
                assert(after.strings@[j] == before.strings@[i]);
            }
        }
        lemma_swept_by(before.strings@, after.strings@, bits.strings@, c.strings, same);
        assert(heap_swept(before, after, c));
        assert(agent_roots(*agent) =~= agent_roots(*old(agent)).map_values(
            |o: OrdinaryObject| o.swept(c),
        ));
        assert forall|i: int| 0 <= i < 9 implies after.has_object(
            #[trigger] agent_roots(*agent)[i],
        ) by {
            let o = agent_roots(*old(agent))[i];
            assert(o.mapped(c));
            lemma_images_live(before, after, c, HeapRef::Object(o));
        }
        assert forall|k: int|
            0 <= k < roots@.len() && (#[trigger] roots@[k]).heap_ref() is Some implies live(
            after,
            roots@[k].heap_ref()->0,
        ) by {
            let v = old(roots)@[k];
            assert(v.mapped(c));
            assert(roots@[k] == v.swept(c));
            if v.heap_ref() is Some {
                lemma_images_live(before, after, c, v.heap_ref()->0);
            }
        }
    }
    proof {
        assert forall|x: HeapRef| (#[trigger] c.image(x)) is Some implies crate::gc::all_kept(
            record_refs(old(agent).heap, x),
            c,
        ) by {
            let heap = old(agent).heap;
            match x {
                HeapRef::ArrayBuffer(h) => {
                    assert(bits.array_buffers@[h.0 as int]);
                    assert(heap.array_buffers@[h.0 as int]->0.mapped(c));
                    heap.array_buffers@[h.0 as int]->0.lemma_kept(c);
                },
                HeapRef::ArrayIterator(h) => {
                    assert(bits.array_iterators@[h.0 as int]);
                    assert(heap.array_iterators@[h.0 as int]->0.mapped(c));
                    heap.array_iterators@[h.0 as int]->0.lemma_kept(c);
                },
                HeapRef::Environment(h) => {
                    assert(bits.environments@[h.0 as int]);
                    assert(heap.environments@[h.0 as int]->0.mapped(c));
                    heap.environments@[h.0 as int]->0.lemma_kept(c);
                },
                HeapRef::Module(h) => {
                    assert(bits.modules@[h.0 as int]);
                    assert(heap.modules@[h.0 as int]->0.mapped(c));
                    heap.modules@[h.0 as int]->0.lemma_kept(c);
                },
                HeapRef::Object(h) => {
                    assert(bits.objects@[h.0 as int]);
                    assert(heap.objects@[h.0 as int]->0.mapped(c));
                    heap.objects@[h.0 as int]->0.lemma_kept(c);
                },
                HeapRef::String(h) => {},
            }
        }
        assert forall|x: HeapRef| (#[trigger] c.image(x)) is Some implies reachable(
            *old(agent),
            old(roots)@,
            x,
        ) by {
            assert(marked(bits, x));
        }
        if closed(*old(agent), old(roots)@) {
            assert forall|x: HeapRef| #[trigger]
                reachable(*old(agent), old(roots)@, x) implies c.image(x) is Some by {
                let path = choose|path: Seq<HeapRef>|
                    crate::marking::is_path(*old(agent), old(roots)@, path, x);
                crate::marking::lemma_path_marked(*old(agent), old(roots)@, bits, path, x);
            }
        }
        lemma_collected_closed(*old(agent), *agent, old(roots)@, roots@, c);
        if old(agent).heap.wf() {
            lemma_collected_wf(*old(agent), *agent, old(roots)@, roots@, c);
        }
    }
    Some(c)
}

} // verus!
