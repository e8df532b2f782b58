//! The sweep phase of the collector: the check that every record that
//! stays names only slots that stay, and the sweep and the fix-up of each
//! heap vector.

use crate::array_buffer::ArrayBufferHeapData;
use crate::array_iterator::ArrayIteratorHeapData;
use crate::compaction::{compact, kept, lemma_kept, rank, rank_swept, source};
use crate::environment::{Binding, EnvironmentData};
use crate::gc::{object_option_swept, CompactionLists};
use crate::heap::Agent;
use crate::marking::agent_roots;
use crate::module::{ModuleHeapData, ResolvedBinding};
use crate::ordinary::{ObjectHeapData, PropertyEntry};
use crate::value::{JsString, Value};
use vstd::prelude::*;

verus! {

/// Whether `after` is the record `before` after the fix-up.
pub open spec fn swept_array_buffer(
    before: ArrayBufferHeapData,
    after: ArrayBufferHeapData,
    c: CompactionLists,
) -> bool {
    &&& after.object_index == object_option_swept(before.object_index, c)
    &&& after.buffer == before.buffer
    &&& after.detach_key == before.detach_key
}

/// Whether `after` is the record `before` after the fix-up.
pub open spec fn swept_array_iterator(
    before: ArrayIteratorHeapData,
    after: ArrayIteratorHeapData,
    c: CompactionLists,
) -> bool {
    after == before.swept(c)
}

/// Whether `after` is the record `before` after the fix-up.
pub open spec fn swept_environment(
    before: EnvironmentData,
    after: EnvironmentData,
    c: CompactionLists,
) -> bool {
    after.bindings@ == before.bindings@.map_values(|b: Binding| b.swept(c))
}

/// Whether `after` is the record `before` after the fix-up.
pub open spec fn swept_module(
    before: ModuleHeapData,
    after: ModuleHeapData,
    c: CompactionLists,
) -> bool {
    &&& after.object_index == object_option_swept(before.object_index, c)
    &&& after.exports@ == before.exports@.map_values(|x: JsString| x.swept(c))
    &&& after.resolutions@ == before.resolutions@.map_values(|x: ResolvedBinding| x.swept(c))
    &&& after.module == before.module.swept(c)
}

/// Whether `after` is the record `before` after the fix-up.
pub open spec fn swept_object(
    before: ObjectHeapData,
    after: ObjectHeapData,
    c: CompactionLists,
) -> bool {
    &&& after.prototype == object_option_swept(before.prototype, c)
    &&& after.extensible == before.extensible
    &&& after.properties@ == before.properties@.map_values(|e: PropertyEntry| e.swept(c))
}

/// Whether the sweep kept every slot that a marked record of `v` names.
pub open spec fn array_buffers_mapped(
    v: Seq<Option<ArrayBufferHeapData>>,
    bits: Seq<bool>,
    c: CompactionLists,
) -> bool {
    forall|i: int|
        0 <= i < v.len() && bits[i] ==> (#[trigger] v[i]) is Some && v[i]->0.mapped(c)
}

/// Whether every marked slot of `v` holds a record, and the sweep kept
/// every slot that such a record names.
pub fn check_array_buffers(
    v: &Vec<Option<ArrayBufferHeapData>>,
    bits: &Vec<bool>,
    c: &CompactionLists,
) -> (r: bool)
    requires
        bits@.len() == v@.len(),
    ensures
        r == array_buffers_mapped(v@, bits@, *c),
{
    let n: usize = v.len();
    let mut i: usize = 0;
    while i < n
        invariant
            i <= n,
            n == v@.len(),
            n == bits@.len(),
            forall|j: int| 0 <= j < i && bits@[j] ==> (#[trigger] v@[j]) is Some && v@[j]->0.mapped(*c),
        decreases n - i,
    {
        if bits[i] {
            match &v[i] {
                Some(data) => {
                    if !data.is_mapped(c) {
                        return false;
                    }
                },
                None => {
                    return false;
                },
            }
        }
        i += 1;
    }
    true
}

/// Whether `after` is what the sweep leaves of `before`: the marked
/// records, each at its rank and fixed up, and nothing else.
pub open spec fn array_buffers_swept(
    before: Seq<Option<ArrayBufferHeapData>>,
    after: Seq<Option<ArrayBufferHeapData>>,
    bits: Seq<bool>,
    c: CompactionLists,
) -> bool {
    rank_swept(before, after, bits, |a: ArrayBufferHeapData, b: ArrayBufferHeapData| swept_array_buffer(a, b, c))
}

/// Drops the records of `v` that are not marked, closes the gaps and
/// fixes up the handles of the records that stay.
pub fn sweep_array_buffers(
    v: &mut Vec<Option<ArrayBufferHeapData>>,
    bits: &Vec<bool>,
    c: &CompactionLists,
)
    requires
        bits@.len() == old(v)@.len(),
        array_buffers_mapped(old(v)@, bits@, *c),
    ensures
        array_buffers_swept(old(v)@, final(v)@, bits@, *c),
{
    proof {
        lemma_kept(old(v)@, bits@);
    }
    compact(v, bits);
    let ghost moved = v@;
    let n: usize = v.len();
    let mut j: usize = 0;
    while j < n
        invariant
            j <= n,
            n == v@.len(),
            n == moved.len(),
            moved == kept(old(v)@, bits@),
            bits@.len() == old(v)@.len(),
            array_buffers_mapped(old(v)@, bits@, *c),
            forall|k: int|
                #![trigger source(bits@, k)]
                0 <= k < moved.len() ==> 0 <= source(bits@, k) < old(v)@.len() && bits@[source(
                    bits@,
                    k,
                )] && moved[k] == old(v)@[source(bits@, k)],
            forall|k: int|
                0 <= k < j ==> (#[trigger] v@[k]) is Some && swept_array_buffer(moved[k]->0, v@[k]->0, *c),
            forall|k: int| j <= k < n ==> v@[k] == moved[k],
        decreases n - j,
    {
        proof {
            let i = source(bits@, j as int);
            assert(moved[j as int] == old(v)@[i]);
            assert(old(v)@[i] is Some && old(v)@[i]->0.mapped(*c));
        }
        match &mut v[j] {
            Some(data) => {
                data.sweep_values(c);
            },
            None => {},
        }
        j += 1;
    }
    proof {
        assert forall|i: int| 0 <= i < old(v)@.len() && bits@[i] implies 0 <= #[trigger] rank(
            bits@,
            i,
        ) < v@.len() && v@[rank(bits@, i)] is Some && swept_array_buffer(
            old(v)@[i]->0,
            v@[rank(bits@, i)]->0,
            *c,
        ) by {
            let k = rank(bits@, i);
            assert(moved[k] == old(v)@[i]);
            assert(v@[k] is Some);
        }
    }
}

/// Whether the sweep kept every slot that a marked record of `v` names.
pub open spec fn array_iterators_mapped(
    v: Seq<Option<ArrayIteratorHeapData>>,
    bits: Seq<bool>,
    c: CompactionLists,
) -> bool {
    forall|i: int|
        0 <= i < v.len() && bits[i] ==> (#[trigger] v[i]) is Some && v[i]->0.mapped(c)
}

/// Whether every marked slot of `v` holds a record, and the sweep kept
/// every slot that such a record names.
pub fn check_array_iterators(
    v: &Vec<Option<ArrayIteratorHeapData>>,
    bits: &Vec<bool>,
    c: &CompactionLists,
) -> (r: bool)
    requires
        bits@.len() == v@.len(),
    ensures
        r == array_iterators_mapped(v@, bits@, *c),
{
    let n: usize = v.len();
    let mut i: usize = 0;
    while i < n
        invariant
            i <= n,
            n == v@.len(),
            n == bits@.len(),
            forall|j: int| 0 <= j < i && bits@[j] ==> (#[trigger] v@[j]) is Some && v@[j]->0.mapped(*c),
        decreases n - i,
    {
        if bits[i] {
            match &v[i] {
                Some(data) => {
                    if !data.is_mapped(c) {
                        return false;
                    }
                },
                None => {
                    return false;
                },
            }
        }
        i += 1;
    }
    true
}

/// Whether `after` is what the sweep leaves of `before`: the marked
/// records, each at its rank and fixed up, and nothing else.
pub open spec fn array_iterators_swept(
    before: Seq<Option<ArrayIteratorHeapData>>,
    after: Seq<Option<ArrayIteratorHeapData>>,
    bits: Seq<bool>,
    c: CompactionLists,
) -> bool {
    rank_swept(before, after, bits, |a: ArrayIteratorHeapData, b: ArrayIteratorHeapData| swept_array_iterator(a, b, c))
}

/// Drops the records of `v` that are not marked, closes the gaps and
/// fixes up the handles of the records that stay.
pub fn sweep_array_iterators(
    v: &mut Vec<Option<ArrayIteratorHeapData>>,
    bits: &Vec<bool>,
    c: &CompactionLists,
)
    requires
        bits@.len() == old(v)@.len(),
        array_iterators_mapped(old(v)@, bits@, *c),
    ensures
        array_iterators_swept(old(v)@, final(v)@, bits@, *c),
{
    proof {
        lemma_kept(old(v)@, bits@);
    }
    compact(v, bits);
    let ghost moved = v@;
    let n: usize = v.len();
    let mut j: usize = 0;
    while j < n
        invariant
            j <= n,
            n == v@.len(),
            n == moved.len(),
            moved == kept(old(v)@, bits@),
            bits@.len() == old(v)@.len(),
            array_iterators_mapped(old(v)@, bits@, *c),
            forall|k: int|
                #![trigger source(bits@, k)]
                0 <= k < moved.len() ==> 0 <= source(bits@, k) < old(v)@.len() && bits@[source(
                    bits@,
                    k,
                )] && moved[k] == old(v)@[source(bits@, k)],
            forall|k: int|
                0 <= k < j ==> (#[trigger] v@[k]) is Some && swept_array_iterator(moved[k]->0, v@[k]->0, *c),
            forall|k: int| j <= k < n ==> v@[k] == moved[k],
        decreases n - j,
    {
        proof {
            let i = source(bits@, j as int);
            assert(moved[j as int] == old(v)@[i]);
            assert(old(v)@[i] is Some && old(v)@[i]->0.mapped(*c));
        }
        match &mut v[j] {
            Some(data) => {
                data.sweep_values(c);
            },
            None => {},
        }
        j += 1;
    }
    proof {
        assert forall|i: int| 0 <= i < old(v)@.len() && bits@[i] implies 0 <= #[trigger] rank(
            bits@,
            i,
        ) < v@.len() && v@[rank(bits@, i)] is Some && swept_array_iterator(
            old(v)@[i]->0,
            v@[rank(bits@, i)]->0,
            *c,
        ) by {
            let k = rank(bits@, i);
            assert(moved[k] == old(v)@[i]);
            assert(v@[k] is Some);
        }
    }
}

/// Whether the sweep kept every slot that a marked record of `v` names.
pub open spec fn environments_mapped(
    v: Seq<Option<EnvironmentData>>,
    bits: Seq<bool>,
    c: CompactionLists,
) -> bool {
    forall|i: int|
        0 <= i < v.len() && bits[i] ==> (#[trigger] v[i]) is Some && v[i]->0.mapped(c)
}

/// Whether every marked slot of `v` holds a record, and the sweep kept
/// every slot that such a record names.
pub fn check_environments(
    v: &Vec<Option<EnvironmentData>>,
    bits: &Vec<bool>,
    c: &CompactionLists,
) -> (r: bool)
    requires
        bits@.len() == v@.len(),
    ensures
        r == environments_mapped(v@, bits@, *c),
{
    let n: usize = v.len();
    let mut i: usize = 0;
    while i < n
        invariant
            i <= n,
            n == v@.len(),
            n == bits@.len(),
            forall|j: int| 0 <= j < i && bits@[j] ==> (#[trigger] v@[j]) is Some && v@[j]->0.mapped(*c),
        decreases n - i,
    {
        if bits[i] {
            match &v[i] {
                Some(data) => {
                    if !data.is_mapped(c) {
                        return false;
                    }
                },
                None => {
                    return false;
                },
            }
        }
        i += 1;
    }
    true
}

/// Whether `after` is what the sweep leaves of `before`: the marked
/// records, each at its rank and fixed up, and nothing else.
pub open spec fn environments_swept(
    before: Seq<Option<EnvironmentData>>,
    after: Seq<Option<EnvironmentData>>,
    bits: Seq<bool>,
    c: CompactionLists,
) -> bool {
    rank_swept(before, after, bits, |a: EnvironmentData, b: EnvironmentData| swept_environment(a, b, c))
}

/// Drops the records of `v` that are not marked, closes the gaps and
/// fixes up the handles of the records that stay.
pub fn sweep_environments(
    v: &mut Vec<Option<EnvironmentData>>,
    bits: &Vec<bool>,
    c: &CompactionLists,
)
    requires
        bits@.len() == old(v)@.len(),
        environments_mapped(old(v)@, bits@, *c),
    ensures
        environments_swept(old(v)@, final(v)@, bits@, *c),
{
    proof {
        lemma_kept(old(v)@, bits@);
    }
    compact(v, bits);
    let ghost moved = v@;
    let n: usize = v.len();
    let mut j: usize = 0;
    while j < n
        invariant
            j <= n,
            n == v@.len(),
            n == moved.len(),
            moved == kept(old(v)@, bits@),
            bits@.len() == old(v)@.len(),
            environments_mapped(old(v)@, bits@, *c),
            forall|k: int|
                #![trigger source(bits@, k)]
                0 <= k < moved.len() ==> 0 <= source(bits@, k) < old(v)@.len() && bits@[source(
                    bits@,
                    k,
                )] && moved[k] == old(v)@[source(bits@, k)],
            forall|k: int|
                0 <= k < j ==> (#[trigger] v@[k]) is Some && swept_environment(moved[k]->0, v@[k]->0, *c),
            forall|k: int| j <= k < n ==> v@[k] == moved[k],
        decreases n - j,
    {
        proof {
            let i = source(bits@, j as int);
            assert(moved[j as int] == old(v)@[i]);
            assert(old(v)@[i] is Some && old(v)@[i]->0.mapped(*c));
        }
        match &mut v[j] {
            Some(data) => {
                data.sweep_values(c);
            },
            None => {},
        }
        j += 1;
    }
    proof {
        assert forall|i: int| 0 <= i < old(v)@.len() && bits@[i] implies 0 <= #[trigger] rank(
            bits@,
            i,
        ) < v@.len() && v@[rank(bits@, i)] is Some && swept_environment(
            old(v)@[i]->0,
            v@[rank(bits@, i)]->0,
            *c,
        ) by {
            let k = rank(bits@, i);
            assert(moved[k] == old(v)@[i]);
            assert(v@[k] is Some);
        }
    }
}

/// Whether the sweep kept every slot that a marked record of `v` names.
pub open spec fn modules_mapped(
    v: Seq<Option<ModuleHeapData>>,
    bits: Seq<bool>,
    c: CompactionLists,
) -> bool {
    forall|i: int|
        0 <= i < v.len() && bits[i] ==> (#[trigger] v[i]) is Some && v[i]->0.mapped(c)
}

/// Whether every marked slot of `v` holds a record, and the sweep kept
/// every slot that such a record names.
pub fn check_modules(
    v: &Vec<Option<ModuleHeapData>>,
    bits: &Vec<bool>,
    c: &CompactionLists,
) -> (r: bool)
    requires
        bits@.len() == v@.len(),
    ensures
        r == modules_mapped(v@, bits@, *c),
{
    let n: usize = v.len();
    let mut i: usize = 0;
    while i < n
        invariant
            i <= n,
            n == v@.len(),
            n == bits@.len(),
            forall|j: int| 0 <= j < i && bits@[j] ==> (#[trigger] v@[j]) is Some && v@[j]->0.mapped(*c),
        decreases n - i,
    {
        if bits[i] {
            match &v[i] {
                Some(data) => {
                    if !data.is_mapped(c) {
                        return false;
                    }
                },
                None => {
                    return false;
                },
            }
        }
        i += 1;
    }
    true
}

/// Whether `after` is what the sweep leaves of `before`: the marked
/// records, each at its rank and fixed up, and nothing else.
pub open spec fn modules_swept(
    before: Seq<Option<ModuleHeapData>>,
    after: Seq<Option<ModuleHeapData>>,
    bits: Seq<bool>,
    c: CompactionLists,
) -> bool {
    rank_swept(before, after, bits, |a: ModuleHeapData, b: ModuleHeapData| swept_module(a, b, c))
}

/// Drops the records of `v` that are not marked, closes the gaps and
/// fixes up the handles of the records that stay.
pub fn sweep_modules(v: &mut Vec<Option<ModuleHeapData>>, bits: &Vec<bool>, c: &CompactionLists)
    requires
        bits@.len() == old(v)@.len(),
        modules_mapped(old(v)@, bits@, *c),
    ensures
        modules_swept(old(v)@, final(v)@, bits@, *c),
{
    proof {
        lemma_kept(old(v)@, bits@);
    }
    compact(v, bits);
    let ghost moved = v@;
    let n: usize = v.len();
    let mut j: usize = 0;
    while j < n
        invariant
            j <= n,
            n == v@.len(),
            n == moved.len(),
            moved == kept(old(v)@, bits@),
            bits@.len() == old(v)@.len(),
            modules_mapped(old(v)@, bits@, *c),
            forall|k: int|
                #![trigger source(bits@, k)]
                0 <= k < moved.len() ==> 0 <= source(bits@, k) < old(v)@.len() && bits@[source(
                    bits@,
                    k,
                )] && moved[k] == old(v)@[source(bits@, k)],
            forall|k: int|
                0 <= k < j ==> (#[trigger] v@[k]) is Some && swept_module(moved[k]->0, v@[k]->0, *c),
            forall|k: int| j <= k < n ==> v@[k] == moved[k],
        decreases n - j,
    {
        proof {
            let i = source(bits@, j as int);
            assert(moved[j as int] == old(v)@[i]);
            assert(old(v)@[i] is Some && old(v)@[i]->0.mapped(*c));
        }
        match &mut v[j] {
            Some(data) => {
                data.sweep_values(c);
            },
            None => {},
        }
        j += 1;
    }
    proof {
        assert forall|i: int| 0 <= i < old(v)@.len() && bits@[i] implies 0 <= #[trigger] rank(
            bits@,
            i,
        ) < v@.len() && v@[rank(bits@, i)] is Some && swept_module(
            old(v)@[i]->0,
            v@[rank(bits@, i)]->0,
            *c,
        ) by {
            let k = rank(bits@, i);
            assert(moved[k] == old(v)@[i]);
            assert(v@[k] is Some);
        }
    }
}

/// Whether the sweep kept every slot that a marked record of `v` names.
pub open spec fn objects_mapped(
    v: Seq<Option<ObjectHeapData>>,
    bits: Seq<bool>,
    c: CompactionLists,
) -> bool {
    forall|i: int|
        0 <= i < v.len() && bits[i] ==> (#[trigger] v[i]) is Some && v[i]->0.mapped(c)
}

/// Whether every marked slot of `v` holds a record, and the sweep kept
/// every slot that such a record names.
pub fn check_objects(
    v: &Vec<Option<ObjectHeapData>>,
    bits: &Vec<bool>,
    c: &CompactionLists,
) -> (r: bool)
    requires
        bits@.len() == v@.len(),
    ensures
        r == objects_mapped(v@, bits@, *c),
{
    let n: usize = v.len();
    let mut i: usize = 0;
    while i < n
        invariant
            i <= n,
            n == v@.len(),
            n == bits@.len(),
            forall|j: int| 0 <= j < i && bits@[j] ==> (#[trigger] v@[j]) is Some && v@[j]->0.mapped(*c),
        decreases n - i,
    {
        if bits[i] {
            match &v[i] {
                Some(data) => {
                    if !data.is_mapped(c) {
                        return false;
                    }
                },
                None => {
                    return false;
                },
            }
        }
        i += 1;
    }
    true
}

/// Whether `after` is what the sweep leaves of `before`: the marked
/// records, each at its rank and fixed up, and nothing else.
pub open spec fn objects_swept(
    before: Seq<Option<ObjectHeapData>>,
    after: Seq<Option<ObjectHeapData>>,
    bits: Seq<bool>,
    c: CompactionLists,
) -> bool {
    rank_swept(before, after, bits, |a: ObjectHeapData, b: ObjectHeapData| swept_object(a, b, c))
}

/// Drops the records of `v` that are not marked, closes the gaps and
/// fixes up the handles of the records that stay.
pub fn sweep_objects(v: &mut Vec<Option<ObjectHeapData>>, bits: &Vec<bool>, c: &CompactionLists)
    requires
        bits@.len() == old(v)@.len(),
        objects_mapped(old(v)@, bits@, *c),
    ensures
        objects_swept(old(v)@, final(v)@, bits@, *c),
{
    proof {
        lemma_kept(old(v)@, bits@);
    }
    compact(v, bits);
    let ghost moved = v@;
    let n: usize = v.len();
    let mut j: usize = 0;
    while j < n
        invariant
            j <= n,
            n == v@.len(),
            n == moved.len(),
            moved == kept(old(v)@, bits@),
            bits@.len() == old(v)@.len(),
            objects_mapped(old(v)@, bits@, *c),
            forall|k: int|
                #![trigger source(bits@, k)]
                0 <= k < moved.len() ==> 0 <= source(bits@, k) < old(v)@.len() && bits@[source(
                    bits@,
                    k,
                )] && moved[k] == old(v)@[source(bits@, k)],
            forall|k: int|
                0 <= k < j ==> (#[trigger] v@[k]) is Some && swept_object(moved[k]->0, v@[k]->0, *c),
            forall|k: int| j <= k < n ==> v@[k] == moved[k],
        decreases n - j,
    {
        proof {
            let i = source(bits@, j as int);
            assert(moved[j as int] == old(v)@[i]);
            assert(old(v)@[i] is Some && old(v)@[i]->0.mapped(*c));
        }
        match &mut v[j] {
            Some(data) => {
                data.sweep_values(c);
            },
            None => {},
        }
        j += 1;
    }
    proof {
        assert forall|i: int| 0 <= i < old(v)@.len() && bits@[i] implies 0 <= #[trigger] rank(
            bits@,
            i,
        ) < v@.len() && v@[rank(bits@, i)] is Some && swept_object(
            old(v)@[i]->0,
            v@[rank(bits@, i)]->0,
            *c,
        ) by {
            let k = rank(bits@, i);
            assert(moved[k] == old(v)@[i]);
            assert(v@[k] is Some);
        }
    }
}

/// Whether the sweep kept the slots of the prototypes and of the global
/// object of the agent.
pub open spec fn agent_mapped(agent: Agent, c: CompactionLists) -> bool {
    forall|i: int| 0 <= i < 9 ==> (#[trigger] agent_roots(agent)[i]).mapped(c)
}

/// Whether the sweep kept the slots of the prototypes and of the global
/// object of the agent.
pub fn check_agent(agent: &Agent, c: &CompactionLists) -> (r: bool)
    ensures
        r == agent_mapped(*agent, *c),
{
    let r = agent.intrinsics.object_prototype.sweep_weak_reference(c).is_some()
        && agent.intrinsics.array_buffer_prototype.sweep_weak_reference(c).is_some()
        && agent.intrinsics.array_iterator_prototype.sweep_weak_reference(c).is_some()
        && agent.intrinsics.boolean_prototype.sweep_weak_reference(c).is_some()
        && agent.intrinsics.string_prototype.sweep_weak_reference(c).is_some()
        && agent.intrinsics.symbol_prototype.sweep_weak_reference(c).is_some()
        && agent.intrinsics.number_prototype.sweep_weak_reference(c).is_some()
        && agent.intrinsics.big_int_prototype.sweep_weak_reference(c).is_some()
        && agent.global_object.sweep_weak_reference(c).is_some();
    proof {
        let roots = agent_roots(*agent);
        if !r {
            assert(!roots[0].mapped(*c) || !roots[1].mapped(*c) || !roots[2].mapped(*c)
                || !roots[3].mapped(*c) || !roots[4].mapped(*c) || !roots[5].mapped(*c)
                || !roots[6].mapped(*c) || !roots[7].mapped(*c) || !roots[8].mapped(*c));
        }
    }
    r
}

/// Whether the sweep kept every slot that a value of `roots` names.
pub fn check_roots(roots: &Vec<Value>, c: &CompactionLists) -> (r: bool)
    ensures
        r == forall|k: int| 0 <= k < roots@.len() ==> (#[trigger] roots@[k]).mapped(*c),
{
    let n: usize = roots.len();
    let mut i: usize = 0;
    while i < n
        invariant
            i <= n,
            n == roots@.len(),
            forall|k: int| 0 <= k < i ==> (#[trigger] roots@[k]).mapped(*c),
        decreases n - i,
    {
        if !roots[i].is_mapped(c) {
            return false;
        }
        i += 1;
    }
    true
}

/// Moves the handles of the values of `roots` to the new places of their
/// slots.
pub fn sweep_roots(roots: &mut Vec<Value>, c: &CompactionLists)
    requires
        forall|k: int| 0 <= k < old(roots)@.len() ==> (#[trigger] old(roots)@[k]).mapped(*c),
    ensures
        final(roots)@ == old(roots)@.map_values(|v: Value| v.swept(*c)),
{
    let n: usize = roots.len();
    let mut i: usize = 0;
    while i < n
        invariant
            i <= n,
            n == roots@.len(),
            n == old(roots)@.len(),
            forall|k: int| 0 <= k < n ==> (#[trigger] old(roots)@[k]).mapped(*c),
            forall|k: int| 0 <= k < i ==> roots@[k] == old(roots)@[k].swept(*c),
            forall|k: int| i <= k < n ==> roots@[k] == old(roots)@[k],
        decreases n - i,
    {
        let mut v = roots[i];
        assert(old(roots)@[i as int].mapped(*c));
        v.sweep_values(c);
        roots.set(i, v);
        i += 1;
    }
    proof {
        assert(roots@ =~= old(roots)@.map_values(|v: Value| v.swept(*c)));
    }
}

} // verus!
