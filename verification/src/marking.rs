//! The mark phase of the collector: the marks, the handles that the
//! collector starts from, and the walk over everything that they reach.

use crate::compaction::{lemma_rank_nonnegative, lemma_rank_set, marks_live, rank};
use crate::gc::{HeapRef, WorkQueues};
use crate::heap::{Agent, Heap};
use crate::value::{OrdinaryObject, Value};
use vstd::prelude::*;

verus! {

/// The marks of the mark phase: one for each slot of each heap vector.
#[derive(Debug)]
pub struct HeapBits {
    pub array_buffers: Vec<bool>,
    pub array_iterators: Vec<bool>,
    pub environments: Vec<bool>,
    pub modules: Vec<bool>,
    pub objects: Vec<bool>,
    pub strings: Vec<bool>,
}

/// `n` marks that are not set.
pub fn clear_bits(n: usize) -> (r: Vec<bool>)
    ensures
        r@.len() == n,
        forall|i: int| 0 <= i < n ==> !r@[i],
{
    let mut bits: Vec<bool> = Vec::new();
    let mut i: usize = 0;
    while i < n
        invariant
            i <= n,
            bits@.len() == i,
            forall|j: int| 0 <= j < i ==> !bits@[j],
        decreases n - i,
    {
        bits.push(false);
        i += 1;
    }
    bits
}

impl HeapBits {
    /// There is a mark for each slot of `heap`, and every marked slot
    /// holds a record.
    pub open spec fn sound(self, heap: Heap) -> bool {
        &&& marks_live(self.array_buffers@, heap.array_buffers@)
        &&& marks_live(self.array_iterators@, heap.array_iterators@)
        &&& marks_live(self.environments@, heap.environments@)
        &&& marks_live(self.modules@, heap.modules@)
        &&& marks_live(self.objects@, heap.objects@)
        &&& marks_live(self.strings@, heap.strings@)
    }

    /// No slot is marked.
    pub open spec fn clear(self) -> bool {
        &&& forall|i: int| 0 <= i < self.array_buffers@.len() ==> !self.array_buffers@[i]
        &&& forall|i: int| 0 <= i < self.array_iterators@.len() ==> !self.array_iterators@[i]
        &&& forall|i: int| 0 <= i < self.environments@.len() ==> !self.environments@[i]
        &&& forall|i: int| 0 <= i < self.modules@.len() ==> !self.modules@[i]
        &&& forall|i: int| 0 <= i < self.objects@.len() ==> !self.objects@[i]
        &&& forall|i: int| 0 <= i < self.strings@.len() ==> !self.strings@[i]
    }

    /// Marks for the slots of `heap`, none of them set.
    pub fn new(heap: &Heap) -> (r: Self)
        ensures
            r.sound(*heap),
            r.clear(),
    {
        HeapBits {
            array_buffers: clear_bits(heap.array_buffers.len()),
            array_iterators: clear_bits(heap.array_iterators.len()),
            environments: clear_bits(heap.environments.len()),
            modules: clear_bits(heap.modules.len()),
            objects: clear_bits(heap.objects.len()),
            strings: clear_bits(heap.strings.len()),
        }
    }
}

/// Whether the slot that `r` names holds a record in `heap`.
pub open spec fn live(heap: Heap, r: HeapRef) -> bool {
    match r {
        HeapRef::ArrayBuffer(h) => heap.has_array_buffer(h),
        HeapRef::ArrayIterator(h) => heap.has_array_iterator(h),
        HeapRef::Environment(h) => heap.has_environment(h),
        HeapRef::Module(h) => heap.has_module(h),
        HeapRef::Object(h) => heap.has_object(h),
        HeapRef::String(h) => heap.has_string(h),
    }
}

/// Whether the slot that `r` names is marked.
pub open spec fn marked(bits: HeapBits, r: HeapRef) -> bool {
    match r {
        HeapRef::ArrayBuffer(h) => h.0 < bits.array_buffers@.len() && bits.array_buffers@[h.0 as int],
        HeapRef::ArrayIterator(h) => h.0 < bits.array_iterators@.len()
            && bits.array_iterators@[h.0 as int],
        HeapRef::Environment(h) => h.0 < bits.environments@.len() && bits.environments@[h.0 as int],
        HeapRef::Module(h) => h.0 < bits.modules@.len() && bits.modules@[h.0 as int],
        HeapRef::Object(h) => h.0 < bits.objects@.len() && bits.objects@[h.0 as int],
        HeapRef::String(h) => h.0 < bits.strings@.len() && bits.strings@[h.0 as int],
    }
}

/// The handles that the record in the slot that `r` names holds.
pub open spec fn record_refs(heap: Heap, r: HeapRef) -> Seq<HeapRef> {
    match r {
        HeapRef::ArrayBuffer(h) => heap.array_buffer(h).refs(),
        HeapRef::ArrayIterator(h) => heap.array_iterator(h).refs(),
        HeapRef::Environment(h) => heap.environment(h).refs(),
        HeapRef::Module(h) => heap.module(h).refs(),
        HeapRef::Object(h) => heap.object(h).refs(),
        HeapRef::String(h) => Seq::<HeapRef>::empty(),
    }
}

/// Whether every handle of `refs` names a slot that holds a record.
pub open spec fn all_live(heap: Heap, refs: Seq<HeapRef>) -> bool {
    forall|k: int| 0 <= k < refs.len() ==> live(heap, #[trigger] refs[k])
}

/// The handles that the values of `roots` hold.
pub open spec fn roots_refs(roots: Seq<Value>) -> Seq<HeapRef>
    decreases roots.len(),
{
    if roots.len() == 0 {
        Seq::<HeapRef>::empty()
    } else {
        roots_refs(roots.drop_last()) + roots.last().heap_ref_seq()
    }
}

/// The prototypes and the global object of the agent, which the
/// collector keeps.
pub open spec fn agent_roots(agent: Agent) -> Seq<OrdinaryObject> {
    seq![
        agent.intrinsics.object_prototype,
        agent.intrinsics.array_buffer_prototype,
        agent.intrinsics.array_iterator_prototype,
        agent.intrinsics.boolean_prototype,
        agent.intrinsics.string_prototype,
        agent.intrinsics.symbol_prototype,
        agent.intrinsics.number_prototype,
        agent.intrinsics.big_int_prototype,
        agent.global_object,
    ]
}

/// The handles that the collector starts from: those of the prototypes
/// and of the global object of the agent, and those of the roots.
pub open spec fn start_refs(agent: Agent, roots: Seq<Value>) -> Seq<HeapRef> {
    agent_roots(agent).map_values(|o: OrdinaryObject| HeapRef::Object(o)) + roots_refs(roots)
}

/// Whether the heap has no stale handle and is not too large: every
/// handle that the collector starts from, and every handle that a record
/// holds, names a slot that holds a record, and every slot can be named
/// by a handle.
pub open spec fn closed(agent: Agent, roots: Seq<Value>) -> bool {
    &&& all_live(agent.heap, start_refs(agent, roots))
    &&& forall|r: HeapRef| live(agent.heap, r) ==> all_live(agent.heap, #[trigger] record_refs(agent.heap, r))
    &&& agent.heap.array_buffers@.len() <= u32::MAX
    &&& agent.heap.array_iterators@.len() <= u32::MAX
    &&& agent.heap.environments@.len() <= u32::MAX
    &&& agent.heap.modules@.len() <= u32::MAX
    &&& agent.heap.objects@.len() <= u32::MAX
    &&& agent.heap.strings@.len() <= u32::MAX
}

/// Whether `path` leads to `r` from a handle that the collector starts
/// from, each handle of the path being held by the record that the
/// handle before it names.
pub open spec fn is_path(agent: Agent, roots: Seq<Value>, path: Seq<HeapRef>, r: HeapRef) -> bool {
    &&& path.len() > 0
    &&& start_refs(agent, roots).contains(path[0])
    &&& path.last() == r
    &&& forall|i: int|
        0 <= i < path.len() - 1 ==> live(agent.heap, #[trigger] path[i]) && record_refs(
            agent.heap,
            path[i],
        ).contains(path[i + 1])
}

/// Whether the handles that the collector starts from reach `r`.
pub open spec fn reachable(agent: Agent, roots: Seq<Value>, r: HeapRef) -> bool {
    exists|path: Seq<HeapRef>| is_path(agent, roots, path, r)
}

/// Every handle that the collector starts from is reached.
pub proof fn lemma_reachable_start(agent: Agent, roots: Seq<Value>, k: int)
    requires
        0 <= k < start_refs(agent, roots).len(),
    ensures
        reachable(agent, roots, start_refs(agent, roots)[k]),
{
    let x = start_refs(agent, roots)[k];
    let path = seq![x];
    assert(path[0] == x);
    assert(is_path(agent, roots, path, x));
}

/// Every handle that a reached record holds is reached.
pub proof fn lemma_reachable_step(agent: Agent, roots: Seq<Value>, r: HeapRef, k: int)
    requires
        reachable(agent, roots, r),
        live(agent.heap, r),
        0 <= k < record_refs(agent.heap, r).len(),
    ensures
        reachable(agent, roots, record_refs(agent.heap, r)[k]),
{
    let c = record_refs(agent.heap, r)[k];
    let path = choose|path: Seq<HeapRef>| is_path(agent, roots, path, r);
    let next = path.push(c);
    assert(next[0] == path[0]);
    assert forall|i: int| 0 <= i < next.len() - 1 implies live(agent.heap, #[trigger] next[i])
        && record_refs(agent.heap, next[i]).contains(next[i + 1]) by {
        if i < path.len() - 1 {
            assert(next[i] == path[i]);
            assert(next[i + 1] == path[i + 1]);
        } else {
            assert(next[i] == r);
            assert(next[i + 1] == c);
        }
    }
    assert(is_path(agent, roots, next, c));
}

/// With complete marks every reached handle names a marked slot.
pub proof fn lemma_path_marked(
    agent: Agent,
    roots: Seq<Value>,
    bits: HeapBits,
    path: Seq<HeapRef>,
    r: HeapRef,
)
    requires
        complete(agent, roots, bits),
        is_path(agent, roots, path, r),
    ensures
        marked(bits, r),
    decreases path.len(),
{
    if path.len() == 1 {
        let starts = start_refs(agent, roots);
        let k = choose|k: int| 0 <= k < starts.len() && starts[k] == path[0];
        assert(marked(bits, starts[k]) || Seq::<HeapRef>::empty().contains(starts[k]));
    } else {
        let init = path.drop_last();
        let q = init.last();
        assert(init[0] == path[0]);
        assert forall|i: int| 0 <= i < init.len() - 1 implies live(agent.heap, #[trigger] init[i])
            && record_refs(agent.heap, init[i]).contains(init[i + 1]) by {
            assert(init[i] == path[i]);
            assert(init[i + 1] == path[i + 1]);
        }
        assert(is_path(agent, roots, init, q));
        lemma_path_marked(agent, roots, bits, init, q);
        assert(path[path.len() - 2] == q);
        let refs = record_refs(agent.heap, q);
        assert(refs.contains(path[path.len() - 2 + 1]));
        let k = choose|k: int| 0 <= k < refs.len() && refs[k] == r;
        assert(all_reached(bits, Seq::<HeapRef>::empty(), refs));
        assert(marked(bits, refs[k]) || Seq::<HeapRef>::empty().contains(refs[k]));
    }
}

/// What the mark phase keeps true on every heap: every marked slot and
/// every queued handle is reached by the handles that the collector
/// starts from.
pub open spec fn traced(agent: Agent, roots: Seq<Value>, bits: HeapBits, queue: Seq<HeapRef>) -> bool {
    &&& forall|x: HeapRef| #[trigger] marked(bits, x) ==> reachable(agent, roots, x)
    &&& forall|k: int| 0 <= k < queue.len() ==> reachable(agent, roots, #[trigger] queue[k])
}

/// A visit marks and queues only what is reached.
pub proof fn lemma_visit_keeps_traced(
    agent: Agent,
    roots: Seq<Value>,
    before: HeapBits,
    after: HeapBits,
    queue: Seq<HeapRef>,
    next: Seq<HeapRef>,
    done: bool,
)
    requires
        before.sound(agent.heap),
        queue.len() > 0,
        traced(agent, roots, before, queue),
        done == (live(agent.heap, queue.last()) && !marked(before, queue.last())),
        !done ==> after == before && next == queue.drop_last(),
        done ==> mark_added(before, after, queue.last()) && next =~= queue.drop_last()
            + record_refs(agent.heap, queue.last()),
    ensures
        traced(agent, roots, after, next),
{
    let r = queue.last();
    let rest = queue.drop_last();
    assert(reachable(agent, roots, r)) by {
        assert(queue[queue.len() - 1] == r);
    }
    assert forall|x: HeapRef| #[trigger] marked(after, x) implies reachable(agent, roots, x) by {
        if !marked(before, x) {
            assert(x == r);
        }
    }
    assert forall|k: int| 0 <= k < next.len() implies reachable(agent, roots, #[trigger] next[k]) by {
        if k < rest.len() {
            assert(next[k] == queue[k]);
        } else {
            assert(done);
            assert(next[k] == record_refs(agent.heap, r)[k - rest.len()]);
            lemma_reachable_step(agent, roots, r, k - rest.len());
        }
    }
}

/// Whether each handle of `refs` names a marked slot or waits in `queue`.
pub open spec fn all_reached(bits: HeapBits, queue: Seq<HeapRef>, refs: Seq<HeapRef>) -> bool {
    forall|k: int|
        0 <= k < refs.len() ==> marked(bits, #[trigger] refs[k]) || queue.contains(refs[k])
}

/// Whether the marks are complete: every handle that the collector
/// starts from, and every handle that a marked record holds, names a
/// marked slot.
pub open spec fn complete(agent: Agent, roots: Seq<Value>, bits: HeapBits) -> bool {
    &&& all_reached(bits, Seq::<HeapRef>::empty(), start_refs(agent, roots))
    &&& forall|r: HeapRef|
        #[trigger] marked(bits, r) ==> all_reached(
            bits,
            Seq::<HeapRef>::empty(),
            record_refs(agent.heap, r),
        )
}

/// Number of slots that are not marked.
pub open spec fn unmarked(bits: HeapBits) -> int {
    bits.array_buffers@.len() - rank(bits.array_buffers@, bits.array_buffers@.len() as int)
        + bits.array_iterators@.len() - rank(
        bits.array_iterators@,
        bits.array_iterators@.len() as int,
    ) + bits.environments@.len() - rank(bits.environments@, bits.environments@.len() as int)
        + bits.modules@.len() - rank(bits.modules@, bits.modules@.len() as int)
        + bits.objects@.len() - rank(bits.objects@, bits.objects@.len() as int)
        + bits.strings@.len() - rank(bits.strings@, bits.strings@.len() as int)
}

/// Whether `after` is `before` with the slot that `r` names marked.
pub open spec fn mark_added(before: HeapBits, after: HeapBits, r: HeapRef) -> bool {
    &&& after.array_buffers@ == if r is ArrayBuffer {
        before.array_buffers@.update(r->ArrayBuffer_0.0 as int, true)
    } else {
        before.array_buffers@
    }
    &&& after.array_iterators@ == if r is ArrayIterator {
        before.array_iterators@.update(r->ArrayIterator_0.0 as int, true)
    } else {
        before.array_iterators@
    }
    &&& after.environments@ == if r is Environment {
        before.environments@.update(r->Environment_0.0 as int, true)
    } else {
        before.environments@
    }
    &&& after.modules@ == if r is Module {
        before.modules@.update(r->Module_0.0 as int, true)
    } else {
        before.modules@
    }
    &&& after.objects@ == if r is Object {
        before.objects@.update(r->Object_0.0 as int, true)
    } else {
        before.objects@
    }
    &&& after.strings@ == if r is String {
        before.strings@.update(r->String_0.0 as int, true)
    } else {
        before.strings@
    }
}

/// Visits the handle `r`: when it names a record that is not marked yet,
/// marks the record and queues the handles that it holds. Returns whether
/// it marked a record.
pub fn visit(heap: &Heap, bits: &mut HeapBits, queues: &mut WorkQueues, r: HeapRef) -> (done: bool)
    requires
        old(bits).sound(*heap),
    ensures
        final(bits).sound(*heap),
        done == (live(*heap, r) && !marked(*old(bits), r)),
        !done ==> *final(bits) == *old(bits) && *final(queues) == *old(queues),
        done ==> mark_added(*old(bits), *final(bits), r) && final(queues)@ =~= old(queues)@
            + record_refs(*heap, r) && unmarked(*final(bits)) == unmarked(*old(bits)) - 1,
{
    match r {
        HeapRef::ArrayBuffer(h) => {
            let i: usize = h.0 as usize;
            if i < heap.array_buffers.len() && !bits.array_buffers[i] {
                match &heap.array_buffers[i] {
                    Some(data) => {
                        proof {
                            lemma_rank_set(bits.array_buffers@, i as int, bits.array_buffers@.len() as int);
                        }
                        bits.array_buffers.set(i, true);
                        data.mark_values(queues);
                        true
                    },
                    None => false,
                }
            } else {
                false
            }
        },
        HeapRef::ArrayIterator(h) => {
            let i: usize = h.0 as usize;
            if i < heap.array_iterators.len() && !bits.array_iterators[i] {
                match &heap.array_iterators[i] {
                    Some(data) => {
                        proof {
                            lemma_rank_set(bits.array_iterators@, i as int, bits.array_iterators@.len() as int);
                        }
                        bits.array_iterators.set(i, true);
                        data.mark_values(queues);
                        true
                    },
                    None => false,
                }
            } else {
                false
            }
        },
        HeapRef::Environment(h) => {
            let i: usize = h.0 as usize;
            if i < heap.environments.len() && !bits.environments[i] {
                match &heap.environments[i] {
                    Some(data) => {
                        proof {
                            lemma_rank_set(bits.environments@, i as int, bits.environments@.len() as int);
                        }
                        bits.environments.set(i, true);
                        data.mark_values(queues);
                        true
                    },
                    None => false,
                }
            } else {
                false
            }
        },
        HeapRef::Module(h) => {
            let i: usize = h.0 as usize;
            if i < heap.modules.len() && !bits.modules[i] {
                match &heap.modules[i] {
                    Some(data) => {
                        proof {
                            lemma_rank_set(bits.modules@, i as int, bits.modules@.len() as int);
                        }
                        bits.modules.set(i, true);
                        data.mark_values(queues);
                        true
                    },
                    None => false,
                }
            } else {
                false
            }
        },
        HeapRef::Object(h) => {
            let i: usize = h.0 as usize;
            if i < heap.objects.len() && !bits.objects[i] {
                match &heap.objects[i] {
                    Some(data) => {
                        proof {
                            lemma_rank_set(bits.objects@, i as int, bits.objects@.len() as int);
                        }
                        bits.objects.set(i, true);
                        data.mark_values(queues);
                        true
                    },
                    None => false,
                }
            } else {
                false
            }
        },
        HeapRef::String(h) => {
            let i: usize = h.0 as usize;
            if i < heap.strings.len() && !bits.strings[i] {
                match &heap.strings[i] {
                    Some(data) => {
                        proof {
                            lemma_rank_set(bits.strings@, i as int, bits.strings@.len() as int);
                        }
                        bits.strings.set(i, true);
                        proof {
                            assert(queues@ + Seq::<HeapRef>::empty() =~= queues@);
                        }
                        true
                    },
                    None => false,
                }
            } else {
                false
            }
        },
    }
}

/// A handle that is in a sequence is in the sequence without its last
/// handle, or is that handle.
pub proof fn lemma_contains_drop_last(s: Seq<HeapRef>, x: HeapRef)
    requires
        s.len() > 0,
        s.contains(x),
    ensures
        s.drop_last().contains(x) || x == s.last(),
{
    let i = choose|i: int| 0 <= i < s.len() && s[i] == x;
    if i < s.len() - 1 {
        assert(s.drop_last()[i] == x);
    }
}

/// A handle is in the concatenation of two sequences when it is in one
/// of them.
pub proof fn lemma_contains_concat(a: Seq<HeapRef>, b: Seq<HeapRef>, x: HeapRef)
    ensures
        a.contains(x) ==> (a + b).contains(x),
        b.contains(x) ==> (a + b).contains(x),
{
    if a.contains(x) {
        let i = choose|i: int| 0 <= i < a.len() && a[i] == x;
        assert((a + b)[i] == x);
    }
    if b.contains(x) {
        let i = choose|i: int| 0 <= i < b.len() && b[i] == x;
        assert((a + b)[a.len() + i] == x);
    }
}

/// What the mark phase keeps true while it works, when the heap has no
/// stale handle: every queued handle names a record, and every handle
/// that the collector starts from or that a marked record holds names a
/// marked slot or is queued.
pub open spec fn marking(
    agent: Agent,
    roots: Seq<Value>,
    bits: HeapBits,
    queue: Seq<HeapRef>,
) -> bool {
    &&& all_live(agent.heap, queue)
    &&& all_reached(bits, queue, start_refs(agent, roots))
    &&& forall|r: HeapRef|
        #[trigger] marked(bits, r) ==> all_reached(bits, queue, record_refs(agent.heap, r))
}

/// A visit keeps what the mark phase keeps true.
pub proof fn lemma_visit_keeps_marking(
    agent: Agent,
    roots: Seq<Value>,
    before: HeapBits,
    after: HeapBits,
    queue: Seq<HeapRef>,
    next: Seq<HeapRef>,
    done: bool,
)
    requires
        closed(agent, roots),
        before.sound(agent.heap),
        queue.len() > 0,
        marking(agent, roots, before, queue),
        done == (live(agent.heap, queue.last()) && !marked(before, queue.last())),
        !done ==> after == before && next == queue.drop_last(),
        done ==> mark_added(before, after, queue.last()) && next =~= queue.drop_last()
            + record_refs(agent.heap, queue.last()),
    ensures
        marking(agent, roots, after, next),
{
    let r = queue.last();
    let rest = queue.drop_last();
    let heap = agent.heap;
    assert(live(heap, r)) by {
        assert(queue[queue.len() - 1] == r);
    }
    assert(marked(after, r));
    assert forall|x: HeapRef| marked(before, x) implies marked(after, x) by {}
    assert forall|x: HeapRef| marked(before, x) || queue.contains(x) implies marked(after, x)
        || next.contains(x) by {
        if !marked(before, x) {
            lemma_contains_drop_last(queue, x);
            if x != r {
                if done {
                    lemma_contains_concat(rest, record_refs(heap, r), x);
                }
            }
        }
    }
    assert(all_live(heap, next)) by {
        assert forall|k: int| 0 <= k < next.len() implies live(heap, #[trigger] next[k]) by {
            if k < rest.len() {
                assert(next[k] == queue[k]);
            } else {
                assert(next[k] == record_refs(heap, r)[k - rest.len()]);
                assert(all_live(heap, record_refs(heap, r)));
            }
        }
    }
    assert forall|x: HeapRef| #[trigger] marked(after, x) implies all_reached(
        after,
        next,
        record_refs(heap, x),
    ) by {
        if marked(before, x) {
            assert(all_reached(before, queue, record_refs(heap, x)));
        } else {
            assert(x == r && done);
            assert forall|k: int| 0 <= k < record_refs(heap, x).len() implies marked(
                after,
                #[trigger] record_refs(heap, x)[k],
            ) || next.contains(record_refs(heap, x)[k]) by {
                assert(next[rest.len() + k] == record_refs(heap, x)[k]);
            }
        }
    }
}

/// The mark phase: marks the records that the prototypes and the global
/// object of the agent and the values of `roots` reach. Only slots that
/// hold a record and that these handles reach are marked, and on a heap
/// without a stale handle the marks are complete.
pub fn mark(agent: &Agent, roots: &Vec<Value>) -> (bits: HeapBits)
    ensures
        bits.sound(agent.heap),
        forall|x: HeapRef| #[trigger] marked(bits, x) ==> reachable(*agent, roots@, x),
        closed(*agent, roots@) ==> complete(*agent, roots@, bits),
{
    let mut bits = HeapBits::new(&agent.heap);
    let mut queues = WorkQueues::new();
    agent.intrinsics.object_prototype.mark_values(&mut queues);
    agent.intrinsics.array_buffer_prototype.mark_values(&mut queues);
    agent.intrinsics.array_iterator_prototype.mark_values(&mut queues);
    agent.intrinsics.boolean_prototype.mark_values(&mut queues);
    agent.intrinsics.string_prototype.mark_values(&mut queues);
    agent.intrinsics.symbol_prototype.mark_values(&mut queues);
    agent.intrinsics.number_prototype.mark_values(&mut queues);
    agent.intrinsics.big_int_prototype.mark_values(&mut queues);
    agent.global_object.mark_values(&mut queues);
    let ghost base = queues@;
    proof {
        assert(base =~= agent_roots(*agent).map_values(|o: OrdinaryObject| HeapRef::Object(o)));
    }
    let n: usize = roots.len();
    let mut i: usize = 0;
    while i < n
        invariant
            i <= n,
            n == roots@.len(),
            queues@ =~= base + roots_refs(roots@.take(i as int)),
        decreases n - i,
    {
        proof {
            assert(roots@.take(i + 1).drop_last() =~= roots@.take(i as int));
        }
        roots[i].mark_values(&mut queues);
        i += 1;
    }
    proof {
        assert(roots@.take(n as int) =~= roots@);
        assert(queues@ =~= start_refs(*agent, roots@));
        assert(bits.clear());
        assert forall|k: int| 0 <= k < queues@.len() implies reachable(
            *agent,
            roots@,
            #[trigger] queues@[k],
        ) by {
            lemma_reachable_start(*agent, roots@, k);
        }
        if closed(*agent, roots@) {
            assert(bits.clear());
            assert forall|x: HeapRef| !marked(bits, x) by {}
            assert forall|k: int| 0 <= k < queues@.len() implies marked(bits, #[trigger] queues@[k])
                || queues@.contains(queues@[k]) by {}
        }
        lemma_rank_nonnegative(bits.array_buffers@, bits.array_buffers@.len() as int);
        lemma_rank_nonnegative(bits.array_iterators@, bits.array_iterators@.len() as int);
        lemma_rank_nonnegative(bits.environments@, bits.environments@.len() as int);
        lemma_rank_nonnegative(bits.modules@, bits.modules@.len() as int);
        lemma_rank_nonnegative(bits.objects@, bits.objects@.len() as int);
        lemma_rank_nonnegative(bits.strings@, bits.strings@.len() as int);
    }
    while queues.pending.len() > 0
        invariant
            bits.sound(agent.heap),
            unmarked(bits) >= 0,
            traced(*agent, roots@, bits, queues@),
            closed(*agent, roots@) ==> marking(*agent, roots@, bits, queues@),
        decreases unmarked(bits), queues@.len(),
    {
        let ghost queue = queues@;
        let ghost before = bits;
        match queues.pending.pop() {
            Some(r) => {
                let done = visit(&agent.heap, &mut bits, &mut queues, r);
                proof {
                    lemma_rank_nonnegative(bits.array_buffers@, bits.array_buffers@.len() as int);
                    lemma_rank_nonnegative(
                        bits.array_iterators@,
                        bits.array_iterators@.len() as int,
                    );
                    lemma_rank_nonnegative(bits.environments@, bits.environments@.len() as int);
                    lemma_rank_nonnegative(bits.modules@, bits.modules@.len() as int);
                    lemma_rank_nonnegative(bits.objects@, bits.objects@.len() as int);
                    lemma_rank_nonnegative(bits.strings@, bits.strings@.len() as int);
                    lemma_visit_keeps_traced(*agent, roots@, before, bits, queue, queues@, done);
                    if closed(*agent, roots@) {
                        lemma_visit_keeps_marking(
                            *agent,
                            roots@,
                            before,
                            bits,
                            queue,
                            queues@,
                            done,
                        );
                    }
                }
            },
            None => {},
        }
    }
    proof {
        assert(queues@ =~= Seq::<HeapRef>::empty());
    }
    bits
}

} // verus!
