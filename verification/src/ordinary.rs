//! Ordinary objects: an insertion-ordered table of data properties and a
//! prototype link.

use crate::heap::{Agent, Heap};
use crate::value::{same_value, OrdinaryObject, PropertyDescriptor, PropertyKey, Value};
use vstd::prelude::*;

verus! {

/// The first position at or after `k` where `s` holds `x`.
pub open spec fn first_index_from<T>(s: Seq<T>, x: T, k: int) -> Option<int>
    decreases s.len() - k,
{
    if k < 0 || k >= s.len() {
        None
    } else if s[k] == x {
        Some(k)
    } else {
        first_index_from(s, x, k + 1)
    }
}

/// The first position where `s` holds `x`.
pub open spec fn first_index<T>(s: Seq<T>, x: T) -> Option<int> {
    first_index_from(s, x, 0)
}

/// What `first_index_from` finds: a position that holds `x` with no
/// earlier one from `k` on, or nothing when `x` does not occur from `k` on.
pub proof fn lemma_first_index_from<T>(s: Seq<T>, x: T, k: int)
    requires
        0 <= k,
    ensures
        match first_index_from(s, x, k) {
            Some(i) => k <= i < s.len() && s[i] == x && forall|j: int| k <= j < i ==> s[j] != x,
            None => forall|j: int| k <= j < s.len() ==> s[j] != x,
        },
    decreases s.len() - k,
{
    if k < s.len() && s[k] != x {
        lemma_first_index_from(s, x, k + 1);
    }
}

/// A data property of an object.
#[derive(Clone, Copy, Debug)]
pub struct PropertyEntry {
    pub key: PropertyKey,
    pub value: Value,
    pub writable: bool,
    pub enumerable: bool,
    pub configurable: bool,
}

impl PropertyEntry {
    /// The property as a descriptor with every field of a data property.
    pub open spec fn descriptor(self) -> PropertyDescriptor {
        PropertyDescriptor::spec_new_data(
            self.value,
            self.writable,
            self.enumerable,
            self.configurable,
        )
    }

    /// Whether the descriptor `desc` may be applied to this property: a
    /// property that is not configurable keeps its flags, and when it is
    /// not writable either, its value.
    pub open spec fn accepts(self, desc: PropertyDescriptor) -> bool {
        &&& !desc.spec_is_accessor_descriptor()
        &&& (!self.configurable ==> {
            &&& desc.configurable != Some(true)
            &&& (desc.enumerable is Some ==> desc.enumerable == Some(self.enumerable))
            &&& (!self.writable ==> {
                &&& desc.writable != Some(true)
                &&& (desc.value is Some ==> desc.value->0.spec_same_value(self.value))
            })
        })
    }

    /// This property with the fields that `desc` has put in place of its own.
    pub open spec fn applied(self, desc: PropertyDescriptor) -> PropertyEntry {
        PropertyEntry {
            key: self.key,
            value: if desc.value is Some {
                desc.value->0
            } else {
                self.value
            },
            writable: if desc.writable is Some {
                desc.writable->0
            } else {
                self.writable
            },
            enumerable: if desc.enumerable is Some {
                desc.enumerable->0
            } else {
                self.enumerable
            },
            configurable: if desc.configurable is Some {
                desc.configurable->0
            } else {
                self.configurable
            },
        }
    }

    /// The property that `desc` creates under `key`: absent fields are
    /// `undefined` and `false`.
    pub open spec fn created(key: PropertyKey, desc: PropertyDescriptor) -> PropertyEntry {
        PropertyEntry {
            key,
            value: Value::Undefined,
            writable: false,
            enumerable: false,
            configurable: false,
        }.applied(desc)
    }
}

/// The keys of a property table, in insertion order.
pub open spec fn keys_of(props: Seq<PropertyEntry>) -> Seq<PropertyKey> {
    props.map_values(|e: PropertyEntry| e.key)
}

/// The stored record of an ordinary object. The table holds data
/// properties; a descriptor with a getter or a setter is not accepted.
#[derive(Debug)]
pub struct ObjectHeapData {
    pub prototype: Option<OrdinaryObject>,
    pub extensible: bool,
    pub properties: Vec<PropertyEntry>,
}

impl ObjectHeapData {
    /// The position of the property `key`.
    pub open spec fn index_of(self, key: PropertyKey) -> Option<int> {
        first_index(keys_of(self.properties@), key)
    }

    /// No key occurs twice in the table.
    pub open spec fn wf(self) -> bool {
        keys_of(self.properties@).no_duplicates()
    }

    /// The own property `key` as a descriptor.
    pub open spec fn spec_get_own_property(self, key: PropertyKey) -> Option<PropertyDescriptor> {
        match self.index_of(key) {
            Some(i) => Some(self.properties@[i].descriptor()),
            None => None,
        }
    }

    /// An extensible object without properties.
    pub fn new(prototype: Option<OrdinaryObject>) -> (r: Self)
        ensures
            r.prototype == prototype,
            r.extensible,
            r.properties@.len() == 0,
            r.wf(),
    {
        ObjectHeapData { prototype, extensible: true, properties: Vec::new() }
    }

    /// The position of the property `key`, if the object has it.
    pub fn find(&self, key: PropertyKey) -> (r: Option<usize>)
        ensures
            match r {
                Some(i) => self.index_of(key) == Some(i as int) && i < self.properties@.len()
                    && self.properties@[i as int].key == key,
                None => self.index_of(key) is None,
            },
    {
        let n: usize = self.properties.len();
        let mut i: usize = 0;
        proof {
            lemma_first_index_from(keys_of(self.properties@), key, 0);
        }
        while i < n
            invariant
                i <= n,
                n == self.properties@.len(),
                self.index_of(key) == first_index_from(keys_of(self.properties@), key, i as int),
            decreases n - i,
        {
            if self.properties[i].key.same(&key) {
                return Some(i);
            }
            i += 1;
        }
        None
    }

    /// The own property `key` as a descriptor, if the object has it.
    pub fn get_own_property(&self, key: PropertyKey) -> (r: Option<PropertyDescriptor>)
        ensures
            r == self.spec_get_own_property(key),
    {
        match self.find(key) {
            Some(i) => {
                let e = self.properties[i];
                Some(PropertyDescriptor::new_data(e.value, e.writable, e.enumerable, e.configurable))
            },
            None => None,
        }
    }

    /// The table after `desc` has been defined under `key`, when that is
    /// allowed.
    pub open spec fn spec_define(self, key: PropertyKey, desc: PropertyDescriptor) -> Option<
        Seq<PropertyEntry>,
    > {
        match self.index_of(key) {
            Some(i) => if self.properties@[i].accepts(desc) {
                Some(self.properties@.update(i, self.properties@[i].applied(desc)))
            } else {
                None
            },
            None => if self.extensible && !desc.spec_is_accessor_descriptor() {
                Some(self.properties@.push(PropertyEntry::created(key, desc)))
            } else {
                None
            },
        }
    }

    /// Defines the own property `key` by `desc`. Returns whether the
    /// definition was allowed; the table is unchanged when it was not.
    pub fn define_own_property(&mut self, key: PropertyKey, desc: PropertyDescriptor) -> (r: bool)
        requires
            old(self).wf(),
        ensures
            final(self).wf(),
            final(self).prototype == old(self).prototype,
            final(self).extensible == old(self).extensible,
            r == old(self).spec_define(key, desc) is Some,
            !r ==> *final(self) == *old(self),
            final(self).properties@ == if r {
                old(self).spec_define(key, desc)->0
            } else {
                old(self).properties@
            },
    {
        if desc.is_accessor_descriptor() {
            proof {
                lemma_first_index_from(keys_of(self.properties@), key, 0);
            }
            return false;
        }
        let ghost old_keys = keys_of(self.properties@);
        proof {
            lemma_first_index_from(old_keys, key, 0);
        }
        match self.find(key) {
            Some(i) => {
                let cur = self.properties[i];
                if !cur.configurable {
                    if matches!(desc.configurable, Some(true)) {
                        return false;
                    }
                    match desc.enumerable {
                        Some(e) => {
                            if e != cur.enumerable {
                                return false;
                            }
                        },
                        None => {},
                    }
                    if !cur.writable {
                        if matches!(desc.writable, Some(true)) {
                            return false;
                        }
                        match desc.value {
                            Some(v) => {
                                if !same_value(v, cur.value) {
                                    return false;
                                }
                            },
                            None => {},
                        }
                    }
                }
                let next = PropertyEntry {
                    key: cur.key,
                    value: match desc.value {
                        Some(v) => v,
                        None => cur.value,
                    },
                    writable: match desc.writable {
                        Some(v) => v,
                        None => cur.writable,
                    },
                    enumerable: match desc.enumerable {
                        Some(v) => v,
                        None => cur.enumerable,
                    },
                    configurable: match desc.configurable {
                        Some(v) => v,
                        None => cur.configurable,
                    },
                };
                self.properties.set(i, next);
                proof {
                    assert(keys_of(self.properties@) =~= old_keys);
                }
                true
            },
            None => {
                if !self.extensible {
                    return false;
                }
                let entry = PropertyEntry {
                    key,
                    value: match desc.value {
                        Some(v) => v,
                        None => Value::Undefined,
                    },
                    writable: match desc.writable {
                        Some(v) => v,
                        None => false,
                    },
                    enumerable: match desc.enumerable {
                        Some(v) => v,
                        None => false,
                    },
                    configurable: match desc.configurable {
                        Some(v) => v,
                        None => false,
                    },
                };
                self.properties.push(entry);
                proof {
                    assert(keys_of(self.properties@) =~= old_keys.push(key));
                }
                true
            },
        }
    }

    /// The table after the property `key` has been deleted, when that is
    /// allowed: a missing property is deleted already, one that is not
    /// configurable stays.
    pub open spec fn spec_delete(self, key: PropertyKey) -> Option<Seq<PropertyEntry>> {
        match self.index_of(key) {
            Some(i) => if self.properties@[i].configurable {
                Some(self.properties@.remove(i))
            } else {
                None
            },
            None => Some(self.properties@),
        }
    }

    /// Deletes the own property `key`. Returns whether the object is now
    /// without it.
    pub fn delete(&mut self, key: PropertyKey) -> (r: bool)
        requires
            old(self).wf(),
        ensures
            final(self).wf(),
            final(self).prototype == old(self).prototype,
            final(self).extensible == old(self).extensible,
            r == old(self).spec_delete(key) is Some,
            !r ==> *final(self) == *old(self),
            final(self).properties@ == if r {
                old(self).spec_delete(key)->0
            } else {
                old(self).properties@
            },
    {
        let ghost old_keys = keys_of(self.properties@);
        match self.find(key) {
            Some(i) => {
                if !self.properties[i].configurable {
                    return false;
                }
                self.properties.remove(i);
                proof {
                    assert(keys_of(self.properties@) =~= old_keys.remove(i as int));
                }
                true
            },
            None => true,
        }
    }
}

/// The property `key` of the object `o` or of the nearest object on its
/// prototype chain that has it, following at most `fuel` links. A link to
/// a slot without a record ends the chain.
pub open spec fn proto_lookup(heap: Heap, o: OrdinaryObject, key: PropertyKey, fuel: nat) -> Option<
    PropertyEntry,
>
    decreases fuel,
{
    if fuel == 0 || !heap.has_object(o) {
        None
    } else {
        match heap.object(o).index_of(key) {
            Some(i) => Some(heap.object(o).properties@[i]),
            None => match heap.object(o).prototype {
                Some(p) => proto_lookup(heap, p, key, (fuel - 1) as nat),
                None => None,
            },
        }
    }
}

/// The property `key` as the object `o` sees it: its own or an inherited
/// one. A chain of more links than the heap has objects runs in a circle
/// and is given up.
pub open spec fn spec_lookup(
    heap: Heap,
    o: OrdinaryObject,
    key: PropertyKey,
) -> Option<PropertyEntry> {
    proto_lookup(heap, o, key, heap.objects@.len())
}

/// The value that a read of `key` on `o` gives: `undefined` when neither
/// `o` nor its prototypes have the property.
pub open spec fn spec_ordinary_get(heap: Heap, o: OrdinaryObject, key: PropertyKey) -> Value {
    match spec_lookup(heap, o, key) {
        Some(e) => e.value,
        None => Value::Undefined,
    }
}

/// The descriptor that an assignment of `value` defines on the receiver:
/// the value alone for a property that the receiver has, a new property
/// with every flag set otherwise.
pub open spec fn set_descriptor(has_own: bool, value: Value) -> PropertyDescriptor {
    if has_own {
        PropertyDescriptor {
            value: Some(value),
            writable: None,
            get: None,
            set: None,
            enumerable: None,
            configurable: None,
        }
    } else {
        PropertyDescriptor::spec_new_data(value, true, true, true)
    }
}

/// The table of the receiver after an assignment of `value` to `key`
/// through `o`, when the assignment is allowed: the property that `o`
/// sees must be writable or absent, and the receiver must be a live
/// ordinary object whose own property is writable, or which is
/// extensible.
pub open spec fn spec_ordinary_set(
    heap: Heap,
    o: OrdinaryObject,
    key: PropertyKey,
    value: Value,
    receiver: Value,
) -> Option<Seq<PropertyEntry>> {
    let found = spec_lookup(heap, o, key);
    if found is Some && !found->0.writable {
        None
    } else if receiver is Object && heap.has_object(receiver->Object_0) {
        let data = heap.object(receiver->Object_0);
        match data.index_of(key) {
            Some(i) => if data.properties@[i].writable {
                data.spec_define(key, set_descriptor(true, value))
            } else {
                None
            },
            None => data.spec_define(key, set_descriptor(false, value)),
        }
    } else {
        None
    }
}

/// The property `key` as the object `object` sees it.
pub fn ordinary_lookup(agent: &Agent, object: OrdinaryObject, key: PropertyKey) -> (r: Option<
    PropertyEntry,
>)
    ensures
        r == spec_lookup(agent.heap, object, key),
{
    let n: usize = agent.heap.objects.len();
    let mut fuel: usize = n;
    let mut cur: OrdinaryObject = object;
    while fuel > 0
        invariant
            n == agent.heap.objects@.len(),
            spec_lookup(agent.heap, object, key) == proto_lookup(agent.heap, cur, key, fuel as nat),
        decreases fuel,
    {
        if cur.0 as usize >= n {
            return None;
        }
        match &agent.heap.objects[cur.0 as usize] {
            Some(data) => {
                match data.find(key) {
                    Some(i) => {
                        return Some(data.properties[i]);
                    },
                    None => match data.prototype {
                        Some(p) => {
                            cur = p;
                            fuel -= 1;
                        },
                        None => {
                            return None;
                        },
                    },
                }
            },
            None => {
                return None;
            },
        }
    }
    None
}

/// The own property `key` of `object` as a descriptor.
pub fn ordinary_get_own_property(agent: &Agent, object: OrdinaryObject, key: PropertyKey) -> (r:
    Option<PropertyDescriptor>)
    requires
        agent.heap.has_object(object),
    ensures
        r == agent.heap.object(object).spec_get_own_property(key),
{
    match &agent.heap.objects[object.0 as usize] {
        Some(data) => data.get_own_property(key),
        None => None,
    }
}

/// Defines the own property `key` of `object` by `desc`. Returns whether
/// the definition was allowed; the heap is unchanged when it was not.
pub fn ordinary_define_own_property(
    agent: &mut Agent,
    object: OrdinaryObject,
    key: PropertyKey,
    desc: PropertyDescriptor,
) -> (r: bool)
    requires
        old(agent).heap.has_object(object),
        old(agent).heap.wf(),
    ensures
        final(agent).heap.wf(),
        final(agent).intrinsics == old(agent).intrinsics,
        final(agent).global_object == old(agent).global_object,
        r == old(agent).heap.object(object).spec_define(key, desc) is Some,
        !r ==> final(agent).heap.same_records(old(agent).heap),
        r ==> final(agent).heap.object_replaced(
            old(agent).heap,
            object,
            final(agent).heap.object(object),
        ),
        r ==> final(agent).heap.object(object).properties@ == old(agent).heap.object(
            object,
        ).spec_define(key, desc)->0,
        r ==> final(agent).heap.object(object).prototype == old(agent).heap.object(object).prototype,
        r ==> final(agent).heap.object(object).extensible == old(agent).heap.object(
            object,
        ).extensible,
{
    let mut r = false;
    match &mut agent.heap.objects[object.0 as usize] {
        Some(data) => {
            r = data.define_own_property(key, desc);
        },
        None => {},
    }
    proof {
        assert(final(agent).heap.objects@ =~= old(agent).heap.objects@.update(
            object.0 as int,
            Some(final(agent).heap.object(object)),
        ));
        if !r {
            assert(final(agent).heap.objects@ =~= old(agent).heap.objects@);
        }
    }
    r
}

/// Whether `object` or one of its prototypes has the property `key`.
pub fn ordinary_has_property(agent: &Agent, object: OrdinaryObject, key: PropertyKey) -> (r: bool)
    ensures
        r == spec_lookup(agent.heap, object, key) is Some,
{
    ordinary_lookup(agent, object, key).is_some()
}

/// The value of the property `key` as `object` sees it, or `undefined`.
pub fn ordinary_get(agent: &Agent, object: OrdinaryObject, key: PropertyKey, receiver: Value) -> (r:
    Value)
    ensures
        r == spec_ordinary_get(agent.heap, object, key),
{
    match ordinary_lookup(agent, object, key) {
        Some(e) => e.value,
        None => Value::Undefined,
    }
}

/// Assigns `value` to the property `key` through `object`, on the
/// receiver. Returns whether the assignment was allowed; the heap is
/// unchanged when it was not.
pub fn ordinary_set(
    agent: &mut Agent,
    object: OrdinaryObject,
    key: PropertyKey,
    value: Value,
    receiver: Value,
) -> (r: bool)
    requires
        old(agent).heap.wf(),
    ensures
        final(agent).heap.wf(),
        final(agent).intrinsics == old(agent).intrinsics,
        final(agent).global_object == old(agent).global_object,
        r == spec_ordinary_set(old(agent).heap, object, key, value, receiver) is Some,
        !r ==> final(agent).heap.same_records(old(agent).heap),
        r ==> final(agent).heap.object_replaced(
            old(agent).heap,
            receiver->Object_0,
            final(agent).heap.object(receiver->Object_0),
        ),
        r ==> final(agent).heap.object(receiver->Object_0).properties@ == spec_ordinary_set(
            old(agent).heap,
            object,
            key,
            value,
            receiver,
        )->0,
        r ==> final(agent).heap.object(receiver->Object_0).prototype == old(agent).heap.object(
            receiver->Object_0,
        ).prototype,
        r ==> final(agent).heap.object(receiver->Object_0).extensible == old(agent).heap.object(
            receiver->Object_0,
        ).extensible,
{
    match ordinary_lookup(agent, object, key) {
        Some(e) => {
            if !e.writable {
                return false;
            }
        },
        None => {},
    }
    let target = match receiver {
        Value::Object(o) => o,
        _ => {
            return false;
        },
    };
    if target.0 as usize >= agent.heap.objects.len() {
        return false;
    }
    let own = match &agent.heap.objects[target.0 as usize] {
        Some(data) => match data.find(key) {
            Some(i) => Some(data.properties[i].writable),
            None => None,
        },
        None => {
            return false;
        },
    };
    match own {
        Some(writable) => {
            if !writable {
                return false;
            }
            let desc = PropertyDescriptor {
                value: Some(value),
                writable: None,
                get: None,
                set: None,
                enumerable: None,
                configurable: None,
            };
            ordinary_define_own_property(agent, target, key, desc)
        },
        None => {
            let desc = PropertyDescriptor::new_data(value, true, true, true);
            ordinary_define_own_property(agent, target, key, desc)
        },
    }
}

/// Deletes the own property `key` of `object`. Returns whether the
/// object is now without it; the heap is unchanged when it is not.
pub fn ordinary_delete(agent: &mut Agent, object: OrdinaryObject, key: PropertyKey) -> (r: bool)
    requires
        old(agent).heap.has_object(object),
        old(agent).heap.wf(),
    ensures
        final(agent).heap.wf(),
        final(agent).intrinsics == old(agent).intrinsics,
        final(agent).global_object == old(agent).global_object,
        r == old(agent).heap.object(object).spec_delete(key) is Some,
        !r ==> final(agent).heap.same_records(old(agent).heap),
        r ==> final(agent).heap.object_replaced(
            old(agent).heap,
            object,
            final(agent).heap.object(object),
        ),
        r ==> final(agent).heap.object(object).properties@ == old(agent).heap.object(
            object,
        ).spec_delete(key)->0,
        r ==> final(agent).heap.object(object).prototype == old(agent).heap.object(object).prototype,
        r ==> final(agent).heap.object(object).extensible == old(agent).heap.object(
            object,
        ).extensible,
{
    let mut r = true;
    match &mut agent.heap.objects[object.0 as usize] {
        Some(data) => {
            r = data.delete(key);
        },
        None => {},
    }
    proof {
        assert(final(agent).heap.objects@ =~= old(agent).heap.objects@.update(
            object.0 as int,
            Some(final(agent).heap.object(object)),
        ));
        if !r {
            assert(final(agent).heap.objects@ =~= old(agent).heap.objects@);
        }
    }
    r
}

/// The class of a key in the order of own keys: 0 for an integer, 1 for
/// a string, 2 for a symbol, 3 for a private name, which is not listed.
pub open spec fn key_class(key: PropertyKey) -> int {
    match key {
        PropertyKey::Integer(_) => 0,
        PropertyKey::SmallString(_) | PropertyKey::String(_) => 1,
        PropertyKey::Symbol(_) => 2,
        PropertyKey::PrivateName(_) => 3,
    }
}

/// The keys of class `class` among `keys`, in their order.
pub open spec fn keys_of_class(keys: Seq<PropertyKey>, class: int) -> Seq<PropertyKey>
    decreases keys.len(),
{
    if keys.len() == 0 {
        Seq::<PropertyKey>::empty()
    } else if key_class(keys.last()) == class {
        keys_of_class(keys.drop_last(), class).push(keys.last())
    } else {
        keys_of_class(keys.drop_last(), class)
    }
}

/// The ascending sequence `s` with `x` put in its place, after the
/// elements that are not greater.
pub open spec fn insert_sorted(s: Seq<i64>, x: i64) -> Seq<i64>
    decreases s.len(),
{
    if s.len() == 0 {
        seq![x]
    } else if s.last() <= x {
        s.push(x)
    } else {
        insert_sorted(s.drop_last(), x).push(s.last())
    }
}

/// The integer keys among `keys`, in ascending order.
pub open spec fn sorted_integer_keys(keys: Seq<PropertyKey>) -> Seq<i64>
    decreases keys.len(),
{
    if keys.len() == 0 {
        Seq::<i64>::empty()
    } else {
        match keys.last() {
            PropertyKey::Integer(x) => insert_sorted(sorted_integer_keys(keys.drop_last()), x),
            _ => sorted_integer_keys(keys.drop_last()),
        }
    }
}

/// Whether `s` is in ascending order.
pub open spec fn ascending(s: Seq<i64>) -> bool {
    forall|i: int, j: int| 0 <= i < j < s.len() ==> s[i] <= s[j]
}

/// Putting `x` in its place keeps the order, and adds `x` and nothing else.
pub proof fn lemma_insert_sorted(s: Seq<i64>, x: i64)
    requires
        ascending(s),
    ensures
        ascending(insert_sorted(s, x)),
        insert_sorted(s, x).len() == s.len() + 1,
        forall|y: i64|
            #![trigger insert_sorted(s, x).contains(y)]
            insert_sorted(s, x).contains(y) <==> (y == x || s.contains(y)),
        insert_sorted(s, x).contains(x),
        forall|y: i64| #![trigger s.contains(y)] s.contains(y) ==> insert_sorted(s, x).contains(y),
    decreases s.len(),
{
    let r = insert_sorted(s, x);
    if s.len() == 0 {
        assert(r[0] == x);
        assert forall|y: i64| r.contains(y) <==> (y == x || s.contains(y)) by {
            if r.contains(y) {
                let i = choose|i: int| 0 <= i < r.len() && r[i] == y;
            }
        }
    } else if s.last() <= x {
        assert(r =~= s.push(x));
        assert forall|y: i64| r.contains(y) <==> (y == x || s.contains(y)) by {
            if r.contains(y) {
                let i = choose|i: int| 0 <= i < r.len() && r[i] == y;
                if i < s.len() {
                    assert(s[i] == y);
                }
            }
            if y == x {
                assert(r[s.len() as int] == x);
            }
            if s.contains(y) {
                let i = choose|i: int| 0 <= i < s.len() && s[i] == y;
                assert(r[i] == y);
            }
        }
    } else {
        let init = s.drop_last();
        assert(ascending(init));
        lemma_insert_sorted(init, x);
        let mid = insert_sorted(init, x);
        assert forall|i: int, j: int| 0 <= i < j < r.len() implies r[i] <= r[j] by {
            if j == r.len() - 1 {
                assert(mid[i] == r[i]);
                assert(mid.contains(r[i]));
                if r[i] != x {
                    assert(init.contains(r[i]));
                    let k = choose|k: int| 0 <= k < init.len() && init[k] == r[i];
                    assert(s[k] <= s[s.len() - 1]);
                }
            }
        }
        assert forall|y: i64| r.contains(y) <==> (y == x || s.contains(y)) by {
            if r.contains(y) {
                let i = choose|i: int| 0 <= i < r.len() && r[i] == y;
                if i < mid.len() {
                    assert(mid[i] == y);
                    assert(mid.contains(y));
                    if y != x {
                        assert(init.contains(y));
                        let k = choose|k: int| 0 <= k < init.len() && init[k] == y;
                        assert(s[k] == y);
                    }
                } else {
                    assert(s[s.len() - 1] == y);
                }
            }
            if y == x {
                assert(mid.contains(x));
                let k = choose|k: int| 0 <= k < mid.len() && mid[k] == x;
                assert(r[k] == x);
            }
            if s.contains(y) {
                let i = choose|i: int| 0 <= i < s.len() && s[i] == y;
                if i < init.len() {
                    assert(init[i] == y);
                    assert(mid.contains(y));
                    let k = choose|k: int| 0 <= k < mid.len() && mid[k] == y;
                    assert(r[k] == y);
                } else {
                    assert(r[r.len() - 1] == y);
                }
            }
        }
    }
}

/// The sorted integer keys are in ascending order and are the integer
/// keys of the table.
pub proof fn lemma_sorted_integer_keys(keys: Seq<PropertyKey>)
    ensures
        ascending(sorted_integer_keys(keys)),
        forall|y: i64|
            sorted_integer_keys(keys).contains(y) <==> keys.contains(PropertyKey::Integer(y)),
    decreases keys.len(),
{
    let r = sorted_integer_keys(keys);
    if keys.len() > 0 {
        let init = keys.drop_last();
        lemma_sorted_integer_keys(init);
        let prev = sorted_integer_keys(init);
        match keys.last() {
            PropertyKey::Integer(x) => {
                lemma_insert_sorted(prev, x);
            },
            _ => {},
        }
        assert forall|y: i64| r.contains(y) <==> keys.contains(PropertyKey::Integer(y)) by {
            let k = PropertyKey::Integer(y);
            assert(prev.contains(y) <==> init.contains(k));
            if keys.contains(k) {
                let i = choose|i: int| 0 <= i < keys.len() && keys[i] == k;
                if i < init.len() {
                    assert(init[i] == k);
                    assert(init.contains(k));
                }
            }
            if init.contains(k) {
                let i = choose|i: int| 0 <= i < init.len() && init[i] == k;
                assert(keys[i] == k);
            }
            if keys.last() == k {
                assert(keys[keys.len() - 1] == k);
            }
        }
    } else {
        assert forall|y: i64| r.contains(y) <==> keys.contains(PropertyKey::Integer(y)) by {
            if r.contains(y) {
                let i = choose|i: int| 0 <= i < r.len() && r[i] == y;
            }
            if keys.contains(PropertyKey::Integer(y)) {
                let i = choose|i: int| 0 <= i < keys.len() && keys[i] == PropertyKey::Integer(y);
            }
        }
    }
}

/// The own keys of a table in the order of the language: the integer keys
/// ascending, then the strings as they were added, then the symbols as
/// they were added. Private names are not listed.
pub open spec fn spec_own_property_keys(keys: Seq<PropertyKey>) -> Seq<PropertyKey> {
    sorted_integer_keys(keys).map_values(|x: i64| PropertyKey::Integer(x)) + keys_of_class(keys, 1)
        + keys_of_class(keys, 2)
}

/// Puts `x` in its place in the ascending vector `v`.
pub fn insert_in_order(v: &mut Vec<i64>, x: i64)
    ensures
        final(v)@ == insert_sorted(old(v)@, x),
{
    let mut i: usize = v.len();
    let ghost mut tail = Seq::<i64>::empty();
    proof {
        assert(v@.subrange(0, v@.len() as int) =~= v@);
        assert(insert_sorted(v@, x) + tail =~= insert_sorted(v@, x));
    }
    while i > 0 && v[i - 1] > x
        invariant
            i <= v@.len(),
            v@ == old(v)@,
            tail == v@.subrange(i as int, v@.len() as int),
            insert_sorted(v@, x) == insert_sorted(v@.subrange(0, i as int), x) + tail,
        decreases i,
    {
        proof {
            let cur = v@.subrange(0, i as int);
            assert(cur.last() == v@[i - 1]);
            assert(cur.drop_last() =~= v@.subrange(0, i - 1));
            assert(insert_sorted(cur, x) =~= insert_sorted(cur.drop_last(), x).push(cur.last()));
            assert(seq![v@[i - 1]] + tail =~= v@.subrange(i - 1, v@.len() as int));
            tail = seq![v@[i - 1]] + tail;
        }
        i -= 1;
    }
    proof {
        let cur = v@.subrange(0, i as int);
        if i > 0 {
            assert(cur.last() == v@[i - 1]);
        }
        assert(insert_sorted(cur, x) =~= cur.push(x));
        assert(v@.insert(i as int, x) =~= cur.push(x) + tail);
    }
    v.insert(i, x);
}

/// The own keys of `object` in the order of the language.
pub fn ordinary_own_property_keys(agent: &Agent, object: OrdinaryObject) -> (r: Vec<PropertyKey>)
    requires
        agent.heap.has_object(object),
    ensures
        r@ == spec_own_property_keys(keys_of(agent.heap.object(object).properties@)),
{
    let mut out: Vec<PropertyKey> = Vec::new();
    match &agent.heap.objects[object.0 as usize] {
        Some(data) => {
            let n: usize = data.properties.len();
            let ghost keys = keys_of(data.properties@);
            let mut ints: Vec<i64> = Vec::new();
            let mut i: usize = 0;
            while i < n
                invariant
                    i <= n,
                    n == data.properties@.len(),
                    keys == keys_of(data.properties@),
                    ints@ == sorted_integer_keys(keys.take(i as int)),
                decreases n - i,
            {
                proof {
                    assert(keys.take(i + 1).drop_last() =~= keys.take(i as int));
                    assert(keys.take(i + 1).last() == data.properties@[i as int].key);
                }
                match data.properties[i].key {
                    PropertyKey::Integer(x) => {
                        insert_in_order(&mut ints, x);
                    },
                    _ => {},
                }
                i += 1;
            }
            proof {
                assert(keys.take(n as int) =~= keys);
            }
            let m: usize = ints.len();
            let mut j: usize = 0;
            while j < m
                invariant
                    j <= m,
                    m == ints@.len(),
                    out@ =~= ints@.take(j as int).map_values(|x: i64| PropertyKey::Integer(x)),
                decreases m - j,
            {
                out.push(PropertyKey::Integer(ints[j]));
                j += 1;
            }
            proof {
                assert(ints@.take(m as int) =~= ints@);
            }
            let ghost head = out@;
            let mut class: usize = 1;
            let ghost mut done = Seq::<PropertyKey>::empty();
            while class < 3
                invariant
                    1 <= class <= 3,
                    n == data.properties@.len(),
                    keys == keys_of(data.properties@),
                    out@ == head + done,
                    done == if class == 1 {
                        Seq::<PropertyKey>::empty()
                    } else if class == 2 {
                        keys_of_class(keys, 1)
                    } else {
                        keys_of_class(keys, 1) + keys_of_class(keys, 2)
                    },
                decreases 3 - class,
            {
                let mut k: usize = 0;
                let ghost base = out@;
                while k < n
                    invariant
                        k <= n,
                        1 <= class < 3,
                        n == data.properties@.len(),
                        keys == keys_of(data.properties@),
                        out@ == base + keys_of_class(keys.take(k as int), class as int),
                    decreases n - k,
                {
                    proof {
                        assert(keys.take(k + 1).drop_last() =~= keys.take(k as int));
                        assert(keys.take(k + 1).last() == data.properties@[k as int].key);
                    }
                    let key = data.properties[k].key;
                    let in_class = match key {
                        PropertyKey::SmallString(_) | PropertyKey::String(_) => class == 1,
                        PropertyKey::Symbol(_) => class == 2,
                        _ => false,
                    };
                    if in_class {
                        out.push(key);
                        proof {
                            assert(out@ =~= base + keys_of_class(
                                keys.take(k as int),
                                class as int,
                            ).push(key));
                        }
                    }
                    k += 1;
                }
                proof {
                    assert(keys.take(n as int) =~= keys);
                    done = done + keys_of_class(keys, class as int);
                    assert(out@ =~= head + done);
                }
                class += 1;
            }
        },
        None => {},
    }
    out
}

/// Whether the prototype chain that starts at `from` comes to `target`
/// within `fuel` links.
pub open spec fn chain_reaches(heap: Heap, from: OrdinaryObject, target: OrdinaryObject, fuel: nat) -> bool
    decreases fuel,
{
    if from == target {
        true
    } else if fuel == 0 || !heap.has_object(from) {
        false
    } else {
        match heap.object(from).prototype {
            Some(p) => chain_reaches(heap, p, target, (fuel - 1) as nat),
            None => false,
        }
    }
}

/// The prototype of `object`.
pub fn ordinary_get_prototype_of(agent: &Agent, object: OrdinaryObject) -> (r: Option<OrdinaryObject>)
    requires
        agent.heap.has_object(object),
    ensures
        r == agent.heap.object(object).prototype,
{
    match &agent.heap.objects[object.0 as usize] {
        Some(data) => data.prototype,
        None => None,
    }
}

/// Whether `object` may take the prototype `prototype`: always when that
/// is its prototype already, and otherwise when it is extensible and the
/// chain of `prototype` does not come back to it.
pub open spec fn spec_may_set_prototype(
    heap: Heap,
    object: OrdinaryObject,
    prototype: Option<OrdinaryObject>,
) -> bool {
    ||| prototype == heap.object(object).prototype
    ||| (heap.object(object).extensible && (prototype is Some ==> !chain_reaches(
        heap,
        prototype->0,
        object,
        heap.objects@.len(),
    )))
}

/// Whether the prototype chain that starts at `from` comes to `target`.
pub fn reaches(agent: &Agent, from: OrdinaryObject, target: OrdinaryObject) -> (r: bool)
    ensures
        r == chain_reaches(agent.heap, from, target, agent.heap.objects@.len()),
{
    let n: usize = agent.heap.objects.len();
    let mut fuel: usize = n;
    let mut cur: OrdinaryObject = from;
    loop
        invariant
            n == agent.heap.objects@.len(),
            fuel <= n,
            chain_reaches(agent.heap, from, target, n as nat) == chain_reaches(
                agent.heap,
                cur,
                target,
                fuel as nat,
            ),
        decreases fuel,
    {
        if cur.0 == target.0 {
            return true;
        }
        if fuel == 0 || cur.0 as usize >= n {
            return false;
        }
        match &agent.heap.objects[cur.0 as usize] {
            Some(data) => match data.prototype {
                Some(p) => {
                    cur = p;
                    fuel -= 1;
                },
                None => {
                    return false;
                },
            },
            None => {
                return false;
            },
        }
    }
}

/// Gives `object` the prototype `prototype`, when it may take it.
/// Returns whether `prototype` is the prototype of `object` afterwards;
/// the heap is unchanged when it is not.
pub fn ordinary_set_prototype_of(
    agent: &mut Agent,
    object: OrdinaryObject,
    prototype: Option<OrdinaryObject>,
) -> (r: bool)
    requires
        old(agent).heap.has_object(object),
        old(agent).heap.wf(),
    ensures
        final(agent).heap.wf(),
        final(agent).intrinsics == old(agent).intrinsics,
        final(agent).global_object == old(agent).global_object,
        r == spec_may_set_prototype(old(agent).heap, object, prototype),
        !r ==> final(agent).heap.same_records(old(agent).heap),
        r ==> final(agent).heap.object_replaced(
            old(agent).heap,
            object,
            final(agent).heap.object(object),
        ),
        r ==> final(agent).heap.object(object).prototype == prototype,
        r ==> final(agent).heap.object(object).properties == old(agent).heap.object(
            object,
        ).properties,
        r ==> final(agent).heap.object(object).extensible == old(agent).heap.object(
            object,
        ).extensible,
{
    let (current, extensible) = match &agent.heap.objects[object.0 as usize] {
        Some(data) => (data.prototype, data.extensible),
        None => (None, false),
    };
    let same = match (current, prototype) {
        (None, None) => true,
        (Some(a), Some(b)) => a.0 == b.0,
        _ => false,
    };
    if !same {
        if !extensible {
            return false;
        }
        match prototype {
            Some(p) => {
                if reaches(agent, p, object) {
                    return false;
                }
            },
            None => {},
        }
    }
    match &mut agent.heap.objects[object.0 as usize] {
        Some(data) => {
            data.prototype = prototype;
        },
        None => {},
    }
    proof {
        assert(final(agent).heap.objects@ =~= old(agent).heap.objects@.update(
            object.0 as int,
            Some(final(agent).heap.object(object)),
        ));
    }
    true
}

/// Whether properties can be added to `object`.
pub fn ordinary_is_extensible(agent: &Agent, object: OrdinaryObject) -> (r: bool)
    requires
        agent.heap.has_object(object),
    ensures
        r == agent.heap.object(object).extensible,
{
    match &agent.heap.objects[object.0 as usize] {
        Some(data) => data.extensible,
        None => false,
    }
}

/// Makes `object` take no more properties. Returns `true`: an ordinary
/// object never refuses.
pub fn ordinary_prevent_extensions(agent: &mut Agent, object: OrdinaryObject) -> (r: bool)
    requires
        old(agent).heap.has_object(object),
        old(agent).heap.wf(),
    ensures
        r,
        final(agent).heap.wf(),
        final(agent).intrinsics == old(agent).intrinsics,
        final(agent).global_object == old(agent).global_object,
        final(agent).heap.object_replaced(
            old(agent).heap,
            object,
            final(agent).heap.object(object),
        ),
        !final(agent).heap.object(object).extensible,
        final(agent).heap.object(object).prototype == old(agent).heap.object(object).prototype,
        final(agent).heap.object(object).properties == old(agent).heap.object(object).properties,
{
    match &mut agent.heap.objects[object.0 as usize] {
        Some(data) => {
            data.extensible = false;
        },
        None => {},
    }
    proof {
        assert(final(agent).heap.objects@ =~= old(agent).heap.objects@.update(
            object.0 as int,
            Some(final(agent).heap.object(object)),
        ));
    }
    true
}

} // verus!
