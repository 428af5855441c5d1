//! Handles on JS values that outlive one call: the per-context registry of
//! GC roots, roots and traced fields bound to it, and values returned across
//! a scope boundary.

use crate::js_value::{JSValue, JS_UNDEFINED};
use std::marker::PhantomData;
use std::sync::Arc;
use vstd::prelude::*;
use vstd::rwlock::RwLock;
use vstd::rwlock::RwLockPredicate;

verus! {

/// Identifies a JS context.
#[derive(Copy, Clone, Eq, PartialEq, Hash, Debug, Structural)]
pub struct ContextId(pub u64);

/// Identifies a slot of a roots registry.
#[derive(Copy, Clone, Eq, PartialEq, Hash, Debug, Structural)]
pub struct RootId(pub u32);

/// The GC roots of one context, as slots: each slot is free (`None`) or
/// holds the value of one root.
pub struct RootsRegistry {
    slots: Vec<Option<JSValue>>,
}

impl View for RootsRegistry {
    type V = Seq<Option<JSValue>>;

    closed spec fn view(&self) -> Seq<Option<JSValue>> {
        self.slots@
    }
}

/// The first free slot of `s` at or after `from`, or `s.len()` if none.
pub open spec fn first_free_from(s: Seq<Option<JSValue>>, from: int) -> int
    decreases s.len() - from,
{
    if from >= s.len() {
        s.len() as int
    } else if s[from] is None {
        from
    } else {
        first_free_from(s, from + 1)
    }
}

/// The slot that the next insertion takes: the lowest free one, or a new one
/// at the end.
pub open spec fn first_free(s: Seq<Option<JSValue>>) -> int {
    first_free_from(s, 0)
}

proof fn lemma_first_free_from(s: Seq<Option<JSValue>>, from: int)
    requires
        0 <= from <= s.len(),
    ensures
        from <= first_free_from(s, from) <= s.len(),
        first_free_from(s, from) < s.len() ==> s[first_free_from(s, from)] is None,
        forall|k: int| from <= k < first_free_from(s, from) ==> s[k] is Some,
    decreases s.len() - from,
{
    if from < s.len() && s[from] is Some {
        lemma_first_free_from(s, from + 1);
    }
}

impl RootsRegistry {
    /// No slot.
    pub fn new() -> (r: Self)
        ensures
            r@ == Seq::<Option<JSValue>>::empty(),
    {
        RootsRegistry { slots: Vec::new() }
    }

    /// Stores `v` in the lowest free slot, or in a new slot at the end, and
    /// returns the slot's id.
    pub fn insert(&mut self, v: JSValue) -> (id: RootId)
        requires
            old(self)@.len() < u32::MAX,
        ensures
            id.0 == first_free(old(self)@),
            first_free(old(self)@) < old(self)@.len() ==> final(self)@ == old(self)@.update(id.0 as int, Some(v)),
            first_free(old(self)@) == old(self)@.len() ==> final(self)@ == old(self)@.push(Some(v)),
    {
        proof {
            lemma_first_free_from(self@, 0);
        }
        let n = self.slots.len();
        let mut i: usize = 0;
        while i < n
            invariant
                n == self.slots@.len(),
                n < u32::MAX,
                i <= n,
                self.slots@ == old(self)@,
                forall|k: int| 0 <= k < i ==> self.slots@[k] is Some,
            decreases n - i,
        {
            if self.slots[i].is_none() {
                proof {
                    lemma_first_free_unique(self@, i as int);
                }
                self.slots.set(i, Some(v));
                return RootId(i as u32);
            }
            i = i + 1;
        }
        proof {
            lemma_first_free_unique(self@, n as int);
        }
        self.slots.push(Some(v));
        RootId(n as u32)
    }

    /// The value in slot `id`, if the slot exists and is taken.
    pub fn get(&self, id: RootId) -> (r: Option<JSValue>)
        ensures
            r == (if (id.0 as int) < self@.len() { self@[id.0 as int] } else { None }),
    {
        let i = id.0 as usize;
        if i < self.slots.len() {
            self.slots[i]
        } else {
            None
        }
    }

    /// Frees slot `id`, if it exists.
    pub fn remove(&mut self, id: RootId)
        ensures
            (id.0 as int) < old(self)@.len() ==> final(self)@ == old(self)@.update(id.0 as int, None),
            (id.0 as int) >= old(self)@.len() ==> final(self)@ == old(self)@,
    {
        let i = id.0 as usize;
        if i < self.slots.len() {
            self.slots.set(i, None);
        }
    }
}

/// `first_free_from(s, 0)` is the only position below which every slot is
/// taken and at which the slot is free or the end is reached.
proof fn lemma_first_free_unique(s: Seq<Option<JSValue>>, i: int)
    requires
        0 <= i <= s.len(),
        forall|k: int| 0 <= k < i ==> s[k] is Some,
        i < s.len() ==> s[i] is None,
    ensures
        first_free(s) == i,
{
    lemma_first_free_from(s, 0);
    lemma_first_free_at(s, 0, i);
}

proof fn lemma_first_free_at(s: Seq<Option<JSValue>>, from: int, i: int)
    requires
        0 <= from <= i <= s.len(),
        forall|k: int| from <= k < i ==> s[k] is Some,
        i < s.len() ==> s[i] is None,
    ensures
        first_free_from(s, from) == i,
    decreases i - from,
{
    if from < i {
        lemma_first_free_at(s, from + 1, i);
    }
}

/// A value inserted into the slots is found again under the id it got: the
/// insertion takes a free slot (never a live root's) or a new one, and
/// leaves every other slot as it was.
pub proof fn law_insert_then_get(s: Seq<Option<JSValue>>, v: JSValue)
    ensures
        ({
            let i = first_free(s);
            let after = if i < s.len() {
                s.update(i, Some(v))
            } else {
                s.push(Some(v))
            };
            &&& 0 <= i <= s.len()
            &&& after[i] == Some(v)
            &&& i < s.len() ==> s[i] is None
            &&& forall|k: int| 0 <= k < s.len() && k != i ==> after[k] == s[k]
        }),
{
    lemma_first_free_from(s, 0);
}

/// A freed slot is reused: after slot `j` is freed, the next insertion
/// takes slot `j` or a lower one, so the slots do not grow.
pub proof fn law_freed_slot_is_reused(s: Seq<Option<JSValue>>, j: int)
    requires
        0 <= j < s.len(),
    ensures
        first_free(s.update(j, None)) <= j,
{
    let u = s.update(j, None);
    lemma_first_free_from(u, 0);
    if first_free(u) > j {
        assert(u[j] is Some);
    }
}

/// Removing a root and inserting again gives back the same id: the slot
/// that an insertion takes is the first free one again once it is freed.
pub proof fn law_remove_then_insert_same_id(s: Seq<Option<JSValue>>, v: JSValue)
    ensures
        ({
            let i = first_free(s);
            let after = if i < s.len() {
                s.update(i, Some(v))
            } else {
                s.push(Some(v))
            };
            first_free(after.update(i, None)) == i
        }),
{
    lemma_first_free_from(s, 0);
    let i = first_free(s);
    let after = if i < s.len() {
        s.update(i, Some(v))
    } else {
        s.push(Some(v))
    };
    let freed = after.update(i, None);
    assert forall|k: int| 0 <= k < i implies freed[k] is Some by {
        assert(freed[k] == s[k]);
    }
    lemma_first_free_unique(freed, i);
}

/// The lock predicate of a shared roots registry: fewer slots than the
/// largest slot id.
pub struct AnySlots;

impl RwLockPredicate<RootsRegistry> for AnySlots {
    open spec fn inv(self, v: RootsRegistry) -> bool {
        v@.len() < u32::MAX
    }
}

/// A roots registry shared by the roots bound to it. Since other
/// holders may change the registry between two calls, each result is stated
/// of the slots as the call found them.
pub struct SharedRootsRegistry {
    slots: RwLock<RootsRegistry, AnySlots>,
}

impl SharedRootsRegistry {
    /// A registry with no root.
    pub fn new() -> (r: Self) {
        SharedRootsRegistry { slots: RwLock::new(RootsRegistry::new(), Ghost(AnySlots)) }
    }

    /// Registers `v` as a root and returns its slot. Returns `None` when the
    /// registry has no slot id left.
    pub fn insert(&self, v: JSValue) -> (r: Option<RootId>)
        ensures
            r matches Some(id) ==> exists|s: RootsRegistry| id.0 == first_free(#[trigger] s@),
    {
        let (mut s, h) = self.slots.acquire_write();
        if s.slots.len() >= u32::MAX as usize - 1 {
            h.release_write(s);
            return None;
        }
        let ghost before = s;
        proof {
            lemma_first_free_from(s@, 0);
        }
        let id = s.insert(v);
        h.release_write(s);
        assert(id.0 == first_free(before@));
        Some(id)
    }

    /// The current value of root `id`, if it is registered.
    pub fn get(&self, id: RootId) -> (r: Option<JSValue>)
        ensures
            exists|s: RootsRegistry|
                r == (if (id.0 as int) < (#[trigger] s@).len() { s@[id.0 as int] } else { None }),
    {
        let h = self.slots.acquire_read();
        let s = h.borrow();
        let r = s.get(id);
        assert(r == (if (id.0 as int) < s@.len() { s@[id.0 as int] } else { None }));
        h.release_read();
        r
    }

    /// Unregisters root `id`.
    pub fn remove(&self, id: RootId) {
        let (mut s, h) = self.slots.acquire_write();
        s.remove(id);
        h.release_write(s);
    }
}

/// The value a root reads from the slots: the value in its slot, or
/// `undefined` if the slot is free or gone.
pub open spec fn root_value(s: Seq<Option<JSValue>>, id: RootId) -> JSValue {
    match (if (id.0 as int) < s.len() {
        s[id.0 as int]
    } else {
        None
    }) {
        Some(v) => v,
        None => JS_UNDEFINED,
    }
}

/// The kind of a handle on a JS function.
pub struct Function;

/// A persistent root of a context: the value stays alive while the root is
/// registered.
pub struct Root<T> {
    ctx_id: ContextId,
    registry: Arc<SharedRootsRegistry>,
    id: RootId,
    _t: PhantomData<T>,
}

impl<T> Root<T> {
    /// Registers `v` as a root of the context `ctx_id` in `registry`.
    /// Returns `None` when the registry has no slot id left.
    pub fn register(registry: Arc<SharedRootsRegistry>, ctx_id: ContextId, v: JSValue) -> (r: Option<Self>)
        ensures
            r matches Some(root) ==> root.spec_ctx_id() == ctx_id,
    {
        match registry.insert(v) {
            Some(id) => Some(Root { ctx_id, registry, id, _t: PhantomData }),
            None => None,
        }
    }

    pub closed spec fn spec_ctx_id(&self) -> ContextId {
        self.ctx_id
    }

    pub closed spec fn spec_id(&self) -> RootId {
        self.id
    }

    /// The root's current value, or `undefined` once it is unregistered.
    pub fn as_raw(&self) -> (r: JSValue)
        ensures
            exists|s: RootsRegistry| r == root_value(#[trigger] s@, self.spec_id()),
    {
        let got = self.registry.get(self.id);
        let ghost s = choose|s: RootsRegistry|
            got == (if (self.id.0 as int) < (#[trigger] s@).len() { s@[self.id.0 as int] } else { None });
        let r = match got {
            Some(v) => v,
            None => JS_UNDEFINED,
        };
        assert(r == root_value(s@, self.spec_id()));
        r
    }

    /// The context the root belongs to.
    pub fn ctx_id(&self) -> (r: ContextId)
        ensures
            r == self.spec_ctx_id(),
    {
        self.ctx_id
    }

    /// Unregisters the root.
    pub fn release(self) {
        self.registry.remove(self.id);
    }
}

/// A GC-traced field of a RIDL class: a root held by the class instance.
pub struct Traced<T>(pub Root<T>);

impl<T> Traced<T> {
    /// The field's current value.
    pub fn as_raw(&self) -> (r: JSValue)
        ensures
            exists|s: RootsRegistry| r == root_value(#[trigger] s@, self.0.spec_id()),
    {
        self.0.as_raw()
    }

    /// Whether the field holds a value other than the zero word.
    pub fn is_some(&self) -> (r: bool)
        ensures
            exists|s: RootsRegistry| r == (root_value(#[trigger] s@, self.0.spec_id()) != 0),
    {
        let v = self.0.as_raw();
        v != 0
    }
}

/// A value returned across a scope boundary, together with its context.
pub struct ReturnSafe<T> {
    raw: JSValue,
    ctx_id: ContextId,
    _marker: PhantomData<T>,
}

impl<T> ReturnSafe<T> {
    /// Wraps `raw` of the context `ctx_id`.
    pub fn new(raw: JSValue, ctx_id: ContextId) -> (r: Self)
        ensures
            r.spec_raw() == raw,
            r.spec_ctx_id() == ctx_id,
    {
        ReturnSafe { raw, ctx_id, _marker: PhantomData }
    }

    pub closed spec fn spec_raw(&self) -> JSValue {
        self.raw
    }

    pub closed spec fn spec_ctx_id(&self) -> ContextId {
        self.ctx_id
    }

    /// The context of the value.
    pub fn ctx_id(&self) -> (r: ContextId)
        ensures
            r == self.spec_ctx_id(),
    {
        self.ctx_id
    }

    /// The value.
    pub fn raw(&self) -> (r: JSValue)
        ensures
            r == self.spec_raw(),
    {
        self.raw
    }
}

} // verus!
