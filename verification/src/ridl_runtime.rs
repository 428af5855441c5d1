//! Per-context extension slots that generated modules fill with their own
//! state (a singleton's state, a class prototype, ...). Each allocation is
//! named by a token; whoever tears the context down releases the tokens that
//! the slots hand back.

use vstd::prelude::*;

verus! {

/// Why a slot could not be set.
#[derive(Debug, Clone, Copy, PartialEq, Eq, Structural)]
pub enum RidlSlotSetError {
    /// No extension layout is installed.
    VTableMissing,
    /// `slot_index` is not a slot of the installed layout.
    InvalidSlot { slot_index: u32 },
    /// The slot already holds an allocation; it is never overwritten.
    AlreadySet { slot_index: u32 },
}

/// One slot: empty, or holding the token of one module-owned allocation.
pub struct ErasedCtxSlot {
    token: Option<u64>,
}

impl View for ErasedCtxSlot {
    type V = Option<u64>;

    closed spec fn view(&self) -> Option<u64> {
        self.token
    }
}

impl ErasedCtxSlot {
    /// An empty slot.
    pub fn empty() -> (s: Self)
        ensures
            s@ is None,
    {
        ErasedCtxSlot { token: None }
    }

    /// Whether the slot holds an allocation.
    pub fn is_set(&self) -> (b: bool)
        ensures
            b == self@ is Some,
    {
        self.token.is_some()
    }

    /// The token of the allocation held, if any.
    pub fn token(&self) -> (t: Option<u64>)
        ensures
            t == self@,
    {
        self.token
    }

    /// Stores an allocation in an empty slot.
    pub fn set(&mut self, token: u64)
        requires
            old(self)@ is None,
        ensures
            final(self)@ == Some(token),
    {
        self.token = Some(token);
    }

    /// Empties the slot and hands back the allocation it held, which the
    /// caller releases; a second call hands back nothing.
    pub fn drop_in_place(&mut self) -> (released: Option<u64>)
        ensures
            released == old(self)@,
            final(self)@ is None,
    {
        let t = self.token;
        self.token = None;
        t
    }
}

/// The slots of one context's extension state, as seen by the code that
/// fills them: `None` while no extension layout is installed.
pub struct RidlCtxExtWriter {
    slots: Option<Vec<ErasedCtxSlot>>,
}

/// The tokens of a list of slots.
pub open spec fn slot_tokens(s: Seq<ErasedCtxSlot>) -> Seq<Option<u64>> {
    s.map_values(|x: ErasedCtxSlot| x@)
}

impl View for RidlCtxExtWriter {
    type V = Option<Seq<Option<u64>>>;

    closed spec fn view(&self) -> Option<Seq<Option<u64>>> {
        match self.slots {
            Some(v) => Some(slot_tokens(v@)),
            None => None,
        }
    }
}

/// What `set_slot` answers on a layout (`None`: none installed) and a slot
/// index.
pub open spec fn set_slot_outcome(layout: Option<Seq<Option<u64>>>, slot_index: u32) -> Result<
    (),
    RidlSlotSetError,
> {
    match layout {
        None => Err(RidlSlotSetError::VTableMissing),
        Some(s) => if slot_index >= s.len() {
            Err(RidlSlotSetError::InvalidSlot { slot_index })
        } else if s[slot_index as int] is Some {
            Err(RidlSlotSetError::AlreadySet { slot_index })
        } else {
            Ok(())
        },
    }
}

/// A slot is set at most once: on a slot that exists and is empty the first
/// `set_slot` succeeds, and every later one on the same slot is refused with
/// `AlreadySet`.
pub proof fn law_slot_set_once(layout: Seq<Option<u64>>, slot_index: u32, token: u64)
    requires
        slot_index < layout.len(),
        layout[slot_index as int] is None,
    ensures
        set_slot_outcome(Some(layout), slot_index) == Ok::<(), RidlSlotSetError>(()),
        set_slot_outcome(Some(layout.update(slot_index as int, Some(token))), slot_index)
            == Err::<(), RidlSlotSetError>(RidlSlotSetError::AlreadySet { slot_index }),
{
}

impl RidlCtxExtWriter {
    /// A writer over a layout of `slot_count` empty slots, or over no layout
    /// at all when `slot_count` is `None`.
    pub fn new(slot_count: Option<u32>) -> (w: Self)
        ensures
            match slot_count {
                None => w@ is None,
                Some(n) => w@ == Some(Seq::new(n as nat, |i: int| None::<u64>)),
            },
    {
        match slot_count {
            None => RidlCtxExtWriter { slots: None },
            Some(n) => {
                let mut v: Vec<ErasedCtxSlot> = Vec::new();
                let mut i: u32 = 0;
                while i < n
                    invariant
                        i <= n,
                        v@.len() == i,
                        forall|k: int| 0 <= k < i ==> v@[k]@ is None,
                    decreases n - i,
                {
                    v.push(ErasedCtxSlot::empty());
                    i = i + 1;
                }
                let w = RidlCtxExtWriter { slots: Some(v) };
                assert(slot_tokens(v@) =~= Seq::new(n as nat, |i: int| None::<u64>));
                w
            },
        }
    }

    /// The token held in slot `slot_index`, if the layout has that slot and
    /// it is set.
    pub fn slot_token(&self, slot_index: u32) -> (t: Option<u64>)
        ensures
            t == match self@ {
                Some(s) => if slot_index < s.len() {
                    s[slot_index as int]
                } else {
                    None
                },
                None => None,
            },
    {
        match &self.slots {
            None => None,
            Some(v) => {
                if (slot_index as usize) < v.len() {
                    v[slot_index as usize].token()
                } else {
                    None
                }
            },
        }
    }

    /// Stores an allocation in slot `slot_index`: refused with
    /// `VTableMissing` when no layout is installed, with `InvalidSlot` when
    /// the layout has no such slot, and with `AlreadySet` when the slot is
    /// already set; on success only that slot changes.
    pub fn set_slot(&mut self, slot_index: u32, token: u64) -> (r: Result<(), RidlSlotSetError>)
        ensures
            r == set_slot_outcome(old(self)@, slot_index),
            r is Ok ==> final(self)@ == Some(
                old(self)@->0.update(slot_index as int, Some(token)),
            ),
            r is Err ==> final(self)@ == old(self)@,
    {
        match &mut self.slots {
            None => Err(RidlSlotSetError::VTableMissing),
            Some(v) => {
                let i = slot_index as usize;
                if i >= v.len() {
                    return Err(RidlSlotSetError::InvalidSlot { slot_index });
                }
                if v[i].is_set() {
                    return Err(RidlSlotSetError::AlreadySet { slot_index });
                }
                let ghost before = v@;
                let mut slot = ErasedCtxSlot::empty();
                slot.set(token);
                v.set(i, slot);
                assert(slot_tokens(v@) =~= slot_tokens(before).update(i as int, Some(token)));
                Ok(())
            },
        }
    }

    /// Empties every slot and hands back the allocations they held, in slot
    /// order, for the caller to release.
    pub fn release_all(&mut self) -> (released: Vec<u64>)
        ensures
            released@ == match old(self)@ {
                None => Seq::<u64>::empty(),
                Some(s) => s.filter(|t: Option<u64>| t is Some).map_values(|t: Option<u64>| t->0),
            },
            match old(self)@ {
                None => final(self)@ is None,
                Some(s) => final(self)@ == Some(Seq::new(s.len(), |i: int| None::<u64>)),
            },
    {
        let mut out: Vec<u64> = Vec::new();
        match &mut self.slots {
            None => {},
            Some(v) => {
                let ghost s0 = slot_tokens(v@);
                let n = v.len();
                let mut i: usize = 0;
                while i < n
                    invariant
                        n == v@.len(),
                        i <= n,
                        s0.len() == n,
                        forall|k: int| 0 <= k < i ==> v@[k]@ is None,
                        forall|k: int| i <= k < n ==> v@[k]@ == s0[k],
                        out@ == s0.take(i as int).filter(|t: Option<u64>| t is Some).map_values(
                            |t: Option<u64>| t->0,
                        ),
                    decreases n - i,
                {
                    let t = v[i].token();
                    proof {
                        assert(s0.take(i as int + 1) =~= s0.take(i as int).push(s0[i as int]));
                        s0.take(i as int).lemma_filter_push(s0[i as int], |t: Option<u64>| t is Some);
                    }
                    match t {
                        Some(x) => {
                            out.push(x);
                        },
                        None => {},
                    }
                    v.set(i, ErasedCtxSlot::empty());
                    i = i + 1;
                }
                proof {
                    assert(s0.take(n as int) =~= s0);
                    assert(slot_tokens(v@) =~= Seq::new(n as nat, |i: int| None::<u64>));
                }
            },
        }
        out
    }
}

} // verus!
