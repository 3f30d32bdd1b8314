//! Generational arena: objects are addressed by a handle made of a slot index and
//! the generation at which the object was stored, so that a handle to a removed
//! object never resolves to an object stored later in the same slot.

use vstd::prelude::*;

verus! {

/// Handle to an object of a [`GenVec`].
#[derive(Clone, Copy, PartialEq, Eq, Structural, Debug, Hash, Default)]
pub struct Handle {
    pub idx: u32,
    pub generation: u64,
}

impl Handle {
    pub fn new(idx: u32, generation: u64) -> (h: Handle)
        ensures
            h.idx == idx,
            h.generation == generation,
    {
        Handle { idx, generation }
    }

    /// A handle is set once it has been given out by an arena (generations start at 1).
    pub fn is_set(&self) -> (b: bool)
        ensures
            b == (self.generation > 0),
    {
        self.generation > 0
    }

    pub fn id(&self) -> (i: u32)
        ensures
            i == self.idx,
    {
        self.idx
    }

    pub fn reset(&mut self)
        ensures
            final(self).generation == 0,
            final(self).idx == old(self).idx,
    {
        self.generation = 0;
    }
}

/// A stored object together with the generation it was stored at.
pub struct Cell<T> {
    pub obj: T,
    pub generation: u64,
}

/// Vector of optional cells; a free slot is `None` and is reused by the next `add`.
pub struct GenVec<T> {
    pub vec: Vec<Option<Cell<T>>>,
    pub cur_generation: u64,
}

/// The object that `h` resolves to in the slots `s`, if any.
pub open spec fn slot_lookup<T>(s: Seq<Option<Cell<T>>>, h: Handle) -> Option<T> {
    if h.idx < s.len() && s[h.idx as int] is Some && s[h.idx as int]->0.generation == h.generation {
        Some(s[h.idx as int]->0.obj)
    } else {
        None
    }
}

/// Index of the first free slot of `s`, or its length when every slot is taken.
pub open spec fn first_free<T>(s: Seq<Option<Cell<T>>>) -> int {
    if exists|i: int| 0 <= i < s.len() && s[i] is None {
        choose|i: int| 0 <= i < s.len() && s[i] is None && forall|j: int| 0 <= j < i ==> s[j] is Some
    } else {
        s.len() as int
    }
}

proof fn lemma_min_free_exists<T>(s: Seq<Option<Cell<T>>>, k: int)
    requires
        0 <= k < s.len(),
        s[k] is None,
    ensures
        exists|i: int| 0 <= i < s.len() && s[i] is None && forall|j: int| 0 <= j < i ==> s[j] is Some,
    decreases k,
{
    if exists|j: int| 0 <= j < k && s[j] is None {
        let j = choose|j: int| 0 <= j < k && s[j] is None;
        lemma_min_free_exists(s, j);
    } else {
        assert(forall|j: int| 0 <= j < k ==> s[j] is Some);
    }
}

/// `first_free` is the first free slot, or the length when there is none.
pub proof fn lemma_first_free<T>(s: Seq<Option<Cell<T>>>)
    ensures
        0 <= first_free(s) <= s.len(),
        forall|j: int| 0 <= j < first_free(s) ==> s[j] is Some,
        first_free(s) < s.len() ==> s[first_free(s)] is None,
{
    if exists|i: int| 0 <= i < s.len() && s[i] is None {
        let k = choose|i: int| 0 <= i < s.len() && s[i] is None;
        lemma_min_free_exists(s, k);
    } else {
        assert forall|j: int| 0 <= j < s.len() implies s[j] is Some by {
            if s[j] is None {
                assert(exists|i: int| 0 <= i < s.len() && s[i] is None);
            }
        }
    }
}

/// The slots `s` after storing `obj` under generation `generation` in the first free slot.
pub open spec fn slots_added<T>(s: Seq<Option<Cell<T>>>, generation: u64, obj: T) -> Seq<Option<Cell<T>>> {
    let cell = Cell { obj, generation };
    let i = first_free(s);
    if i < s.len() {
        s.update(i, Some(cell))
    } else {
        s.push(Some(cell))
    }
}

/// The slots `s` after freeing the slot of `h`, if `h` resolves in them.
pub open spec fn slots_removed<T>(s: Seq<Option<Cell<T>>>, h: Handle) -> Seq<Option<Cell<T>>> {
    if slot_lookup(s, h) is Some {
        s.update(h.idx as int, None)
    } else {
        s
    }
}

/// Occupied slots hold generations between 1 and `cur`, pairwise distinct.
pub open spec fn slots_wf<T>(s: Seq<Option<Cell<T>>>, cur: u64) -> bool {
    &&& forall|i: int| 0 <= i < s.len() && #[trigger] s[i] is Some ==> 1 <= s[i]->0.generation <= cur
    &&& forall|i: int, j: int| 0 <= i < s.len() && 0 <= j < s.len() && i != j
        && #[trigger] s[i] is Some && #[trigger] s[j] is Some
        ==> s[i]->0.generation != s[j]->0.generation
}

impl<T> GenVec<T> {
    /// Every occupied slot holds a generation between 1 and the current generation,
    /// and no two occupied slots share a generation.
    pub open spec fn wf(&self) -> bool {
        slots_wf(self.vec@, self.cur_generation)
    }

    /// The object a handle resolves to.
    pub open spec fn lookup(&self, h: Handle) -> Option<T> {
        slot_lookup(self.vec@, h)
    }

    /// The slots after storing `obj` under the next generation.
    pub open spec fn added_slots(&self, obj: T) -> Seq<Option<Cell<T>>> {
        slots_added(self.vec@, (self.cur_generation + 1) as u64, obj)
    }

    /// Number of slots.
    pub open spec fn slots(&self) -> nat {
        self.vec@.len()
    }

    pub fn new() -> (v: Self)
        ensures
            v.wf(),
            v.vec@.len() == 0,
            v.cur_generation == 0,
            forall|h: Handle| #[trigger] v.lookup(h) is None,
    {
        GenVec { vec: Vec::new(), cur_generation: 0 }
    }

    /// The handle of the cell stored at `idx`.
    pub fn get_handle(cell: &Cell<T>, idx: usize) -> (h: Handle)
        requires
            idx <= u32::MAX,
        ensures
            h.idx == idx,
            h.generation == cell.generation,
    {
        Handle { idx: idx as u32, generation: cell.generation }
    }

    fn find_unused_idx(&self) -> (r: Option<usize>)
        ensures
            r is Some <==> exists|i: int| 0 <= i < self.vec@.len() && self.vec@[i] is None,
            r matches Some(i) ==> i < self.vec@.len() && self.vec@[i as int] is None
                && forall|j: int| 0 <= j < i ==> self.vec@[j] is Some,
    {
        let mut i: usize = 0;
        while i < self.vec.len()
            invariant
                i <= self.vec@.len(),
                forall|j: int| 0 <= j < i ==> self.vec@[j] is Some,
            decreases self.vec@.len() - i,
        {
            if self.vec[i].is_none() {
                return Some(i);
            }
            i = i + 1;
        }
        None
    }

    /// Stores `obj` in the first free slot (or a new one at the end) under a fresh generation.
    pub fn add(&mut self, obj: T) -> (h: Handle)
        requires
            old(self).wf(),
            old(self).cur_generation < u64::MAX,
            old(self).vec@.len() < u32::MAX,
        ensures
            final(self).wf(),
            final(self).cur_generation == old(self).cur_generation + 1,
            final(self).vec@ == old(self).added_slots(obj),
            h.generation == final(self).cur_generation,
            h.idx == first_free(old(self).vec@),
            final(self).lookup(h) == Some(obj),
            forall|h2: Handle| h2 != h ==> #[trigger] final(self).lookup(h2) == old(self).lookup(h2),
            final(self).vec@.len() == if first_free(old(self).vec@) < old(self).vec@.len() {
                old(self).vec@.len()
            } else {
                old(self).vec@.len() + 1
            },
    {
        self.cur_generation = self.cur_generation + 1;
        let generation = self.cur_generation;
        let unused = self.find_unused_idx();
        let ghost old_vec = self.vec@;
        let idx: usize = match unused {
            Some(i) => i,
            None => self.vec.len(),
        };
        proof {
            if exists|i: int| 0 <= i < old_vec.len() && old_vec[i] is None {
                let c = first_free(old_vec);
                let u = unused->0 as int;
                assert(old_vec[c] is None && forall|j: int| 0 <= j < c ==> old_vec[j] is Some);
                if c < u {
                    assert(old_vec[c] is Some);
                }
                if u < c {
                    assert(old_vec[u] is Some);
                }
            }
        }
        let cell = Cell { obj, generation };
        match unused {
            Some(i) => {
                self.vec.set(i, Some(cell));
            },
            None => {
                self.vec.push(Some(cell));
            },
        }
        let h = Handle { idx: idx as u32, generation };
        assert(self.vec@ =~= old(self).added_slots(obj));
        assert forall|h2: Handle| h2 != h implies #[trigger] self.lookup(h2) == old(self).lookup(h2) by {
            if h2.idx == idx {
                if h2.idx < old_vec.len() && old_vec[h2.idx as int] is Some {
                    assert(false);
                }
            }
        }
        h
    }

    /// Frees the slot of `handle` if it still holds the object the handle was given for.
    pub fn remove(&mut self, handle: &Handle)
        requires
            old(self).wf(),
        ensures
            final(self).wf(),
            final(self).cur_generation == old(self).cur_generation,
            final(self).vec@.len() == old(self).vec@.len(),
            final(self).lookup(*handle) is None,
            forall|h2: Handle| h2.idx != handle.idx ==> #[trigger] final(self).lookup(h2) == old(self).lookup(h2),
            final(self).vec@ == slots_removed(old(self).vec@, *handle),
    {
        let idx = handle.idx as usize;
        if idx >= self.vec.len() {
            return;
        }
        let matches = match &self.vec[idx] {
            Some(cell) => cell.generation == handle.generation,
            None => false,
        };
        if matches {
            self.vec.set(idx, None);
        }
    }

    pub fn get(&self, handle: &Handle) -> (r: Option<&T>)
        ensures
            match r {
                Some(x) => self.lookup(*handle) == Some(*x),
                None => self.lookup(*handle) is None,
            },
    {
        let idx = handle.idx as usize;
        if idx >= self.vec.len() {
            return None;
        }
        match &self.vec[idx] {
            Some(cell) => {
                if cell.generation == handle.generation {
                    Some(&cell.obj)
                } else {
                    None
                }
            },
            None => None,
        }
    }

    /// Mutable access to the object a handle resolves to.
    pub fn get_mut(&mut self, handle: &Handle) -> (r: Option<&mut T>)
        requires
            old(self).wf(),
        ensures
            match r {
                Some(x) => {
                    &&& old(self).lookup(*handle) == Some(*x)
                    &&& final(self).vec@ == old(self).vec@.update(
                        handle.idx as int,
                        Some(Cell { obj: *final(x), generation: handle.generation }),
                    )
                },
                None => old(self).lookup(*handle) is None && final(self).vec@ == old(self).vec@,
            },
            final(self).cur_generation == old(self).cur_generation,
            final(self).wf(),
    {
        let idx = handle.idx as usize;
        if idx >= self.vec.len() {
            return None;
        }
        let slot = &mut self.vec[idx];
        match slot {
            Some(cell) => {
                if cell.generation == handle.generation {
                    Some(&mut cell.obj)
                } else {
                    None
                }
            },
            None => None,
        }
    }
}

/// A handle that does not resolve and is not newer than the arena's current
/// generation does not resolve after an object is added either: the added
/// object gets a generation that was never handed out.
pub proof fn law_dead_handle_stays_dead<T>(s: Seq<Option<Cell<T>>>, cur: u64, obj: T, h: Handle)
    requires
        slots_wf(s, cur),
        cur < u64::MAX,
        slot_lookup(s, h) is None,
        h.generation <= cur,
    ensures
        slot_lookup(slots_added(s, (cur + 1) as u64, obj), h) is None,
{
    let i = first_free(s);
    let s2 = slots_added(s, (cur + 1) as u64, obj);
    lemma_first_free(s);
    if h.idx as int == i {
        assert(s2[i]->0.generation == cur + 1);
    } else if h.idx < s.len() {
        assert(s2[h.idx as int] == s[h.idx as int]);
    }
}

/// A removed object's handle is dead: it does not resolve after the removal,
/// nor after a following addition.
pub proof fn law_removed_handle_stays_dead<T>(s: Seq<Option<Cell<T>>>, cur: u64, obj: T, h: Handle)
    requires
        slots_wf(s, cur),
        cur < u64::MAX,
        slot_lookup(s, h) is Some,
    ensures
        slot_lookup(slots_removed(s, h), h) is None,
        slot_lookup(slots_added(slots_removed(s, h), (cur + 1) as u64, obj), h) is None,
{
    let r = slots_removed(s, h);
    assert(s[h.idx as int] is Some);
    assert forall|i: int| 0 <= i < r.len() && #[trigger] r[i] is Some implies 1 <= r[i]->0.generation <= cur by {
        assert(s[i] is Some);
    }
    assert forall|i: int, j: int| 0 <= i < r.len() && 0 <= j < r.len() && i != j
        && #[trigger] r[i] is Some && #[trigger] r[j] is Some
        implies r[i]->0.generation != r[j]->0.generation by {
        assert(s[i] is Some && s[j] is Some);
    }
    law_dead_handle_stays_dead(r, cur, obj, h);
}

/// An added object is found again under the returned handle, and every other
/// handle resolves as before.
pub proof fn law_add_then_lookup<T>(s: Seq<Option<Cell<T>>>, cur: u64, obj: T, h2: Handle)
    requires
        slots_wf(s, cur),
        cur < u64::MAX,
    ensures
        first_free(s) <= u32::MAX ==> slot_lookup(
            slots_added(s, (cur + 1) as u64, obj),
            Handle { idx: first_free(s) as u32, generation: (cur + 1) as u64 },
        ) == Some(obj),
        h2.generation <= cur ==> slot_lookup(slots_added(s, (cur + 1) as u64, obj), h2) == slot_lookup(s, h2),
{
    let i = first_free(s);
    let s2 = slots_added(s, (cur + 1) as u64, obj);
    lemma_first_free(s);
    if h2.generation <= cur {
        if h2.idx as int == i {
            if h2.idx < s.len() {
                assert(s[i] is None);
            }
        } else if h2.idx < s.len() {
            assert(s2[h2.idx as int] == s[h2.idx as int]);
        }
    }
}

} // verus!
