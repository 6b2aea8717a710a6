//! A table that hands out small integer handles for the values put into it,
//! reusing the lowest handle freed first.

use vstd::prelude::*;
use vstd::pervasive::VecAdditionalExecFns;

verus! {

/// A handle into a `HandleTable`.
#[derive(Clone, Copy, Debug, PartialEq, Eq, Structural)]
pub struct Handle {
    pub val: usize,
}

/// The number of occupied slots among `s`.
pub open spec fn count_occupied<T>(s: Seq<Option<T>>) -> nat
    decreases s.len(),
{
    if s.len() == 0 {
        0
    } else {
        count_occupied(s.drop_last()) + if s.last() is Some {
            1nat
        } else {
            0nat
        }
    }
}

/// Filling an empty slot adds one to the count of occupied slots, and
/// emptying a full one takes one away.
pub proof fn lemma_count_occupied_update<T>(s: Seq<Option<T>>, i: int, x: Option<T>)
    requires
        0 <= i < s.len(),
    ensures
        count_occupied(s.update(i, x)) + (if s[i] is Some {
            1int
        } else {
            0int
        }) == count_occupied(s) + (if x is Some {
            1int
        } else {
            0int
        }),
    decreases s.len(),
{
    let t = s.update(i, x);
    if i == s.len() - 1 {
        assert(t.drop_last() =~= s.drop_last());
    } else {
        lemma_count_occupied_update(s.drop_last(), i, x);
        assert(t.drop_last() =~= s.drop_last().update(i, x));
    }
}

/// Appending a full slot adds one to the count of occupied slots.
pub proof fn lemma_count_occupied_push<T>(s: Seq<Option<T>>, v: T)
    ensures
        count_occupied(s.push(Some(v))) == count_occupied(s) + 1,
{
    assert(s.push(Some(v)).drop_last() =~= s);
}

/// Values stored under handles. A handle freed by `remove` is handed out
/// again by `push`, lowest first.
pub struct HandleTable<T> {
    slots: Vec<Option<T>>,
    num_active: usize,
    free_ids: Vec<usize>,
}

impl<T> View for HandleTable<T> {
    type V = Map<usize, T>;

    /// The live handles and their values.
    closed spec fn view(&self) -> Map<usize, T> {
        Map::new(
            |k: usize| 0 <= k < self.slots@.len() && self.slots@[k as int] is Some,
            |k: usize| self.slots@[k as int]->Some_0,
        )
    }
}

impl<T> HandleTable<T> {
    /// The free list names exactly the empty slots, lowest last.
    pub closed spec fn wf(self) -> bool {
        &&& forall|i: int, j: int|
            0 <= i < j < self.free_ids@.len() ==> self.free_ids@[i] > self.free_ids@[j]
        &&& forall|i: int|
            0 <= i < self.free_ids@.len() ==> self.free_ids@[i] < self.slots@.len()
                && self.slots@[self.free_ids@[i] as int] is None
        &&& forall|k: int|
            0 <= k < self.slots@.len() && self.slots@[k] is None ==> self.free_ids@.contains(
                k as usize,
            )
    }

    /// The number of slots, live or free: every handle handed out so far is below it.
    pub closed spec fn slot_count(self) -> nat {
        self.slots@.len()
    }

    /// The count that `len` reports.
    pub closed spec fn active(self) -> nat {
        self.num_active as nat
    }

    /// The number of live handles.
    pub closed spec fn live_count(self) -> nat {
        count_occupied(self.slots@)
    }

    /// The count that `len` reports is the number of live handles.
    pub open spec fn counted(self) -> bool {
        self.active() == self.live_count()
    }

    /// An empty table.
    pub fn new() -> (t: HandleTable<T>)
        ensures
            t.wf(),
            t@ == Map::<usize, T>::empty(),
            t.slot_count() == 0,
            t.active() == 0,
            t.counted(),
    {
        let t = HandleTable { slots: Vec::new(), num_active: 0, free_ids: Vec::new() };
        assert(t@ =~= Map::<usize, T>::empty());
        t
    }

    /// The number of handles that `push` handed out less the number that
    /// `remove` was called on.
    pub fn len(&self) -> (n: usize)
        ensures
            n == self.active(),
    {
        self.num_active
    }

    /// The number of slots, live or free.
    pub fn num_slots(&self) -> (n: usize)
        ensures
            n == self.slot_count(),
    {
        self.slots.len()
    }

    /// Whether `handle` is live.
    pub fn contains(&self, handle: Handle) -> (b: bool)
        ensures
            b == self@.dom().contains(handle.val),
            b ==> handle.val < self.slot_count(),
    {
        handle.val < self.slots.len() && self.slots[handle.val].is_some()
    }

    /// The value under a live handle.
    pub fn get(&self, handle: Handle) -> (r: &T)
        requires
            self@.dom().contains(handle.val),
        ensures
            *r == self@[handle.val],
    {
        self.slots[handle.val].as_ref().unwrap()
    }

    /// Puts `val` under a live handle and hands back what was there.
    pub fn replace(&mut self, handle: Handle, val: T) -> (r: T)
        requires
            old(self).wf(),
            old(self)@.dom().contains(handle.val),
        ensures
            final(self).wf(),
            r == old(self)@[handle.val],
            final(self)@ == old(self)@.insert(handle.val, val),
            final(self).slot_count() == old(self).slot_count(),
            final(self).active() == old(self).active(),
            final(self).live_count() == old(self).live_count(),
    {
        let ghost s = self.slots@;
        let mut x = Some(val);
        self.slots.set_and_swap(handle.val, &mut x);
        proof {
            lemma_count_occupied_update(s, handle.val as int, Some(val));
            assert(self@ =~= old(self)@.insert(handle.val, val));
            assert forall|k: int|
                0 <= k < self.slots@.len() && self.slots@[k] is None implies self.free_ids@.contains(
                k as usize,
            ) by {
                assert(s[k] is None);
            }
        }
        x.unwrap()
    }

    /// Stores `val` under the lowest handle that is not live, and hands that
    /// handle back.
    pub fn push(&mut self, val: T) -> (h: Handle)
        requires
            old(self).wf(),
            old(self).active() < usize::MAX,
            old(self).slot_count() < usize::MAX,
        ensures
            final(self).wf(),
            !old(self)@.dom().contains(h.val),
            final(self)@ == old(self)@.insert(h.val, val),
            h.val <= old(self).slot_count(),
            forall|k: usize| k < h.val ==> old(self)@.dom().contains(k),
            final(self).slot_count() == if h.val == old(self).slot_count() {
                old(self).slot_count() + 1
            } else {
                old(self).slot_count()
            },
            final(self).active() == old(self).active() + 1,
            final(self).live_count() == old(self).live_count() + 1,
            old(self).counted() ==> final(self).counted(),
    {
        self.num_active = self.num_active + 1;
        let ghost s = self.slots@;
        let ghost free = self.free_ids@;
        match self.free_ids.pop() {
            Some(id) => {
                assert(free.last() == id);
                assert(free.contains(id));
                let ghost fi = free.len() - 1;
                self.slots.set(id, Some(val));
                proof {
                    lemma_count_occupied_update(s, id as int, Some(val));
                    assert(self@ =~= old(self)@.insert(id, val));
                    assert forall|k: usize| k < id implies old(self)@.dom().contains(k) by {
                        if (s[k as int] is None) {
                            assert(free.contains(k));
                            let j = choose|j: int| 0 <= j < free.len() && free[j] == k;
                            assert(free[j] > free[fi]);
                        }
                    }
                    assert forall|k: int|
                        0 <= k < self.slots@.len()
                            && self.slots@[k] is None implies self.free_ids@.contains(
                        k as usize,
                    ) by {
                        assert(free.contains(k as usize));
                        let j = choose|j: int| 0 <= j < free.len() && free[j] == k as usize;
                        assert(j != fi);
                        assert(self.free_ids@[j] == free[j]);
                    }
                }
                Handle { val: id }
            },
            None => {
                self.slots.push(Some(val));
                proof {
                    lemma_count_occupied_push(s, val);
                    assert(self@ =~= old(self)@.insert(s.len() as usize, val));
                    assert forall|k: usize| k < s.len() implies old(self)@.dom().contains(k) by {
                        if (s[k as int] is None) {
                            assert(free.contains(k));
                        }
                    }
                    assert forall|k: int|
                        0 <= k < self.slots@.len()
                            && self.slots@[k] is None implies self.free_ids@.contains(
                        k as usize,
                    ) by {
                        assert(s[k] is None);
                        assert(free.contains(k as usize));
                    }
                }
                Handle { val: self.slots.len() - 1 }
            },
        }
    }

    /// Empties the slot of `handle` and hands back what was in it; the handle
    /// is then free to be handed out again. The count that `len` reports goes
    /// down by one, whether the handle was live or not.
    pub fn remove(&mut self, handle: Handle) -> (r: Option<T>)
        requires
            old(self).wf(),
            handle.val < old(self).slot_count(),
            old(self).active() > 0,
        ensures
            final(self).wf(),
            r == if old(self)@.dom().contains(handle.val) {
                Some(old(self)@[handle.val])
            } else {
                None::<T>
            },
            final(self)@ == old(self)@.remove(handle.val),
            final(self).slot_count() == old(self).slot_count(),
            final(self).active() == old(self).active() - 1,
            final(self).live_count() == old(self).live_count() - if old(self)@.dom().contains(
                handle.val,
            ) {
                1int
            } else {
                0int
            },
            old(self).counted() && old(self)@.dom().contains(handle.val) ==> final(self).counted(),
    {
        let ghost s = self.slots@;
        let ghost free = self.free_ids@;
        let mut result: Option<T> = None;
        self.slots.set_and_swap(handle.val, &mut result);
        proof {
            lemma_count_occupied_update(s, handle.val as int, None);
            assert(self@ =~= old(self)@.remove(handle.val));
        }
        if result.is_some() {
            assert(!free.contains(handle.val));
            let n = self.free_ids.len();
            let mut i: usize = 0;
            while i < n && self.free_ids[i] > handle.val
                invariant
                    n == self.free_ids.len(),
                    self.free_ids@ == free,
                    0 <= i <= n,
                    forall|k: int| 0 <= k < i ==> free[k] > handle.val,
                decreases n - i,
            {
                i = i + 1;
            }
            self.free_ids.insert(i, handle.val);
            proof {
                let f = self.free_ids@;
                assert(f == free.insert(i as int, handle.val));
                if i < n {
                    assert(free[i as int] != handle.val);
                }
                assert forall|a: int, b: int| 0 <= a < b < f.len() implies f[a] > f[b] by {
                    if a < i && b == i {
                    } else if a == i && b > i {
                        assert(f[b] == free[b - 1]);
                        if b - 1 > i {
                            assert(free[i as int] > free[b - 1]);
                        }
                    } else if a < i && b > i {
                        assert(f[b] == free[b - 1]);
                    } else if a > i {
                        assert(f[a] == free[a - 1]);
                        assert(f[b] == free[b - 1]);
                    }
                }
                assert forall|a: int| 0 <= a < f.len() implies f[a] < self.slots@.len()
                    && self.slots@[f[a] as int] is None by {
                    if a > i {
                        assert(f[a] == free[a - 1]);
                    }
                }
                assert forall|k: int|
                    0 <= k < self.slots@.len() && self.slots@[k] is None implies f.contains(
                    k as usize,
                ) by {
                    if k == handle.val {
                        assert(f[i as int] == handle.val);
                    } else {
                        assert(free.contains(k as usize));
                        let j = choose|j: int| 0 <= j < free.len() && free[j] == k as usize;
                        if j < i {
                            assert(f[j] == free[j]);
                        } else {
                            assert(f[j + 1] == free[j]);
                        }
                    }
                }
            }
        } else {
            proof {
                assert forall|k: int|
                    0 <= k < self.slots@.len()
                        && self.slots@[k] is None implies self.free_ids@.contains(k as usize) by {
                    assert(s[k] is None);
                }
            }
        }
        self.num_active = self.num_active - 1;
        result
    }
}

} // verus!
