//! A fixed-capacity slot allocator with stable slot positions.
//!
//! Kernel-held in-flight operations keep referring to the storage they were
//! submitted with until they complete, so that storage must neither move nor
//! be reused while the operation is outstanding. A growable container cannot
//! promise that; this allocator can: its capacity is fixed at construction,
//! a slot index stays valid from allocation until the matching `dealloc`, and no
//! index is handed out twice without an intervening `dealloc`.

use vstd::prelude::*;
use vstd::set_lib::lemma_len_subset;
use vstd::set_lib::lemma_int_range;
use vstd::set_lib::set_int_range;

verus! {

/// A slab of `capacity` slots for values of type `T`, with a free list of the
/// slot indexes not currently allocated.
pub struct RawSlab<T> {
    slots: Vec<Option<T>>,
    free_indexes: Vec<usize>,
}

impl<T> RawSlab<T> {
    /// The fixed number of slots.
    pub closed spec fn spec_capacity(self) -> int {
        self.slots@.len() as int
    }

    /// The free slot indexes, next-to-be-allocated last.
    pub closed spec fn free_list(self) -> Seq<usize> {
        self.free_indexes@
    }

    /// Whether slot `i` is currently free (not allocated).
    pub open spec fn is_free(self, i: usize) -> bool {
        self.free_list().contains(i)
    }

    /// Number of currently allocated slots.
    pub open spec fn spec_allocated(self) -> int {
        self.spec_capacity() - self.free_list().len()
    }

    /// The value stored in slot `i`, if one has been stored.
    pub closed spec fn slot(self, i: int) -> Option<T> {
        self.slots@[i]
    }

    /// Well-formedness: every free index designates a slot, no index is free
    /// twice, and a free slot stores nothing.
    pub closed spec fn wf(self) -> bool {
        &&& forall|k: int|
            0 <= k < self.free_list().len() ==> (#[trigger] self.free_list()[k]) < self.spec_capacity()
        &&& forall|k1: int, k2: int|
            0 <= k1 < k2 < self.free_list().len() ==> self.free_list()[k1] != self.free_list()[k2]
        &&& forall|k: int|
            0 <= k < self.free_list().len() ==> self.slot(#[trigger] self.free_list()[k] as int) is None
    }

    /// Create a slab of `buf_len` empty slots, all free, so that the first
    /// allocations return the indexes 0, 1, 2, ... in order.
    pub fn new(buf_len: usize) -> (slab: RawSlab<T>)
        ensures
            slab.wf(),
            slab.spec_capacity() == buf_len,
            slab.spec_allocated() == 0,
            slab.free_list() == Seq::new(buf_len as nat, |i: int| (buf_len - 1 - i) as usize),
            forall|i: int| 0 <= i < buf_len ==> slab.slot(i) is None,
    {
        let mut slots: Vec<Option<T>> = Vec::new();
        let mut i: usize = 0;
        while i < buf_len
            invariant
                i <= buf_len,
                slots@.len() == i,
                forall|j: int| 0 <= j < i ==> slots@[j] is None,
            decreases buf_len - i,
        {
            slots.push(None);
            i += 1;
        }
        let mut free_indexes: Vec<usize> = Vec::new();
        let mut j: usize = 0;
        while j < buf_len
            invariant
                j <= buf_len,
                free_indexes@.len() == j,
                forall|k: int| 0 <= k < j ==> free_indexes@[k] == (buf_len - 1 - k) as usize,
            decreases buf_len - j,
        {
            free_indexes.push(buf_len - 1 - j);
            j += 1;
        }
        let slab = RawSlab { slots, free_indexes };
        proof {
            assert(slab.free_list() =~= Seq::new(buf_len as nat, |i: int| (buf_len - 1 - i) as usize));
        }
        slab
    }

    /// Allocate a slot: pop a free index, or report that the slab is full.
    pub fn allocate(&mut self) -> (r: Option<usize>)
        requires
            old(self).wf(),
        ensures
            final(self).wf(),
            final(self).spec_capacity() == old(self).spec_capacity(),
            forall|i: int| final(self).slot(i) == old(self).slot(i),
            match r {
                None => {
                    &&& old(self).free_list().len() == 0
                    &&& final(self).free_list() == old(self).free_list()
                },
                Some(idx) => {
                    &&& old(self).free_list().len() > 0
                    &&& idx == old(self).free_list().last()
                    &&& idx < old(self).spec_capacity()
                    &&& old(self).is_free(idx)
                    &&& !final(self).is_free(idx)
                    &&& final(self).free_list() == old(self).free_list().drop_last()
                    &&& final(self).spec_allocated() == old(self).spec_allocated() + 1
                },
            },
    {
        let popped = self.free_indexes.pop();
        match popped {
            None => None,
            Some(idx) => {
                proof {
                    let fl = old(self).free_list();
                    assert(fl.contains(idx)) by {
                        assert(fl[fl.len() - 1] == idx);
                    }
                    assert(!final(self).is_free(idx)) by {
                        if final(self).free_list().contains(idx) {
                            let k = choose|k: int|
                                0 <= k < fl.len() - 1 && fl.drop_last()[k] == idx;
                            assert(fl[k] == fl[fl.len() - 1]);
                        }
                    }
                }
                Some(idx)
            },
        }
    }

    /// Return an allocated slot to the free list, dropping any stored value.
    /// Only an index previously allocated, and not freed since, may
    /// be handed back: freeing anything else is the caller's error.
    pub fn dealloc(&mut self, idx: usize)
        requires
            old(self).wf(),
            idx < old(self).spec_capacity(),
            !old(self).is_free(idx),
        ensures
            final(self).wf(),
            final(self).spec_capacity() == old(self).spec_capacity(),
            final(self).free_list() == old(self).free_list().push(idx),
            final(self).is_free(idx),
            final(self).spec_allocated() == old(self).spec_allocated() - 1,
            final(self).slot(idx as int) is None,
            forall|i: int| 0 <= i < old(self).spec_capacity() && i != idx ==> final(self).slot(i)
                == old(self).slot(i),
    {
        self.slots.set(idx, None);
        self.free_indexes.push(idx);
        proof {
            let fl = final(self).free_list();
            assert(fl.contains(idx)) by {
                assert(fl[fl.len() - 1] == idx);
            }
            assert forall|k1: int, k2: int| 0 <= k1 < k2 < fl.len() implies fl[k1] != fl[k2] by {
                if k2 == fl.len() - 1 {
                    assert(old(self).free_list().contains(fl[k1]) || fl[k1] != idx) by {
                        assert(old(self).free_list()[k1] == fl[k1]);
                    }
                }
            }
        }
    }

    /// The maximum number of slots that can be allocated.
    pub fn capacity(&self) -> (n: usize)
        ensures
            n == self.spec_capacity(),
    {
        self.slots.len()
    }

    /// The number of currently allocated slots.
    pub fn allocated(&self) -> (n: usize)
        requires
            self.wf(),
        ensures
            n == self.spec_allocated(),
    {
        proof {
            lemma_free_list_bounded(*self);
        }
        self.slots.len() - self.free_indexes.len()
    }

    /// Store `val` in the allocated slot `idx`, as the outside writer that
    /// was handed the slot would.
    pub fn put(&mut self, idx: usize, val: T)
        requires
            old(self).wf(),
            idx < old(self).spec_capacity(),
            !old(self).is_free(idx),
        ensures
            final(self).wf(),
            final(self).spec_capacity() == old(self).spec_capacity(),
            final(self).free_list() == old(self).free_list(),
            final(self).slot(idx as int) == Some(val),
            forall|i: int| 0 <= i < old(self).spec_capacity() && i != idx ==> final(self).slot(i)
                == old(self).slot(i),
    {
        self.slots.set(idx, Some(val));
    }

    /// Read the value stored in the allocated slot `idx`.
    pub fn get(&self, idx: usize) -> (r: &T)
        requires
            self.wf(),
            idx < self.spec_capacity(),
            self.slot(idx as int) is Some,
        ensures
            Some(*r) == self.slot(idx as int),
    {
        vstd::slice::slice_index_get(self.slots.as_slice(), idx).as_ref().unwrap()
    }
}

/// A free list of distinct in-range indexes can never hold more entries than
/// there are slots.
pub proof fn lemma_free_list_bounded<T>(slab: RawSlab<T>)
    requires
        slab.wf(),
    ensures
        slab.free_list().len() <= slab.spec_capacity(),
        slab.spec_allocated() >= 0,
{
    let fl = slab.free_list();
    let cap = slab.spec_capacity();
    let t = Seq::<int>::new(fl.len(), |i: int| fl[i] as int);
    assert(t.no_duplicates()) by {
        assert forall|k1: int, k2: int| 0 <= k1 < fl.len() && 0 <= k2 < fl.len() && k1 != k2
            implies t[k1] != t[k2] by {
            if k1 < k2 {
                assert(fl[k1] != fl[k2]);
            } else {
                assert(fl[k2] != fl[k1]);
            }
        }
    }
    t.unique_seq_to_set();
    assert(t.to_set().subset_of(set_int_range(0, cap))) by {
        assert forall|x: int| t.to_set().contains(x) implies set_int_range(0, cap).contains(x) by {
            let k = choose|k: int| 0 <= k < t.len() && t[k] == x;
            assert(fl[k] < cap);
        }
    }
    lemma_int_range(0, cap);
    lemma_len_subset(t.to_set(), set_int_range(0, cap));
}

} // verus!
