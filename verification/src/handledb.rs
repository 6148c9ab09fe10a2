//! The handle table: open resources behind small integer handles.
//!
//! A dense slot array with an embedded free-list: slot 0 is a sentinel
//! meaning "no handle", a vacant slot stores the index of the next free
//! slot, and `store` reuses the lowest freed slot before growing.  A ghost
//! image of the free chain carries the invariant that the chain only runs
//! through vacant slots.

use vstd::prelude::*;

verus! {

/// POSIX code for a bad file handle.
pub const EBADF: i32 = 9;

/// One slot: a live handle, or a link in the free chain.
pub enum Entry<T> {
    /// Free; holds the index of the next free slot, zero at the end of
    /// the chain.
    Invalid(usize),
    /// In use.
    Valid(T),
}

/// Maps small integer handles to live values of type `T`.
pub struct HandleDb<T> {
    handles: Vec<Entry<T>>,
    free_idx: usize,
    free_chain: Ghost<Seq<int>>,
}

impl<T> HandleDb<T> {
    /// The slots.
    pub closed spec fn slots(&self) -> Seq<Entry<T>> {
        self.handles@
    }

    /// The live value at a slot, if one is there.
    pub open spec fn value_at(&self, i: int) -> Option<T> {
        if 0 <= i < self.slots().len() {
            match self.slots()[i] {
                Entry::Valid(t) => Some(t),
                Entry::Invalid(_) => None,
            }
        } else {
            None
        }
    }

    /// The ghost image of the free chain.
    pub closed spec fn chain(&self) -> Seq<int> {
        self.free_chain@
    }

    /// The head of the free chain.
    pub closed spec fn free_spec(&self) -> int {
        self.free_idx as int
    }

    /// The structural invariant: slot 0 is the sentinel, the free chain
    /// runs through distinct vacant non-sentinel slots, each linking to
    /// the next, ending at the sentinel — and every vacant non-sentinel
    /// slot is on the chain, so a free slot is never stranded.
    pub closed spec fn wf(&self) -> bool {
        &&& self.slots().len() >= 1
        &&& self.slots()[0] matches Entry::Invalid(z) && z == 0
        &&& (if self.chain().len() == 0 {
            self.free_spec() == 0
        } else {
            self.free_spec() == self.chain()[0]
        })
        &&& forall|i: int|
            0 <= i < self.chain().len() ==> 1 <= #[trigger] self.chain()[i] < self.slots().len()
        &&& forall|i: int|
            0 <= i < self.chain().len() ==> ((#[trigger] self.slots()[self.chain()[i]])
                matches Entry::Invalid(n) && n == (if i + 1 < self.chain().len() {
                self.chain()[i + 1]
            } else {
                0
            }))
        &&& forall|i: int, j: int|
            0 <= i < j < self.chain().len() ==> #[trigger] self.chain()[i] != #[trigger] self
                .chain()[j]
        &&& forall|s: int|
            1 <= s < self.slots().len() && (#[trigger] self.slots()[s]) is Invalid
                ==> self.chain().contains(s)
    }

    /// A table with room for `capacity` handles and only the sentinel
    /// slot in it.
    pub fn with_capacity(capacity: usize) -> (r: Self)
        ensures
            r.wf(),
            r.slots().len() == 1,
            forall|i: int| r.value_at(i) is None,
    {
        let mut handles: Vec<Entry<T>> = Vec::with_capacity(capacity);
        handles.push(Entry::Invalid(0));
        let r = HandleDb { handles, free_idx: 0, free_chain: Ghost(Seq::empty()) };
        r
    }

    /// Stores a handle in the lowest free slot, growing the table when
    /// none is free, and hands out its index.  No other slot changes, the
    /// index did not name a live handle before, and the table only grows
    /// when no freed slot was left to reuse.
    pub fn store(&mut self, handle: T) -> (r: u64)
        requires
            old(self).wf(),
        ensures
            final(self).wf(),
            0 < r < final(self).slots().len(),
            final(self).value_at(r as int) matches Some(h) && h == handle,
            old(self).value_at(r as int) is None,
            forall|j: int| j != r ==> final(self).value_at(j) == old(self).value_at(j),
            (exists|i: int| 0 < i < old(self).slots().len() && old(self).value_at(i) is None)
                ==> final(self).slots().len() == old(self).slots().len(),
    {
        if self.free_idx != 0 {
            let free = self.free_idx;
            proof {
                assert(self.chain().len() > 0);
                assert(self.chain()[0] == free);
                assert(self.slots()[free as int] matches Entry::Invalid(n) && n == (if 1 < self
                    .chain().len() {
                    self.chain()[1]
                } else {
                    0
                }));
            }
            let next = match &self.handles[free] {
                Entry::Invalid(n) => *n,
                Entry::Valid(_) => 0,
            };
            self.handles[free] = Entry::Valid(handle);
            self.free_idx = next;
            proof {
                let c = self.chain();
                self.free_chain@ = c.subrange(1, c.len() as int);
                assert forall|i: int|
                    0 <= i < self.chain().len() implies (#[trigger] self.slots()[self.chain()[i]])
                    matches Entry::Invalid(n) && n == (if i + 1 < self.chain().len() {
                    self.chain()[i + 1]
                } else {
                    0
                }) by {
                    assert(self.chain()[i] == c[i + 1]);
                    assert(c[i + 1] != c[0]);
                    assert(old(self).slots()[c[i + 1]] == self.slots()[c[i + 1]]);
                }
                assert forall|s: int|
                    1 <= s < self.slots().len() && (#[trigger] self.slots()[s]) is Invalid
                    implies self.chain().contains(s) by {
                    assert(s != free);
                    assert(old(self).slots()[s] == self.slots()[s]);
                    assert(old(self).chain().contains(s));
                    let m = choose|m: int| 0 <= m < c.len() && c[m] == s;
                    assert(c[0] == free);
                    assert(m != 0);
                    assert(self.chain()[m - 1] == s);
                }
            }
            free as u64
        } else {
            proof {
                assert(self.chain().len() == 0);
            }
            let idx = self.handles.len();
            self.handles.push(Entry::Valid(handle));
            proof {
                assert(self.slots()[0] == old(self).slots()[0]);
                assert(forall|i: int|
                    0 <= i < old(self).slots().len() ==> #[trigger] self.slots()[i] == old(
                        self,
                    ).slots()[i]);
                assert forall|s: int|
                    1 <= s < self.slots().len() && (#[trigger] self.slots()[s]) is Invalid
                    implies self.chain().contains(s) by {
                    if s < old(self).slots().len() {
                        assert(old(self).slots()[s] == self.slots()[s]);
                        assert(old(self).chain().contains(s));
                        assert(false);
                    } else {
                        assert(self.slots()[s] is Valid);
                    }
                }
                if exists|i: int|
                    0 < i < old(self).slots().len() && old(self).value_at(i) is None {
                    let i = choose|i: int|
                        0 < i < old(self).slots().len() && old(self).value_at(i) is None;
                    assert(old(self).slots()[i] is Invalid);
                    assert(old(self).chain().contains(i));
                    assert(false);
                }
            }
            idx as u64
        }
    }

    /// The live handle behind an index, if one is there.
    pub fn get(&self, fh: u64) -> (r: Option<&T>)
        ensures
            r matches Some(t) ==> self.value_at(fh as int) == Some(*t),
            r is None ==> self.value_at(fh as int) is None,
    {
        let n = self.handles.len();
        if fh > (usize::MAX as u64) {
            proof {
                assert(self.slots().len() == n);
            }
            return None;
        }
        let i = fh as usize;
        if i >= n {
            return None;
        }
        match &self.handles[i] {
            Entry::Valid(t) => Some(t),
            Entry::Invalid(_) => None,
        }
    }

    /// Frees the slot behind an index, linking it into the free chain.
    /// Fails on an index that names no live handle.
    pub fn drop_handle(&mut self, fh: u64) -> (r: Result<(), i32>)
        requires
            old(self).wf(),
        ensures
            final(self).wf(),
            r is Ok <==> old(self).value_at(fh as int) is Some,
            r matches Err(e) ==> e == EBADF,
            final(self).value_at(fh as int) is None,
            forall|j: int| j != fh ==> final(self).value_at(j) == old(self).value_at(j),
    {
        let n = self.handles.len();
        if fh > (usize::MAX as u64) {
            proof {
                assert(old(self).slots().len() == n);
            }
            return Err(EBADF);
        }
        let i = fh as usize;
        if i >= n {
            return Err(EBADF);
        }
        let live = matches!(&self.handles[i], Entry::Valid(_));
        if !live {
            return Err(EBADF);
        }
        proof {
            assert(i != 0);
            assert forall|m: int| 0 <= m < self.chain().len() implies self.chain()[m] != i by {
                assert(self.slots()[self.chain()[m]] is Invalid);
            }
        }
        self.handles[i] = Entry::Invalid(self.free_idx);
        self.free_idx = i;
        proof {
            let c = old(self).chain();
            self.free_chain@ = seq![i as int] + c;
            assert forall|m: int|
                0 <= m < self.chain().len() implies (#[trigger] self.slots()[self.chain()[m]])
                matches Entry::Invalid(n) && n == (if m + 1 < self.chain().len() {
                self.chain()[m + 1]
            } else {
                0
            }) by {
                if m == 0 {
                    assert(self.chain()[0] == i);
                    if c.len() > 0 {
                        assert(self.chain()[1] == c[0]);
                        assert(old(self).free_spec() == c[0]);
                    }
                } else {
                    assert(self.chain()[m] == c[m - 1]);
                    assert(c[m - 1] != i);
                    assert(self.slots()[c[m - 1]] == old(self).slots()[c[m - 1]]);
                    if m + 1 < self.chain().len() {
                        assert(self.chain()[m + 1] == c[m]);
                    }
                }
            }
            assert forall|a: int, b: int|
                0 <= a < b < self.chain().len() implies #[trigger] self.chain()[a]
                != #[trigger] self.chain()[b] by {
                if a == 0 {
                    assert(self.chain()[b] == c[b - 1]);
                } else {
                    assert(self.chain()[a] == c[a - 1]);
                    assert(self.chain()[b] == c[b - 1]);
                }
            }
            assert forall|s: int|
                1 <= s < self.slots().len() && (#[trigger] self.slots()[s]) is Invalid
                implies self.chain().contains(s) by {
                if s == i {
                    assert(self.chain()[0] == i as int);
                } else {
                    assert(old(self).slots()[s] == self.slots()[s]);
                    assert(old(self).chain().contains(s));
                    let m = choose|m: int| 0 <= m < c.len() && c[m] == s;
                    assert(self.chain()[m + 1] == s);
                }
            }
        }
        Ok(())
    }
}

} // verus!
