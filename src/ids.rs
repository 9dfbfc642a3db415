use vstd::prelude::*;

verus! {

/// Issues small integer identifiers and takes them back for reuse.
///
/// Identifiers below `next` that are not in the free pool are live. The most
/// recently released identifier is reissued first; when none is free, `next`
/// is issued and advanced.
pub struct IdAllocator {
    pub free: Vec<usize>,
    pub next: usize,
}

impl IdAllocator {
    /// The free pool holds distinct identifiers, each already issued once.
    pub open spec fn wf(&self) -> bool {
        &&& forall|i: int| 0 <= i < self.free@.len() ==> self.free@[i] < self.next
        &&& forall|i: int, j: int|
            0 <= i < j < self.free@.len() ==> self.free@[i] != self.free@[j]
    }

    /// `id` is issued and not released since.
    pub open spec fn is_live(&self, id: usize) -> bool {
        id < self.next && !self.free@.contains(id)
    }

    /// Another identifier can be issued.
    pub open spec fn can_issue(&self) -> bool {
        self.free@.len() > 0 || self.next < usize::MAX
    }

    /// The identifier that the next call of `issue` issues.
    pub open spec fn next_id(&self) -> usize {
        if self.free@.len() > 0 {
            self.free@.last()
        } else {
            self.next
        }
    }

    pub fn new() -> (r: IdAllocator)
        ensures
            r.wf(),
            r.free@.len() == 0,
            r.next == 0,
    {
        IdAllocator { free: Vec::new(), next: 0 }
    }

    /// Issues an identifier: the last one released, or else a fresh one.
    pub fn issue(&mut self) -> (id: usize)
        requires
            old(self).wf(),
            old(self).can_issue(),
        ensures
            final(self).wf(),
            id == old(self).next_id(),
            !old(self).is_live(id),
            final(self).is_live(id),
            forall|k: usize| #[trigger] final(self).is_live(k) <==> (old(self).is_live(k) || k == id),
            old(self).free@.len() > 0 ==> final(self).free@ == old(self).free@.drop_last()
                && final(self).next == old(self).next,
            old(self).free@.len() == 0 ==> final(self).free@.len() == 0 && final(self).next
                == old(self).next + 1,
    {
        match self.free.pop() {
            Some(id) => {
                proof {
                    let f = old(self).free@;
                    assert(f.drop_last() == self.free@);
                    assert(f[f.len() - 1] == id);
                    assert forall|k: usize| #[trigger] self.free@.contains(k) implies k != id by {
                        let j = choose|j: int| 0 <= j < self.free@.len() && self.free@[j] == k;
                        assert(f[j] == k);
                    }
                    assert forall|k: usize| f.contains(k) <==> (self.free@.contains(k) || k == id) by {
                        if f.contains(k) && k != id {
                            let j = choose|j: int| 0 <= j < f.len() && f[j] == k;
                            assert(self.free@[j] == k);
                        }
                        if k == id {
                            assert(f[f.len() - 1] == k);
                        }
                    }
                }
                id
            },
            None => {
                let id = self.next;
                self.next = self.next + 1;
                id
            },
        }
    }

    /// Takes back a live identifier for reuse.
    pub fn release(&mut self, id: usize)
        requires
            old(self).wf(),
            old(self).is_live(id),
        ensures
            final(self).wf(),
            final(self).free@ == old(self).free@.push(id),
            final(self).next == old(self).next,
            forall|k: usize| #[trigger] final(self).is_live(k) <==> (old(self).is_live(k) && k != id),
    {
        self.free.push(id);
        proof {
            let f = old(self).free@;
            assert forall|k: usize| #[trigger] self.free@.contains(k) <==> (f.contains(k) || k == id) by {
                if f.contains(k) {
                    let j = choose|j: int| 0 <= j < f.len() && f[j] == k;
                    assert(self.free@[j] == k);
                }
                if self.free@.contains(k) && k != id {
                    let j = choose|j: int| 0 <= j < self.free@.len() && self.free@[j] == k;
                    assert(j < f.len());
                    assert(f[j] == k);
                }
                if k == id {
                    assert(self.free@[f.len() as int] == k);
                }
            }
        }
    }
}

} // verus!
