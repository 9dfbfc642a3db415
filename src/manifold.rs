use vstd::prelude::*;
use crate::geometry::Vec3;
use crate::ids::IdAllocator;

verus! {

/// A sub-part of a shape's boundary that a contact comes from.
#[derive(Clone, Copy, Debug, PartialEq, Eq, Structural)]
pub enum FeatureId {
    Vertex(u32),
    Edge(u32),
    Face(u32),
    Unknown,
}

/// The geometry of one contact between shape `a` and shape `b`.
///
/// Points are in world coordinates; `normal` is a unit normal pointing from `a`
/// toward `b`; `depth` is the penetration depth, negative while the shapes are
/// apart.
#[derive(Clone, Copy, Debug, PartialEq, Eq, Structural)]
pub struct Contact {
    pub point_a: Vec3,
    pub point_b: Vec3,
    pub normal: Vec3,
    pub depth: i64,
    pub feature_a: FeatureId,
    pub feature_b: FeatureId,
}

/// A contact together with the identifier it keeps while it stays live.
#[derive(Clone, Copy, Debug, PartialEq, Eq, Structural)]
pub struct TrackedContact {
    pub id: usize,
    pub contact: Contact,
}

/// The current contacts between one pair of shapes, in insertion order.
pub struct ContactManifold {
    pub contacts: Vec<TrackedContact>,
}

pub open spec fn same_features(t: TrackedContact, c: Contact) -> bool {
    t.contact.feature_a == c.feature_a && t.contact.feature_b == c.feature_b
}

/// No two contacts share an identifier or a pair of features.
pub open spec fn distinct_contacts(s: Seq<TrackedContact>) -> bool {
    forall|i: int, j: int|
        #![trigger s[i], s[j]]
        0 <= i < j < s.len() ==> s[i].id != s[j].id && !same_features(s[i], s[j].contact)
}

/// Every identifier of `s` is live in `ids`.
pub open spec fn ids_live(s: Seq<TrackedContact>, ids: IdAllocator) -> bool {
    forall|i: int| 0 <= i < s.len() ==> ids.is_live(#[trigger] s[i].id)
}

/// `after` holds the single contact `c`, under the identifier that `before`
/// gave a contact with the same features, if it had one.
pub open spec fn holds_single(
    before: Seq<TrackedContact>,
    after: Seq<TrackedContact>,
    c: Contact,
) -> bool {
    &&& after.len() == 1
    &&& after[0].contact == c
    &&& forall|i: int|
        0 <= i < before.len() && same_features(#[trigger] before[i], c) ==> after[0].id
            == before[i].id
}

/// The identifiers live in `ids1` are those live in `ids0` that `before` did
/// not hold, and those that `after` holds.
pub open spec fn released(
    ids0: IdAllocator,
    before: Seq<TrackedContact>,
    after: Seq<TrackedContact>,
    ids1: IdAllocator,
) -> bool {
    forall|k: usize|
        #[trigger] ids1.is_live(k) <==> ((ids0.is_live(k) && forall|m: int|
            0 <= m < before.len() ==> before[m].id != k) || exists|j: int|
            0 <= j < after.len() && after[j].id == k)
}

/// Where `before` had no contact with the features of `c`, the single contact
/// of `after` has the identifier that `ids0` issues next.
pub open spec fn new_id_issued(
    before: Seq<TrackedContact>,
    after: Seq<TrackedContact>,
    c: Contact,
    ids0: IdAllocator,
) -> bool {
    (forall|i: int| 0 <= i < before.len() ==> !same_features(#[trigger] before[i], c))
        ==> after[0].id == ids0.next_id()
}

impl ContactManifold {
    pub open spec fn view(&self) -> Seq<TrackedContact> {
        self.contacts@
    }

    /// The manifold's identifiers are distinct, live in `ids`, and `ids` is
    /// well formed.
    pub open spec fn wf_with(&self, ids: IdAllocator) -> bool {
        &&& ids.wf()
        &&& distinct_contacts(self@)
        &&& ids_live(self@, ids)
    }

    pub fn new() -> (r: ContactManifold)
        ensures
            r@.len() == 0,
    {
        ContactManifold { contacts: Vec::new() }
    }

    pub fn len(&self) -> (r: usize)
        ensures
            r == self@.len(),
    {
        self.contacts.len()
    }

    /// The index of the contact with features `(fa, fb)`, if there is one.
    pub fn find_features(&self, fa: FeatureId, fb: FeatureId) -> (r: Option<usize>)
        ensures
            r matches Some(i) ==> i < self@.len() && self@[i as int].contact.feature_a == fa
                && self@[i as int].contact.feature_b == fb,
            r is None ==> forall|i: int|
                0 <= i < self@.len() ==> !(self@[i].contact.feature_a == fa
                    && self@[i].contact.feature_b == fb),
    {
        let mut i: usize = 0;
        while i < self.contacts.len()
            invariant
                i <= self@.len(),
                forall|k: int|
                    0 <= k < i ==> !(self@[k].contact.feature_a == fa && self@[k].contact.feature_b
                        == fb),
            decreases self@.len() - i,
        {
            let t = self.contacts[i];
            if t.contact.feature_a == fa && t.contact.feature_b == fb {
                return Some(i);
            }
            i = i + 1;
        }
        None
    }

    /// Refreshes the contact with the same features as `c`, keeping its
    /// identifier, or else adds `c` under a newly issued identifier. Returns
    /// the contact's identifier.
    pub fn update_contact(&mut self, ids: &mut IdAllocator, c: Contact) -> (id: usize)
        requires
            old(self).wf_with(*old(ids)),
            old(ids).can_issue(),
        ensures
            final(self).wf_with(*final(ids)),
            match old(self).find_spec(c) {
                Some(i) => {
                    &&& id == old(self)@[i].id
                    &&& final(self)@ == old(self)@.update(i, TrackedContact { id, contact: c })
                    &&& *final(ids) == *old(ids)
                },
                None => {
                    &&& id == old(ids).next_id()
                    &&& final(self)@ == old(self)@.push(TrackedContact { id, contact: c })
                },
            },
    {
        match self.find_features(c.feature_a, c.feature_b) {
            Some(i) => {
                let id = self.contacts[i].id;
                self.contacts.set(i, TrackedContact { id, contact: c });
                proof {
                    let s0 = old(self)@;
                    assert(same_features(s0[i as int], c));
                    let j = old(self).find_spec(c).unwrap();
                    assert(same_features(s0[j], c));
                    if j < i {
                        assert(!same_features(s0[j], s0[i as int].contact));
                    } else if i < j {
                        assert(!same_features(s0[i as int], s0[j].contact));
                    }
                    assert forall|a: int, b: int| 0 <= a < b < self@.len() implies self@[a].id
                        != self@[b].id && !same_features(self@[a], self@[b].contact) by {
                        assert(s0[a].id != s0[b].id && !same_features(s0[a], s0[b].contact));
                    }
                    assert forall|a: int| 0 <= a < self@.len() implies ids.is_live(
                        #[trigger] self@[a].id,
                    ) by {
                        assert(ids.is_live(s0[a].id));
                    }
                }
                id
            },
            None => {
                let id = ids.issue();
                self.contacts.push(TrackedContact { id, contact: c });
                proof {
                    let s0 = old(self)@;
                    assert(old(self).find_spec(c) is None) by {
                        if exists|k: int| 0 <= k < s0.len() && same_features(#[trigger] s0[k], c) {
                            let k = choose|k: int| 0 <= k < s0.len() && same_features(#[trigger] s0[k], c);
                            assert(s0[k].contact.feature_a == c.feature_a);
                        }
                    }
                    assert forall|a: int, b: int| 0 <= a < b < self@.len() implies self@[a].id
                        != self@[b].id && !same_features(self@[a], self@[b].contact) by {
                        if b < s0.len() {
                            assert(s0[a].id != s0[b].id && !same_features(s0[a], s0[b].contact));
                        } else {
                            assert(old(ids).is_live(s0[a].id));
                            assert(s0[a].contact.feature_a == c.feature_a ==> s0[a].contact.feature_b != c.feature_b);
                        }
                    }
                    assert forall|i: int| 0 <= i < self@.len() implies ids.is_live(
                        #[trigger] self@[i].id,
                    ) by {
                        if i < old(self)@.len() {
                            assert(old(ids).is_live(old(self)@[i].id));
                        }
                    }
                }
                id
            },
        }
    }

    /// The index of the contact with the same features as `c`.
    pub open spec fn find_spec(&self, c: Contact) -> Option<int> {
        if exists|i: int| 0 <= i < self@.len() && same_features(#[trigger] self@[i], c) {
            Some(choose|i: int| 0 <= i < self@.len() && same_features(#[trigger] self@[i], c))
        } else {
            None
        }
    }

    /// Releases the identifiers of `self@[from..]`, all but the one at `keep`.
    fn release_from(&self, ids: &mut IdAllocator, from: usize, keep: Option<usize>)
        requires
            old(ids).wf(),
            distinct_contacts(self@),
            from <= self@.len(),
            forall|k: int| from <= k < self@.len() ==> old(ids).is_live(#[trigger] self@[k].id),
        ensures
            final(ids).wf(),
            final(ids).next == old(ids).next,
            final(ids).free@.len() >= old(ids).free@.len() + (if keep is None { self@.len() - from } else { 0 }),
            forall|k: usize|
                #[trigger] final(ids).is_live(k) <==> (old(ids).is_live(k) && forall|m: int|
                    from <= m < self@.len() && Some(m as usize) != keep ==> self@[m].id != k),
    {
        let mut j: usize = from;
        while j < self.contacts.len()
            invariant
                from <= j <= self@.len(),
                ids.wf(),
                distinct_contacts(self@),
                ids.next == old(ids).next,
                ids.free@.len() >= old(ids).free@.len() + (if keep is None { j - from } else { 0 }),
                forall|k: int| j <= k < self@.len() ==> ids.is_live(#[trigger] self@[k].id),
                forall|k: usize|
                    #[trigger] ids.is_live(k) <==> (old(ids).is_live(k) && forall|m: int|
                        from <= m < j && Some(m as usize) != keep ==> self@[m].id != k),
            decreases self@.len() - j,
        {
            let t = self.contacts[j];
            let skip = match keep {
                Some(i) => i == j,
                None => false,
            };
            if !skip {
                let ghost before = *ids;
                ids.release(t.id);
                assert forall|k: int| j + 1 <= k < self@.len() implies ids.is_live(
                    #[trigger] self@[k].id,
                ) by {
                    assert(self@[j as int].id != self@[k].id);
                    assert(before.is_live(self@[k].id));
                }
            }
            assert forall|k: usize|
                #[trigger] ids.is_live(k) <==> (old(ids).is_live(k) && forall|m: int|
                    from <= m < j + 1 && Some(m as usize) != keep ==> self@[m].id != k) by {
                if old(ids).is_live(k) && (forall|m: int|
                    from <= m < j && Some(m as usize) != keep ==> self@[m].id != k) && !skip && k != t.id {
                    assert forall|m: int|
                        from <= m < j + 1 && Some(m as usize) != keep implies self@[m].id != k by {
                        if m == j {
                            assert(self@[m].id == t.id);
                        }
                    }
                }
            }
            j = j + 1;
        }
    }

    /// Removes every contact and releases its identifier.
    pub fn clear(&mut self, ids: &mut IdAllocator)
        requires
            old(self).wf_with(*old(ids)),
        ensures
            final(self)@.len() == 0,
            final(self).wf_with(*final(ids)),
            final(ids).next == old(ids).next,
            final(ids).free@.len() >= old(ids).free@.len() + old(self)@.len(),
            forall|k: usize|
                #[trigger] final(ids).is_live(k) <==> (old(ids).is_live(k) && forall|m: int|
                    0 <= m < old(self)@.len() ==> old(self)@[m].id != k),
    {
        self.release_from(ids, 0, None);
        self.contacts = Vec::new();
    }

    /// Leaves `c` as the only contact. It keeps the identifier of the contact
    /// with the same features, if there was one; the other identifiers are
    /// released.
    pub fn keep_single(&mut self, ids: &mut IdAllocator, c: Contact) -> (id: usize)
        requires
            old(self).wf_with(*old(ids)),
            old(ids).can_issue(),
        ensures
            final(self).wf_with(*final(ids)),
            holds_single(old(self)@, final(self)@, c),
            final(self)@[0].id == id,
            new_id_issued(old(self)@, final(self)@, c, *old(ids)),
            released(*old(ids), old(self)@, final(self)@, *final(ids)),
    {
        match self.find_features(c.feature_a, c.feature_b) {
            Some(i) => {
                let id = self.contacts[i].id;
                self.release_from(ids, 0, Some(i));
                assert(ids.is_live(id)) by {
                    assert(old(ids).is_live(self@[i as int].id));
                    assert forall|m: int|
                        0 <= m < self@.len() && Some(m as usize) != Some(i) implies self@[m].id != id by {
                        if m < i {
                            assert(self@[m].id != self@[i as int].id);
                        } else {
                            assert(self@[i as int].id != self@[m].id);
                        }
                    }
                }
                proof {
                    let s0 = self@;
                    assert forall|k: int|
                        0 <= k < s0.len() && same_features(#[trigger] s0[k], c) implies s0[k].id == id by {
                        if k < i {
                            assert(!same_features(s0[k], s0[i as int].contact));
                        } else if i < k {
                            assert(!same_features(s0[i as int], s0[k].contact));
                        }
                    }
                }
                self.contacts = vec![TrackedContact { id, contact: c }];
                proof {
                    let s0 = old(self)@;
                    assert(same_features(s0[i as int], c));
                    assert forall|k: usize|
                        #[trigger] ids.is_live(k) <==> ((old(ids).is_live(k) && forall|m: int|
                            0 <= m < s0.len() ==> s0[m].id != k) || exists|j: int|
                            0 <= j < self@.len() && self@[j].id == k) by {
                        if k == id {
                            assert(self@[0].id == k);
                        }
                        if exists|j: int| 0 <= j < self@.len() && self@[j].id == k {
                            assert(k == id);
                        }
                        if k != id && ids.is_live(k) {
                            assert forall|m: int| 0 <= m < s0.len() implies s0[m].id != k by {
                                if m == i {
                                    assert(s0[m].id == id);
                                } else {
                                    assert(Some(m as usize) != Some(i));
                                }
                            }
                        }
                    }
                }
                id
            },
            None => {
                let ghost ids0 = *ids;
                let id = ids.issue();
                proof {
                    assert forall|k: int| 0 <= k < self@.len() implies ids.is_live(
                        #[trigger] self@[k].id,
                    ) by {
                        assert(ids0.is_live(self@[k].id));
                    }
                }
                let ghost ids1 = *ids;
                self.release_from(ids, 0, None);
                self.contacts = vec![TrackedContact { id, contact: c }];
                proof {
                    let s0 = old(self)@;
                    assert forall|k: int|
                        0 <= k < s0.len() implies !same_features(#[trigger] s0[k], c) by {
                        assert(!(s0[k].contact.feature_a == c.feature_a
                            && s0[k].contact.feature_b == c.feature_b));
                    }
                    assert forall|m: int| 0 <= m < s0.len() implies s0[m].id != id by {
                        assert(ids0.is_live(s0[m].id));
                    }
                    assert forall|k: usize|
                        #[trigger] ids.is_live(k) <==> ((ids0.is_live(k) && forall|m: int|
                            0 <= m < s0.len() ==> s0[m].id != k) || exists|j: int|
                            0 <= j < self@.len() && self@[j].id == k) by {
                        assert(ids1.is_live(k) <==> (ids0.is_live(k) || k == id));
                        if k == id {
                            assert(self@[0].id == k);
                        }
                        if exists|j: int| 0 <= j < self@.len() && self@[j].id == k {
                            assert(k == id);
                        }
                    }
                }
                id
            },
        }
    }

    /// Removes the contact with identifier `id`, if there is one, and releases
    /// the identifier. Returns whether a contact was removed.
    pub fn remove_contact(&mut self, ids: &mut IdAllocator, id: usize) -> (removed: bool)
        requires
            old(self).wf_with(*old(ids)),
        ensures
            final(self).wf_with(*final(ids)),
            removed == exists|i: int| 0 <= i < old(self)@.len() && old(self)@[i].id == id,
            removed ==> exists|i: int|
                0 <= i < old(self)@.len() && old(self)@[i].id == id && final(self)@
                    == old(self)@.remove(i) && final(ids).free@ == old(ids).free@.push(id)
                    && final(ids).next == old(ids).next,
            !removed ==> final(self)@ == old(self)@ && *final(ids) == *old(ids),
    {
        let mut i: usize = 0;
        while i < self.contacts.len()
            invariant
                i <= self@.len(),
                self@ == old(self)@,
                *ids == *old(ids),
                self.wf_with(*ids),
                forall|k: int| 0 <= k < i ==> self@[k].id != id,
            decreases self@.len() - i,
        {
            if self.contacts[i].id == id {
                assert(ids.is_live(self@[i as int].id));
                ids.release(id);
                self.contacts.remove(i);
                proof {
                    let s0 = old(self)@;
                    assert forall|a: int, b: int| 0 <= a < b < self@.len() implies self@[a].id
                        != self@[b].id && !same_features(self@[a], self@[b].contact) by {
                        let a0 = if a < i { a } else { a + 1 };
                        let b0 = if b < i { b } else { b + 1 };
                        assert(s0[a0].id != s0[b0].id && !same_features(s0[a0], s0[b0].contact));
                    }
                    assert forall|a: int| 0 <= a < self@.len() implies ids.is_live(
                        #[trigger] self@[a].id,
                    ) by {
                        let a0 = if a < i { a } else { a + 1 };
                        assert(old(ids).is_live(s0[a0].id));
                        assert(s0[a0].id != s0[i as int].id);
                    }
                }
                return true;
            }
            i = i + 1;
        }
        false
    }
}

} // verus!
