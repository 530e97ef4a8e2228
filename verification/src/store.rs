use vstd::prelude::*;

use crate::identity::type_id_eq;
use crate::mock::MockContainer;
use crate::mock::Slot;
use std::any::TypeId;

verus! {

/// The registry contents as a mathematical map from identity to slot.
/// In a well-formed store each identity occupies at most one entry, so
/// the order of the underlying sequence is irrelevant.
pub open spec fn entries_map<M>(s: Seq<MockContainer<M>>) -> Map<TypeId, Slot<M>>
    decreases s.len(),
{
    if s.len() == 0 {
        Map::empty()
    } else {
        entries_map(s.drop_last()).insert(s.last().id, s.last().slot)
    }
}

/// Each identity occupies at most one entry of the sequence.
pub open spec fn unique_ids<M>(s: Seq<MockContainer<M>>) -> bool {
    forall|i: int, j: int| 0 <= i < j < s.len() ==> s[i].id != s[j].id
}

proof fn lemma_entries_map_contains<M>(s: Seq<MockContainer<M>>, id: TypeId)
    ensures
        entries_map(s).contains_key(id) <==> exists|i: int| 0 <= i < s.len() && s[i].id == id,
    decreases s.len(),
{
    if s.len() > 0 {
        lemma_entries_map_contains(s.drop_last(), id);
        if s.last().id == id {
            assert(s[s.len() - 1].id == id);
        } else {
            if exists|i: int| 0 <= i < s.len() && s[i].id == id {
                let i = choose|i: int| 0 <= i < s.len() && s[i].id == id;
                assert(s.drop_last()[i] == s[i]);
            }
            if entries_map(s.drop_last()).contains_key(id) {
                let i = choose|i: int| 0 <= i < s.drop_last().len() && s.drop_last()[i].id == id;
                assert(s[i] == s.drop_last()[i]);
            }
        }
    }
}

proof fn lemma_entries_map_index<M>(s: Seq<MockContainer<M>>, i: int)
    requires
        unique_ids(s),
        0 <= i < s.len(),
    ensures
        entries_map(s).contains_key(s[i].id),
        entries_map(s)[s[i].id] == s[i].slot,
    decreases s.len(),
{
    if i < s.len() - 1 {
        assert(unique_ids(s.drop_last())) by {
            assert forall|p: int, q: int|
                0 <= p < q < s.drop_last().len() implies s.drop_last()[p].id
                != s.drop_last()[q].id by {
                assert(s.drop_last()[p] == s[p]);
                assert(s.drop_last()[q] == s[q]);
            }
        }
        assert(s.drop_last()[i] == s[i]);
        lemma_entries_map_index(s.drop_last(), i);
        assert(s[i].id != s.last().id);
    }
}

proof fn lemma_entries_map_push<M>(s: Seq<MockContainer<M>>, e: MockContainer<M>)
    ensures
        entries_map(s.push(e)) == entries_map(s).insert(e.id, e.slot),
{
    assert(s.push(e).drop_last() =~= s);
    assert(s.push(e).last() == e);
}

proof fn lemma_entries_map_remove<M>(s: Seq<MockContainer<M>>, i: int)
    requires
        unique_ids(s),
        0 <= i < s.len(),
    ensures
        entries_map(s.remove(i)) == entries_map(s).remove(s[i].id),
    decreases s.len(),
{
    s.remove_ensures(i);
    if i == s.len() - 1 {
        assert(s.remove(i) =~= s.drop_last());
        lemma_entries_map_contains(s.drop_last(), s[i].id);
        assert forall|k: int| 0 <= k < s.drop_last().len() implies s.drop_last()[k].id
            != s[i].id by {
            assert(s.drop_last()[k] == s[k]);
        }
        assert(!entries_map(s.drop_last()).contains_key(s[i].id));
        assert(entries_map(s).remove(s[i].id) =~= entries_map(s.drop_last()));
    } else {
        assert(unique_ids(s.drop_last())) by {
            assert forall|p: int, q: int|
                0 <= p < q < s.drop_last().len() implies s.drop_last()[p].id
                != s.drop_last()[q].id by {
                assert(s.drop_last()[p] == s[p]);
                assert(s.drop_last()[q] == s[q]);
            }
        }
        lemma_entries_map_remove(s.drop_last(), i);
        assert(s.remove(i).last() == s.last());
        assert(s.remove(i).drop_last() =~= s.drop_last().remove(i)) by {
            s.drop_last().remove_ensures(i);
        }
        assert(s[i].id != s.last().id);
        assert(s.drop_last()[i] == s[i]);
        assert(entries_map(s.drop_last()).remove(s[i].id).insert(s.last().id, s.last().slot)
            =~= entries_map(s.drop_last()).insert(s.last().id, s.last().slot).remove(s[i].id));
        assert(entries_map(s.remove(i)) == entries_map(s.remove(i).drop_last()).insert(
            s.remove(i).last().id,
            s.remove(i).last().slot,
        ));
    }
}

/// One execution context's mock registry: every entry it holds was
/// installed within this context, and dropping the store is the
/// context's teardown — nothing it held can be observed afterwards.
///
/// Storage is statically typed per behavior type `M`, so no downcast is
/// ever needed to read an entry back: the type discipline that erased
/// storage would have to re-check at runtime is enforced by the type
/// system here.
pub struct MockStore<M> {
    entries: Vec<MockContainer<M>>,
}

impl<M> View for MockStore<M> {
    type V = Map<TypeId, Slot<M>>;

    closed spec fn view(&self) -> Map<TypeId, Slot<M>> {
        entries_map(self.entries@)
    }
}

impl<M> MockStore<M> {
    /// Well-formed: each identity occupies at most one entry.
    pub closed spec fn wf(&self) -> bool {
        unique_ids(self.entries@)
    }

    /// A fresh execution context with nothing installed.
    pub fn new() -> (r: Self)
        ensures
            r.wf(),
            r@ == Map::<TypeId, Slot<M>>::empty(),
    {
        let r = MockStore { entries: Vec::new() };
        proof {
            assert(r@ =~= Map::<TypeId, Slot<M>>::empty());
        }
        r
    }

    /// The position of the entry for `id`, if one exists.
    fn find(&self, id: &TypeId) -> (r: Option<usize>)
        ensures
            match r {
                Some(i) => i < self.entries@.len() && self.entries@[i as int].id == *id,
                None => forall|k: int| 0 <= k < self.entries@.len() ==> self.entries@[k].id != *id,
            },
    {
        let mut j: usize = 0;
        while j < self.entries.len()
            invariant
                j <= self.entries@.len(),
                forall|k: int| 0 <= k < j ==> self.entries@[k].id != *id,
            decreases self.entries@.len() - j,
        {
            if type_id_eq(&self.entries[j].id, id) {
                return Some(j);
            }
            j += 1;
        }
        None
    }

    /// Installs `mock` for `target`, unconditionally replacing whatever
    /// entry the identity held before — last write wins, no stacking.
    pub fn install(&mut self, target: TypeId, mock: M)
        requires
            old(self).wf(),
        ensures
            final(self).wf(),
            final(self)@ == old(self)@.insert(target, Slot::Installed(mock)),
    {
        let ghost pushed = MockContainer { id: target, slot: Slot::Installed(mock) };
        let found = self.find(&target);
        match found {
            Some(i) => {
                let _previous = self.entries.remove(i);
                proof {
                    lemma_entries_map_remove(old(self).entries@, i as int);
                    assert forall|k: int|
                        0 <= k < self.entries@.len() implies self.entries@[k].id != target by {
                        old(self).entries@.remove_ensures(i as int);
                    }
                    assert forall|p: int, q: int|
                        0 <= p < q < self.entries@.len() implies self.entries@[p].id
                        != self.entries@[q].id by {
                        old(self).entries@.remove_ensures(i as int);
                    }
                }
                let ghost mid = self.entries@;
                self.entries.push(MockContainer { id: target, slot: Slot::Installed(mock) });
                proof {
                    assert(self.entries@ == mid.push(pushed));
                    lemma_entries_map_push(mid, pushed);
                    assert(self@ =~= old(self)@.insert(target, pushed.slot));
                }
            },
            None => {
                let ghost mid = self.entries@;
                self.entries.push(MockContainer { id: target, slot: Slot::Installed(mock) });
                proof {
                    assert(self.entries@ == mid.push(pushed));
                    lemma_entries_map_push(mid, pushed);
                }
            },
        }
    }

    /// Takes the behavior installed for `target` out of the store for an
    /// exclusive invocation, leaving the entry marked in use.
    ///
    /// Returns nothing when the identity has no entry — and, crucially,
    /// when its entry is already in use: a lookup that races with an
    /// unfinished invocation of the same identity fails open instead of
    /// handing the behavior out twice. The caller gives the behavior
    /// back with [`MockStore::restore`].
    pub fn lookup_and_borrow(&mut self, target: TypeId) -> (r: Option<M>)
        requires
            old(self).wf(),
        ensures
            final(self).wf(),
            match r {
                Some(m) => old(self)@.contains_key(target) && old(self)@[target]
                    == Slot::Installed(m) && final(self)@ == old(self)@.insert(
                    target,
                    Slot::<M>::InUse,
                ),
                None => final(self)@ == old(self)@ && !(old(self)@.contains_key(target) && old(
                    self,
                )@[target] is Installed),
            },
    {
        let found = self.find(&target);
        match found {
            None => {
                proof {
                    lemma_entries_map_contains(self.entries@, target);
                }
                None
            },
            Some(i) => {
                proof {
                    lemma_entries_map_index(self.entries@, i as int);
                }
                let entry = self.entries.remove(i);
                proof {
                    lemma_entries_map_remove(old(self).entries@, i as int);
                    assert forall|k: int|
                        0 <= k < self.entries@.len() implies self.entries@[k].id != target by {
                        old(self).entries@.remove_ensures(i as int);
                    }
                    assert forall|p: int, q: int|
                        0 <= p < q < self.entries@.len() implies self.entries@[p].id
                        != self.entries@[q].id by {
                        old(self).entries@.remove_ensures(i as int);
                    }
                }
                let ghost mid = self.entries@;
                let ghost marker = MockContainer { id: target, slot: Slot::<M>::InUse };
                let MockContainer { id: _taken_id, slot } = entry;
                match slot {
                    Slot::Installed(m) => {
                        self.entries.push(MockContainer { id: target, slot: Slot::InUse });
                        proof {
                            assert(self.entries@ == mid.push(marker));
                            lemma_entries_map_push(mid, marker);
                            assert(self@ =~= old(self)@.insert(target, Slot::<M>::InUse));
                        }
                        Some(m)
                    },
                    Slot::InUse => {
                        self.entries.push(MockContainer { id: target, slot: Slot::InUse });
                        proof {
                            assert(self.entries@ == mid.push(marker));
                            lemma_entries_map_push(mid, marker);
                            assert(self@ =~= old(self)@);
                        }
                        None
                    },
                }
            },
        }
    }

    /// Gives a borrowed behavior back after its invocation, unlocking
    /// the entry.
    ///
    /// The behavior is only re-seated while the entry is still marked in
    /// use. If the invocation meanwhile installed a fresh behavior for
    /// the same identity, that newer installation wins and the returned
    /// behavior is dropped; an identity with no entry is likewise left
    /// alone.
    pub fn restore(&mut self, target: TypeId, mock: M)
        requires
            old(self).wf(),
        ensures
            final(self).wf(),
            final(self)@ == if old(self)@.contains_key(target) && old(self)@[target] is InUse {
                old(self)@.insert(target, Slot::Installed(mock))
            } else {
                old(self)@
            },
    {
        let found = self.find(&target);
        match found {
            None => {
                proof {
                    lemma_entries_map_contains(self.entries@, target);
                }
            },
            Some(i) => {
                proof {
                    lemma_entries_map_index(self.entries@, i as int);
                }
                let ghost reinstalled = MockContainer { id: target, slot: Slot::Installed(mock) };
                let entry = self.entries.remove(i);
                proof {
                    lemma_entries_map_remove(old(self).entries@, i as int);
                    assert forall|k: int|
                        0 <= k < self.entries@.len() implies self.entries@[k].id != target by {
                        old(self).entries@.remove_ensures(i as int);
                    }
                    assert forall|p: int, q: int|
                        0 <= p < q < self.entries@.len() implies self.entries@[p].id
                        != self.entries@[q].id by {
                        old(self).entries@.remove_ensures(i as int);
                    }
                }
                let ghost mid = self.entries@;
                let MockContainer { id: _taken_id, slot } = entry;
                match slot {
                    Slot::InUse => {
                        self.entries.push(MockContainer { id: target, slot: Slot::Installed(mock) });
                        proof {
                            assert(self.entries@ == mid.push(reinstalled));
                            lemma_entries_map_push(mid, reinstalled);
                            assert(self@ =~= old(self)@.insert(target, reinstalled.slot));
                        }
                    },
                    Slot::Installed(current) => {
                        let ghost kept = MockContainer { id: target, slot: Slot::Installed(current) };
                        self.entries.push(MockContainer { id: target, slot: Slot::Installed(current) });
                        proof {
                            assert(self.entries@ == mid.push(kept));
                            lemma_entries_map_push(mid, kept);
                            assert(self@ =~= old(self)@);
                        }
                    },
                }
            },
        }
    }

    /// Whether the entry for `target` is currently held for an
    /// invocation that has not finished.
    pub fn is_locked(&self, target: TypeId) -> (r: bool)
        requires
            self.wf(),
        ensures
            r == (self@.contains_key(target) && self@[target] is InUse),
    {
        let found = self.find(&target);
        match found {
            None => {
                proof {
                    lemma_entries_map_contains(self.entries@, target);
                }
                false
            },
            Some(i) => {
                proof {
                    lemma_entries_map_index(self.entries@, i as int);
                }
                match &self.entries[i].slot {
                    Slot::InUse => true,
                    Slot::Installed(_) => false,
                }
            },
        }
    }
}

} // verus!
