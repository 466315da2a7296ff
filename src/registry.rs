use std::collections::HashMap;
use vstd::prelude::*;

verus! {

broadcast use vstd::std_specs::hash::group_hash_axioms;

/// The identifier that the listening socket is registered under; no client
/// ever receives it.
pub const SERVER: usize = 0;

struct Entry<C> {
    id: usize,
    conn: C,
}

/// The live connections, keyed by identifiers that are never handed out twice.
///
/// Connections sit densely in a vector; a hash index maps each identifier to
/// its slot, so that registering, removing and looking up are each O(1).
/// Identifiers come from a counter that starts at 1 and only grows.
pub struct ConnectionRegistry<C> {
    entries: Vec<Entry<C>>,
    index: HashMap<usize, usize>,
    next: usize,
}

impl<C> View for ConnectionRegistry<C> {
    type V = Map<usize, C>;

    closed spec fn view(&self) -> Map<usize, C> {
        Map::new(
            |k: usize| self.index@.contains_key(k),
            |k: usize| self.entries@[self.index@[k] as int].conn,
        )
    }
}

impl<C> ConnectionRegistry<C> {
    /// The identifier that the next registration receives.
    pub closed spec fn next_id(&self) -> usize {
        self.next
    }

    pub closed spec fn wf(&self) -> bool {
        &&& 1 <= self.next
        &&& forall|k: usize| #[trigger]
            self.index@.contains_key(k) ==> {
                &&& self.index@[k] < self.entries@.len()
                &&& self.entries@[self.index@[k] as int].id == k
                &&& 1 <= k < self.next
            }
        &&& forall|i: int|
            0 <= i < self.entries@.len() ==> {
                &&& self.index@.contains_key(#[trigger] self.entries@[i].id)
                &&& self.index@[self.entries@[i].id] == i
            }
    }

    proof fn lemma_view_dom(&self)
        ensures
            self@.dom() == self.index@.dom(),
    {
        assert(self@.dom() =~= self.index@.dom());
    }

    /// The well-formedness facts that callers rely on: every live identifier
    /// lies between 1 and the counter, so the listener's identifier and the
    /// next one to be handed out are both free.
    pub proof fn lemma_ids_below_next(&self)
        requires
            self.wf(),
        ensures
            self@.dom().finite(),
            forall|k: usize| #[trigger] self@.contains_key(k) ==> 1 <= k < self.next_id(),
            !self@.contains_key(SERVER),
            !self@.contains_key(self.next_id()),
    {
        self.lemma_view_dom();
    }

    pub fn new() -> (r: ConnectionRegistry<C>)
        ensures
            r.wf(),
            r@ == Map::<usize, C>::empty(),
            r.next_id() == 1,
    {
        let r = ConnectionRegistry { entries: Vec::new(), index: HashMap::new(), next: 1 };
        assert(r@ =~= Map::<usize, C>::empty());
        r
    }

    pub fn len(&self) -> (r: usize)
        requires
            self.wf(),
        ensures
            r == self@.len(),
    {
        proof {
            self.lemma_view_dom();
        }
        self.index.len()
    }

    pub fn contains(&self, id: usize) -> (r: bool)
        requires
            self.wf(),
        ensures
            r == self@.contains_key(id),
    {
        self.index.contains_key(&id)
    }

    pub fn get(&self, id: usize) -> (r: Option<&C>)
        requires
            self.wf(),
        ensures
            match r {
                Some(c) => self@.contains_key(id) && *c == self@[id],
                None => !self@.contains_key(id),
            },
    {
        match self.index.get(&id) {
            Some(slot) => Some(&self.entries[*slot].conn),
            None => None,
        }
    }

    /// Inserts `conn` under a fresh identifier and returns that identifier.
    /// Once the identifier space is used up the connection is handed back.
    pub fn register(&mut self, conn: C) -> (r: Result<usize, C>)
        requires
            old(self).wf(),
        ensures
            final(self).wf(),
            old(self).next_id() < usize::MAX ==> {
                &&& r == Ok::<usize, C>(old(self).next_id())
                &&& !old(self)@.contains_key(old(self).next_id())
                &&& final(self)@ == old(self)@.insert(old(self).next_id(), conn)
                &&& final(self).next_id() == old(self).next_id() + 1
            },
            old(self).next_id() == usize::MAX ==> {
                &&& r == Err::<usize, C>(conn)
                &&& final(self)@ == old(self)@
                &&& final(self).next_id() == old(self).next_id()
            },
    {
        if self.next == usize::MAX {
            return Err(conn);
        }
        let id = self.next;
        let slot = self.entries.len();
        proof {
            assert(!self.index@.contains_key(id));
        }
        self.entries.push(Entry { id, conn });
        self.index.insert(id, slot);
        self.next = id + 1;
        proof {
            assert forall|k: usize| #[trigger] self.index@.contains_key(k) implies {
                &&& self.index@[k] < self.entries@.len()
                &&& self.entries@[self.index@[k] as int].id == k
                &&& 1 <= k < self.next
            } by {
                if k != id {
                    assert(old(self).index@.contains_key(k));
                }
            }
            assert forall|i: int| 0 <= i < self.entries@.len() implies {
                &&& self.index@.contains_key(#[trigger] self.entries@[i].id)
                &&& self.index@[self.entries@[i].id] == i
            } by {
                if i < slot {
                    assert(old(self).entries@[i] == self.entries@[i]);
                    assert(old(self).index@.contains_key(old(self).entries@[i].id));
                }
            }
            assert(self@ =~= old(self)@.insert(id, conn));
        }
        Ok(id)
    }

    /// Evicts the connection registered under `id` and hands it back.
    pub fn remove(&mut self, id: usize) -> (r: Option<C>)
        requires
            old(self).wf(),
        ensures
            final(self).wf(),
            final(self)@ == old(self)@.remove(id),
            final(self).next_id() == old(self).next_id(),
            match r {
                Some(c) => old(self)@.contains_key(id) && c == old(self)@[id],
                None => !old(self)@.contains_key(id),
            },
    {
        let slot = match self.index.remove(&id) {
            Some(slot) => slot,
            None => {
                proof {
                    assert(self@ =~= old(self)@.remove(id));
                }
                return None;
            },
        };
        let last = self.entries.len() - 1;
        let entry = self.entries.swap_remove(slot);
        if slot < last {
            let moved = self.entries[slot].id;
            proof {
                assert(old(self).entries@[last as int].id == moved);
                assert(old(self).index@[moved] == last);
                assert(moved != id);
            }
            self.index.insert(moved, slot);
        }
        proof {
            assert forall|k: usize| #[trigger] self.index@.contains_key(k) implies {
                &&& self.index@[k] < self.entries@.len()
                &&& self.entries@[self.index@[k] as int].id == k
                &&& 1 <= k < self.next
            } by {
                assert(old(self).index@.contains_key(k));
                assert(k != id);
                if old(self).index@[k] == last {
                    assert(old(self).entries@[last as int].id == k);
                }
            }
            assert forall|i: int| 0 <= i < self.entries@.len() implies {
                &&& self.index@.contains_key(#[trigger] self.entries@[i].id)
                &&& self.index@[self.entries@[i].id] == i
            } by {
                if i == slot {
                    assert(self.entries@[i] == old(self).entries@[last as int]);
                    assert(old(self).index@.contains_key(old(self).entries@[last as int].id));
                } else {
                    assert(self.entries@[i] == old(self).entries@[i]);
                    assert(old(self).index@.contains_key(old(self).entries@[i].id));
                    assert(old(self).entries@[i].id != id);
                }
            }
            assert(self@ =~= old(self)@.remove(id));
        }
        Some(entry.conn)
    }

    /// The identifiers of every live connection but `id`, each once.
    pub fn ids_except(&self, id: usize) -> (r: Vec<usize>)
        requires
            self.wf(),
        ensures
            r@.no_duplicates(),
            forall|k: usize| r@.contains(k) <==> (self@.contains_key(k) && k != id),
    {
        let mut out: Vec<usize> = Vec::new();
        let mut i: usize = 0;
        while i < self.entries.len()
            invariant
                self.wf(),
                0 <= i <= self.entries@.len(),
                out@.no_duplicates(),
                forall|k: usize|
                    out@.contains(k) <==> (k != id && exists|j: int|
                        0 <= j < i && #[trigger] self.entries@[j].id == k),
            decreases self.entries@.len() - i,
        {
            let e = &self.entries[i];
            if e.id != id {
                proof {
                    assert(!out@.contains(e.id)) by {
                        if out@.contains(e.id) {
                            let j = choose|j: int| 0 <= j < i && #[trigger] self.entries@[j].id == e.id;
                            assert(self.index@[self.entries@[j].id] == j);
                        }
                    }
                }
                let ghost prev = out@;
                out.push(e.id);
                proof {
                    assert forall|k: usize|
                        out@.contains(k) <==> (k != id && exists|j: int|
                            0 <= j < i + 1 && #[trigger] self.entries@[j].id == k) by {
                        if out@.contains(k) {
                            let n = choose|n: int| 0 <= n < out@.len() && out@[n] == k;
                            if n < prev.len() {
                                assert(prev[n] == k);
                                assert(prev.contains(k));
                            } else {
                                assert(self.entries@[i as int].id == k);
                            }
                        }
                        if k != id && exists|j: int|
                            0 <= j < i + 1 && #[trigger] self.entries@[j].id == k {
                            if k == e.id {
                                assert(out@[prev.len() as int] == k);
                            } else {
                                let j = choose|j: int| 0 <= j < i + 1 && #[trigger] self.entries@[j].id == k;
                                assert(j < i);
                                assert(prev.contains(k));
                                let n = choose|n: int| 0 <= n < prev.len() && prev[n] == k;
                                assert(out@[n] == k);
                            }
                        }
                    }
                }
            }
            i += 1;
        }
        proof {
            assert forall|k: usize| out@.contains(k) <==> (self@.contains_key(k) && k != id) by {
                if self@.contains_key(k) && k != id {
                    assert(self.entries@[self.index@[k] as int].id == k);
                }
            }
        }
        out
    }
}

} // verus!
