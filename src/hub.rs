//! The session registry: which clients are connected, under which ids, and
//! who receives a broadcast.

use vstd::prelude::*;
use crate::text::{push_char, random_id};

verus! {

/// The length of the longest text in `s`.
pub open spec fn longest(s: Seq<Seq<char>>) -> nat
    decreases s.len(),
{
    if s.len() == 0 {
        0
    } else {
        let rest = longest(s.drop_last());
        if s.last().len() > rest {
            s.last().len()
        } else {
            rest
        }
    }
}

proof fn lemma_longest(s: Seq<Seq<char>>, i: int)
    requires
        0 <= i < s.len(),
    ensures
        s[i].len() <= longest(s),
    decreases s.len(),
{
    if i < s.len() - 1 {
        lemma_longest(s.drop_last(), i);
    }
}

/// The session at `i` is the one that `exclude` names.
pub open spec fn excluded(ids: Seq<Seq<char>>, exclude: Option<String>, i: usize) -> bool {
    exclude matches Some(s) && ids[i as int] == s@
}

/// The connected sessions, each an id with the handle that reaches its
/// client. Ids are unique for as long as the registry lives.
pub struct ChatServer<H> {
    session_ids: Vec<String>,
    session_addrs: Vec<H>,
}

impl<H> ChatServer<H> {
    /// The ids of the registered sessions, in registry order.
    pub closed spec fn ids(&self) -> Seq<Seq<char>> {
        self.session_ids@.map_values(|s: String| s@)
    }

    /// The handles of the registered sessions, in the same order as `ids`.
    pub closed spec fn handles(&self) -> Seq<H> {
        self.session_addrs@
    }

    /// Ids and handles pair up, and no id is registered twice.
    pub closed spec fn wf(&self) -> bool {
        &&& self.session_ids@.len() == self.session_addrs@.len()
        &&& self.session_ids@.len() <= usize::MAX
        &&& self.ids().no_duplicates()
    }

    pub open spec fn registered(&self, id: Seq<char>) -> bool {
        self.ids().contains(id)
    }

    /// The ids of the sessions at positions `r`.
    pub open spec fn reached(&self, r: Seq<usize>) -> Seq<Seq<char>> {
        r.map_values(|i: usize| self.ids()[i as int])
    }

    /// An empty registry.
    pub fn new() -> (r: Self)
        ensures
            r.wf(),
            r.ids() == Seq::<Seq<char>>::empty(),
            r.handles() == Seq::<H>::empty(),
    {
        let r = ChatServer { session_ids: Vec::new(), session_addrs: Vec::new() };
        assert(r.ids() =~= Seq::<Seq<char>>::empty());
        r
    }

    /// The number of registered sessions.
    pub fn len(&self) -> (r: usize)
        requires
            self.wf(),
        ensures
            r == self.ids().len(),
            r == self.handles().len(),
    {
        self.session_ids.len()
    }

    /// Where `id` stands in the registry, if it is registered.
    pub fn position(&self, id: &String) -> (r: Option<usize>)
        requires
            self.wf(),
        ensures
            match r {
                Some(i) => i < self.ids().len() && self.ids()[i as int] == id@,
                None => !self.registered(id@),
            },
    {
        let mut i: usize = 0;
        while i < self.session_ids.len()
            invariant
                i <= self.session_ids@.len(),
                forall|j: int| 0 <= j < i ==> self.ids()[j] != id@,
            decreases self.session_ids@.len() - i,
        {
            if self.session_ids[i] == *id {
                return Some(i);
            }
            i += 1;
        }
        None
    }

    /// The handle of the session at `i`.
    pub fn handle(&self, i: usize) -> (r: &H)
        requires
            self.wf(),
            i < self.handles().len(),
        ensures
            *r == self.handles()[i as int],
    {
        &self.session_addrs[i]
    }

    /// Registers `addr` under `id`, which must be new.
    fn register(&mut self, id: String, addr: H)
        requires
            old(self).wf(),
            !old(self).registered(id@),
        ensures
            final(self).wf(),
            final(self).ids() == old(self).ids().push(id@),
            final(self).handles() == old(self).handles().push(addr),
    {
        let ghost old_ids = self.ids();
        self.session_ids.push(id);
        self.session_addrs.push(addr);
        let _n = self.session_ids.len();
        assert(self.ids() =~= old_ids.push(id@));
    }

    /// Admits a new client and returns the fresh id of its session: a random
    /// UUID, lengthened in the unlikely case that it is already taken.
    pub fn connect(&mut self, addr: H) -> (id: String)
        requires
            old(self).wf(),
        ensures
            final(self).wf(),
            !old(self).registered(id@),
            final(self).ids() == old(self).ids().push(id@),
            final(self).handles() == old(self).handles().push(addr),
    {
        let mut id = random_id();
        let ghost bound = longest(self.ids());
        loop
            invariant
                self.wf(),
                bound == longest(self.ids()),
            ensures
                !self.registered(id@),
            decreases bound + 1 - id@.len(),
        {
            match self.position(&id) {
                None => break,
                Some(i) => {
                    proof {
                        lemma_longest(self.ids(), i as int);
                    }
                    push_char(&mut id, '0');
                },
            }
        }
        self.register(id.clone(), addr);
        id
    }

    /// Removes the session `id` if it is registered, moving the last session
    /// into its place; does nothing for an id that is not registered.
    pub fn disconnect(&mut self, id: &String)
        requires
            old(self).wf(),
        ensures
            final(self).wf(),
            !final(self).registered(id@),
            match old(self).ids().index_of_first(id@) {
                Some(i) => {
                    &&& final(self).ids() == old(self).ids().update(i, old(self).ids().last()).drop_last()
                    &&& final(self).handles() == old(self).handles().update(
                        i,
                        old(self).handles().last(),
                    ).drop_last()
                },
                None => final(self).ids() == old(self).ids() && final(self).handles() == old(
                    self,
                ).handles(),
            },
    {
        let ghost old_ids = self.ids();
        match self.position(id) {
            None => {
                proof {
                    old_ids.index_of_first_ensures(id@);
                }
            },
            Some(i) => {
                proof {
                    old_ids.index_of_first_ensures(id@);
                    if old_ids.index_of_first(id@) != Some(i as int) {
                        let k = old_ids.index_of_first(id@)->0;
                        assert(old_ids[k] == old_ids[i as int]);
                    }
                }
                self.session_ids.swap_remove(i);
                self.session_addrs.swap_remove(i);
                let ghost new_ids = old_ids.update(i as int, old_ids.last()).drop_last();
                assert(self.ids() =~= new_ids);
                assert forall|a: int, b: int|
                    0 <= a < b < new_ids.len() implies new_ids[a] != new_ids[b] by {
                    let oa = if a == i { old_ids.len() - 1 } else { a };
                    let ob = if b == i { old_ids.len() - 1 } else { b };
                    assert(new_ids[a] == old_ids[oa]);
                    assert(new_ids[b] == old_ids[ob]);
                }
                assert forall|a: int| 0 <= a < new_ids.len() implies new_ids[a] != id@ by {
                    let oa = if a == i { old_ids.len() - 1 } else { a };
                    assert(new_ids[a] == old_ids[oa]);
                }
            },
        }
    }

    /// The positions of the sessions that a broadcast reaches: every
    /// registered session but `exclude`, in registry order.
    pub fn recipients(&self, exclude: &Option<String>) -> (r: Vec<usize>)
        requires
            self.wf(),
        ensures
            r@ == Seq::new(self.ids().len(), |i: int| i as usize).filter(
                |i: usize| !excluded(self.ids(), *exclude, i),
            ),
    {
        let ghost all = Seq::new(self.ids().len(), |i: int| i as usize);
        let ghost keep = |i: usize| !excluded(self.ids(), *exclude, i);
        let mut r: Vec<usize> = Vec::new();
        let mut i: usize = 0;
        while i < self.session_ids.len()
            invariant
                i <= self.session_ids@.len(),
                all == Seq::new(self.ids().len(), |i: int| i as usize),
                keep == (|i: usize| !excluded(self.ids(), *exclude, i)),
                r@ == all.take(i as int).filter(keep),
            decreases self.session_ids@.len() - i,
        {
            let skip = match exclude {
                Some(s) => self.session_ids[i] == *s,
                None => false,
            };
            assert(skip == excluded(self.ids(), *exclude, i));
            proof {
                reveal(Seq::filter);
                let t = all.take(i + 1);
                assert(t.drop_last() =~= all.take(i as int));
                assert(t.last() == i);
                assert(self.ids()[i as int] == self.session_ids@[i as int]@);
                assert(keep(i) == !skip);
            }
            if !skip {
                r.push(i);
            }
            i += 1;
        }
        assert(all.take(i as int) =~= all);
        r
    }

    /// Whatever connects and disconnects came before, the number of live
    /// sessions equals the number of distinct registered ids, each with
    /// exactly one handle.
    pub proof fn lemma_live_count(&self)
        requires
            self.wf(),
        ensures
            self.ids().no_duplicates(),
            self.ids().len() == self.ids().to_set().len(),
            self.handles().len() == self.ids().len(),
    {
        self.ids().unique_seq_to_set();
    }

    /// The sessions at the positions that `recipients` gives are exactly the
    /// registered sessions other than `exclude`; a session disconnected
    /// before is not registered, so it is not among them.
    pub proof fn lemma_broadcast_reach(&self, exclude: Option<String>, r: Seq<usize>)
        requires
            self.wf(),
            r == Seq::new(self.ids().len(), |i: int| i as usize).filter(
                |i: usize| !excluded(self.ids(), exclude, i),
            ),
        ensures
            forall|id: Seq<char>|
                #![trigger self.reached(r).contains(id)]
                self.reached(r).contains(id) <==> (self.registered(id)
                    && !(exclude matches Some(s) && id == s@)),
    {
        let ids = self.ids();
        let all = Seq::new(ids.len(), |i: int| i as usize);
        let keep = |i: usize| !excluded(ids, exclude, i);
        let reached = self.reached(r);
        assert forall|id: Seq<char>| reached.contains(id) <==> (self.registered(id) && !(
        exclude matches Some(s) && id == s@)) by {
            if reached.contains(id) {
                let k = choose|k: int| 0 <= k < reached.len() && reached[k] == id;
                all.lemma_filter_pred(keep, k);
                all.lemma_filter_contains_rev(keep, r[k]);
                let j = choose|j: int| 0 <= j < all.len() && all[j] == r[k];
                assert(ids[j] == id);
            }
            if self.registered(id) && !(exclude matches Some(s) && id == s@) {
                let j = choose|j: int| 0 <= j < ids.len() && ids[j] == id;
                assert(all[j] == j as usize);
                all.lemma_filter_contains(keep, j);
                let k = choose|k: int| 0 <= k < r.len() && r[k] == j as usize;
                assert(reached[k] == id);
            }
        }
    }
}

} // verus!
