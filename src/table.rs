use vstd::prelude::*;
use crate::id::{IdView, RequestId};

verus! {

/// The map that a list of entries stands for; a later entry for a key wins.
pub closed spec fn entries_map<S>(s: Seq<(RequestId, S)>) -> Map<IdView, S>
    decreases s.len(),
{
    if s.len() == 0 {
        Map::empty()
    } else {
        entries_map(s.drop_last()).insert(s.last().0@, s.last().1)
    }
}

spec fn distinct_keys<S>(s: Seq<(RequestId, S)>) -> bool {
    forall|i: int, j: int| 0 <= i < j < s.len() ==> #[trigger] s[i].0@ != #[trigger] s[j].0@
}

proof fn lemma_entries_absent<S>(s: Seq<(RequestId, S)>, k: IdView)
    requires
        forall|i: int| 0 <= i < s.len() ==> #[trigger] s[i].0@ != k,
    ensures
        !entries_map(s).contains_key(k),
    decreases s.len(),
{
    if s.len() > 0 {
        lemma_entries_absent(s.drop_last(), k);
    }
}

proof fn lemma_entries_at<S>(s: Seq<(RequestId, S)>, i: int)
    requires
        distinct_keys(s),
        0 <= i < s.len(),
    ensures
        entries_map(s).contains_key(s[i].0@),
        entries_map(s)[s[i].0@] == s[i].1,
    decreases s.len(),
{
    if i < s.len() - 1 {
        lemma_entries_at(s.drop_last(), i);
        assert(s[i].0@ != s[s.len() - 1].0@);
    }
}

proof fn lemma_entries_finite<S>(s: Seq<(RequestId, S)>)
    requires
        distinct_keys(s),
    ensures
        entries_map(s).dom().finite(),
        entries_map(s).len() == s.len(),
    decreases s.len(),
{
    if s.len() > 0 {
        let t = s.drop_last();
        lemma_entries_finite(t);
        assert forall|i: int| 0 <= i < t.len() implies #[trigger] t[i].0@ != s.last().0@ by {
            assert(s[i].0@ != s[s.len() - 1].0@);
        }
        lemma_entries_absent(t, s.last().0@);
    }
}

proof fn lemma_entries_remove<S>(s: Seq<(RequestId, S)>, i: int)
    requires
        distinct_keys(s),
        0 <= i < s.len(),
    ensures
        entries_map(s.remove(i)) == entries_map(s).remove(s[i].0@),
        distinct_keys(s.remove(i)),
    decreases s.len(),
{
    let t = s.drop_last();
    let k = s[i].0@;
    if i == s.len() - 1 {
        assert(s.remove(i) =~= t);
        assert forall|j: int| 0 <= j < t.len() implies #[trigger] t[j].0@ != k by {
            assert(s[j].0@ != s[i].0@);
        }
        lemma_entries_absent(t, k);
        assert(entries_map(s.remove(i)) =~= entries_map(s).remove(k));
    } else {
        lemma_entries_remove(t, i);
        assert(s.remove(i).drop_last() =~= t.remove(i));
        assert(s.remove(i).last() == s.last());
        assert(s.last().0@ != k);
        assert(entries_map(s.remove(i)) =~= entries_map(s).remove(k));
    }
}

/// The requests that wait for an answer: for each id, the slot that its
/// response is to be delivered into. Ids are unique in it. Once the stream
/// from the server has ended the table is closed: it takes no new request.
pub struct PendingTable<S> {
    entries: Vec<(RequestId, S)>,
    closed: bool,
}

impl<S> View for PendingTable<S> {
    type V = Map<IdView, S>;

    closed spec fn view(&self) -> Map<IdView, S> {
        entries_map(self.entries@)
    }
}

impl<S> PendingTable<S> {
    pub closed spec fn wf(&self) -> bool {
        distinct_keys(self.entries@)
    }

    /// Whether the table takes no new request.
    pub closed spec fn is_closed(&self) -> bool {
        self.closed
    }

    pub fn new() -> (r: PendingTable<S>)
        ensures
            r.wf(),
            r@ == Map::<IdView, S>::empty(),
            !r.is_closed(),
    {
        PendingTable { entries: Vec::new(), closed: false }
    }

    /// Whether the table takes no new request.
    pub fn closed(&self) -> (r: bool)
        ensures
            r == self.is_closed(),
    {
        self.closed
    }

    /// The number of requests that wait.
    pub fn len(&self) -> (r: usize)
        requires
            self.wf(),
        ensures
            self@.dom().finite(),
            r == self@.len(),
    {
        proof {
            lemma_entries_finite(self.entries@);
        }
        self.entries.len()
    }

    fn position(&self, id: &RequestId) -> (r: Option<usize>)
        requires
            self.wf(),
        ensures
            match r {
                Some(i) => i < self.entries@.len() && self.entries@[i as int].0@ == id@,
                None => !self@.contains_key(id@),
            },
    {
        let mut i: usize = 0;
        while i < self.entries.len()
            invariant
                0 <= i <= self.entries@.len(),
                forall|j: int| 0 <= j < i ==> #[trigger] self.entries@[j].0@ != id@,
            decreases self.entries@.len() - i,
        {
            if self.entries[i].0.same(id) {
                return Some(i);
            }
            i = i + 1;
        }
        proof {
            lemma_entries_absent(self.entries@, id@);
        }
        None
    }

    /// Whether a request with this id waits.
    pub fn contains(&self, id: &RequestId) -> (r: bool)
        requires
            self.wf(),
        ensures
            r == self@.contains_key(id@),
    {
        match self.position(id) {
            Some(i) => {
                proof {
                    lemma_entries_at(self.entries@, i as int);
                }
                true
            },
            None => false,
        }
    }

    /// Registers the slot of a request that is about to be sent. An id that
    /// already waits is refused, and so is any id once the table is closed:
    /// the slot is handed back.
    pub fn register(&mut self, id: RequestId, slot: S) -> (r: Result<(), S>)
        requires
            old(self).wf(),
        ensures
            final(self).wf(),
            final(self).is_closed() == old(self).is_closed(),
            old(self).is_closed() || old(self)@.contains_key(id@) ==> r == Err::<(), S>(slot)
                && final(self)@ == old(self)@,
            !old(self).is_closed() && !old(self)@.contains_key(id@) ==> r is Ok && final(self)@
                == old(self)@.insert(id@, slot),
    {
        if self.closed || self.contains(&id) {
            return Err(slot);
        }
        let ghost k = id@;
        proof {
            lemma_entries_absent_inv(self.entries@, k);
        }
        self.entries.push((id, slot));
        proof {
            assert(self.entries@.drop_last() =~= old(self).entries@);
        }
        Ok(())
    }

    fn remove_id(&mut self, id: &RequestId) -> (r: Option<S>)
        requires
            old(self).wf(),
        ensures
            final(self).wf(),
            final(self).is_closed() == old(self).is_closed(),
            r == (if old(self)@.contains_key(id@) {
                Some(old(self)@[id@])
            } else {
                None
            }),
            final(self)@ == old(self)@.remove(id@),
    {
        match self.position(id) {
            None => {
                proof {
                    assert(self@.remove(id@) =~= self@);
                }
                None
            },
            Some(i) => {
                proof {
                    lemma_entries_at(self.entries@, i as int);
                    lemma_entries_remove(self.entries@, i as int);
                }
                let (_, slot) = self.entries.remove(i);
                Some(slot)
            },
        }
    }

    /// Takes out the slot that the response with this id is to be delivered
    /// into. `None` for an id that does not wait (never sent, already
    /// answered, or given up): such a response is dropped.
    pub fn fulfill(&mut self, id: &RequestId) -> (r: Option<S>)
        requires
            old(self).wf(),
        ensures
            final(self).wf(),
            final(self).is_closed() == old(self).is_closed(),
            r == (if old(self)@.contains_key(id@) {
                Some(old(self)@[id@])
            } else {
                None
            }),
            final(self)@ == old(self)@.remove(id@),
    {
        self.remove_id(id)
    }

    /// Gives up on a request: its slot is taken out without a response, and
    /// a response that comes later finds nothing.
    pub fn abort(&mut self, id: &RequestId) -> (r: Option<S>)
        requires
            old(self).wf(),
        ensures
            final(self).wf(),
            final(self).is_closed() == old(self).is_closed(),
            r == (if old(self)@.contains_key(id@) {
                Some(old(self)@[id@])
            } else {
                None
            }),
            final(self)@ == old(self)@.remove(id@),
    {
        self.remove_id(id)
    }

    /// Closes the table and takes out every waiting slot, so that each can be
    /// failed when the stream from the server ends.
    pub fn drain(&mut self) -> (r: Vec<S>)
        requires
            old(self).wf(),
        ensures
            final(self).wf(),
            final(self).is_closed(),
            final(self)@ == Map::<IdView, S>::empty(),
            old(self)@.dom().finite(),
            r@.len() == old(self)@.len(),
            forall|k: IdView| #[trigger] old(self)@.contains_key(k) ==> r@.contains(old(self)@[k]),
    {
        let ghost before = self.entries@;
        proof {
            lemma_entries_finite(before);
            assert forall|k: IdView| #[trigger] entries_map(before).contains_key(k) implies exists|
                i: int,
            | 0 <= i < before.len() && before[i].0@ == k && entries_map(before)[k] == before[i].1 by {
                if forall|i: int| 0 <= i < before.len() ==> #[trigger] before[i].0@ != k {
                    lemma_entries_absent(before, k);
                }
                let i = choose|i: int| 0 <= i < before.len() && before[i].0@ == k;
                lemma_entries_at(before, i);
            }
        }
        let mut out: Vec<S> = Vec::new();
        let mut entries: Vec<(RequestId, S)> = Vec::new();
        std::mem::swap(&mut entries, &mut self.entries);
        self.closed = true;
        let mut i: usize = 0;
        let n = entries.len();
        while i < n
            invariant
                n == before.len(),
                entries@.len() == before.len() - i,
                0 <= i <= n,
                out@.len() == i,
                forall|j: int| 0 <= j < i ==> #[trigger] out@[j] == before[j].1,
                forall|j: int| 0 <= j < entries@.len() ==> #[trigger] entries@[j] == before[j + i],
            decreases n - i,
        {
            let (_, slot) = entries.remove(0);
            out.push(slot);
            i = i + 1;
        }
        proof {
            assert(self.entries@ =~= Seq::<(RequestId, S)>::empty());
            assert(entries_map(self.entries@) =~= Map::<IdView, S>::empty());
            assert forall|k: IdView| #[trigger] entries_map(before).contains_key(k) implies out@.contains(
                entries_map(before)[k],
            ) by {
                let i = choose|i: int|
                    0 <= i < before.len() && before[i].0@ == k && entries_map(before)[k] == before[i].1;
                assert(out@[i] == before[i].1);
            }
        }
        out
    }
}

proof fn lemma_entries_absent_inv<S>(s: Seq<(RequestId, S)>, k: IdView)
    requires
        distinct_keys(s),
        !entries_map(s).contains_key(k),
    ensures
        forall|i: int| 0 <= i < s.len() ==> #[trigger] s[i].0@ != k,
{
    assert forall|i: int| 0 <= i < s.len() implies #[trigger] s[i].0@ != k by {
        lemma_entries_at(s, i);
    }
}

/// What a run of deliveries hands out, one per id in `order`: the slot that
/// waits for that id, taken out, or nothing once it is gone.
pub open spec fn route<S>(m: Map<IdView, S>, order: Seq<IdView>) -> Seq<Option<S>>
    decreases order.len(),
{
    if order.len() == 0 {
        Seq::empty()
    } else {
        let k = order[0];
        let first = if m.contains_key(k) {
            Some(m[k])
        } else {
            None
        };
        seq![first] + route(m.remove(k), order.drop_first())
    }
}

/// Responses to distinct waiting ids, delivered in any order, each reach the
/// slot that was registered for their own id and no other.
pub proof fn lemma_routing<S>(m: Map<IdView, S>, order: Seq<IdView>)
    requires
        order.no_duplicates(),
        forall|j: int| 0 <= j < order.len() ==> m.contains_key(#[trigger] order[j]),
    ensures
        route(m, order).len() == order.len(),
        forall|j: int| 0 <= j < order.len() ==> #[trigger] route(m, order)[j] == Some(m[order[j]]),
    decreases order.len(),
{
    if order.len() > 0 {
        let k = order[0];
        let rest = order.drop_first();
        assert forall|j: int| 0 <= j < rest.len() implies m.remove(k).contains_key(#[trigger] rest[j]) by {
            assert(rest[j] == order[j + 1]);
        }
        lemma_routing(m.remove(k), rest);
        assert forall|j: int| 0 <= j < order.len() implies #[trigger] route(m, order)[j] == Some(
            m[order[j]],
        ) by {
            if j > 0 {
                assert(order[j] == rest[j - 1]);
                assert(order[j] != k);
            }
        }
    }
}

/// Of an abort and a delivery for the same id, whichever comes first takes
/// the slot and the other finds nothing; for an id that does not wait, both
/// find nothing.
pub proof fn lemma_abort_race<S>(m: Map<IdView, S>, k: IdView)
    ensures
        m.contains_key(k) ==> route(m, seq![k, k]) == seq![Some(m[k]), None::<S>],
        !m.contains_key(k) ==> route(m, seq![k, k]) == seq![None::<S>, None::<S>],
{
    assert(seq![k, k].drop_first() =~= seq![k]);
    assert(seq![k].drop_first() =~= Seq::<IdView>::empty());
    let m2 = m.remove(k);
    assert(!m2.contains_key(k));
    assert(route(m2.remove(k), Seq::<IdView>::empty()) =~= Seq::<Option<S>>::empty());
    assert(route(m2, seq![k]) =~= seq![None::<S>]);
    assert(route(m, seq![k, k]) =~= (if m.contains_key(k) {
        seq![Some(m[k]), None::<S>]
    } else {
        seq![None::<S>, None::<S>]
    }));
}

} // verus!
