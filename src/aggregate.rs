//! The aggregate: for each query, its history of link-queue events.

use vstd::prelude::*;

use crate::event::{Direction, History, HistoryView, LinkEvent};

verus! {

/// The history of `q` in `m`; an empty one where `q` has none.
pub open spec fn history_of(m: Map<Seq<char>, HistoryView>, q: Seq<char>) -> HistoryView {
    if m.contains_key(q) {
        m[q]
    } else {
        HistoryView::empty()
    }
}

/// `m` after event `e` of direction `d` arrived for query `q`: the query
/// gets an empty history first if it had none, then the event is appended.
pub open spec fn recorded(
    m: Map<Seq<char>, HistoryView>,
    q: Seq<char>,
    d: Direction,
    e: LinkEvent,
) -> Map<Seq<char>, HistoryView> {
    m.insert(q, history_of(m, q).with_event(d, e))
}

/// The events of each query, keyed by the query text. Keys are unique, and
/// lists only grow.
pub struct HistoryByQuery {
    queries: Vec<String>,
    histories: Vec<History>,
    model: Ghost<Map<Seq<char>, HistoryView>>,
}

impl View for HistoryByQuery {
    type V = Map<Seq<char>, HistoryView>;

    closed spec fn view(&self) -> Map<Seq<char>, HistoryView> {
        self.model@
    }
}

impl HistoryByQuery {
    /// Each query is held once, beside its history.
    pub closed spec fn well_formed(self) -> bool {
        &&& self.queries@.len() == self.histories@.len()
        &&& self.model@.dom().finite()
        &&& self.model@.dom().len() == self.queries@.len()
        &&& forall|i: int|
            0 <= i < self.queries@.len() ==> {
                &&& self.model@.contains_key(#[trigger] self.queries@[i]@)
                &&& self.model@[self.queries@[i]@] == self.histories@[i]@
            }
        &&& forall|q: Seq<char>|
            #[trigger] self.model@.contains_key(q) ==> exists|i: int|
                0 <= i < self.queries@.len() && #[trigger] self.queries@[i]@ == q
        &&& forall|i: int, j: int|
            0 <= i < j < self.queries@.len() ==> self.queries@[i]@ != self.queries@[j]@
    }

    /// No query yet.
    pub fn new() -> (r: HistoryByQuery)
        ensures
            r.well_formed(),
            r@ == Map::<Seq<char>, HistoryView>::empty(),
    {
        HistoryByQuery { queries: Vec::new(), histories: Vec::new(), model: Ghost(Map::empty()) }
    }

    /// The number of queries.
    pub fn len(&self) -> (r: usize)
        requires
            self.well_formed(),
        ensures
            r == self@.len(),
    {
        self.queries.len()
    }

    /// The queries, each once.
    pub fn queries(&self) -> (r: &Vec<String>)
        requires
            self.well_formed(),
        ensures
            r@.len() == self@.len(),
            forall|i: int| 0 <= i < r@.len() ==> self@.contains_key(#[trigger] r@[i]@),
            forall|q: Seq<char>| #[trigger] self@.contains_key(q) ==> exists|i: int| 0 <= i < r@.len() && #[trigger] r@[i]@ == q,
    {
        &self.queries
    }

    fn position(&self, query: &String) -> (r: Option<usize>)
        requires
            self.well_formed(),
        ensures
            match r {
                Some(i) => i < self.queries@.len() && self.queries@[i as int]@ == query@,
                None => !self@.contains_key(query@),
            },
    {
        let mut i: usize = 0;
        while i < self.queries.len()
            invariant
                self.well_formed(),
                i <= self.queries@.len(),
                forall|j: int| 0 <= j < i ==> self.queries@[j]@ != query@,
            decreases self.queries@.len() - i,
        {
            if self.queries[i] == *query {
                return Some(i);
            }
            i = i + 1;
        }
        None
    }

    /// The history of `query`, if it has one.
    pub fn get(&self, query: &String) -> (r: Option<&History>)
        requires
            self.well_formed(),
        ensures
            match r {
                Some(h) => self@.contains_key(query@) && self@[query@] == h@,
                None => !self@.contains_key(query@),
            },
    {
        match self.position(query) {
            Some(i) => Some(&self.histories[i]),
            None => None,
        }
    }

    /// Appends `e` to the list of direction `d` of `query`, which gets an
    /// empty history first if it has none.
    pub fn record(&mut self, query: String, d: Direction, e: LinkEvent)
        requires
            old(self).well_formed(),
        ensures
            final(self).well_formed(),
            final(self)@ == recorded(old(self)@, query@, d, e),
    {
        let ghost q = query@;
        let ghost after = recorded(self@, q, d, e);
        match self.position(&query) {
            Some(i) => {
                self.histories[i].add(d, e);
                self.model = Ghost(after);
                proof {
                    assert forall|j: int| 0 <= j < self.queries@.len() && j != i implies
                        self.queries@[j]@ != q by {
                        if j < i {
                            assert(old(self).queries@[j]@ != old(self).queries@[i as int]@);
                        } else {
                            assert(old(self).queries@[i as int]@ != old(self).queries@[j]@);
                        }
                    }
                    assert(self.model@.dom() =~= old(self).model@.dom());
                }
            },
            None => {
                let mut h = History::new();
                h.add(d, e);
                self.queries.push(query);
                self.histories.push(h);
                self.model = Ghost(after);
                proof {
                    let n = old(self).queries@.len() as int;
                    assert(self.model@.dom() =~= old(self).model@.dom().insert(q));
                    assert forall|p: Seq<char>| #[trigger] self.model@.contains_key(p) implies exists|j: int|
                        0 <= j < self.queries@.len() && #[trigger] self.queries@[j]@ == p by {
                        if p == q {
                            assert(self.queries@[n]@ == p);
                        } else {
                            assert(old(self).model@.contains_key(p));
                            let j = choose|j: int| 0 <= j < old(self).queries@.len() && #[trigger] old(self).queries@[j]@ == p;
                            assert(self.queries@[j]@ == p);
                        }
                    }
                    assert forall|j: int| 0 <= j < n implies self.queries@[j]@ != q by {
                        assert(old(self).model@.contains_key(old(self).queries@[j]@));
                    }
                }
            },
        }
    }
}

} // verus!
