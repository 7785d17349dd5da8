//! Bounded scheduling of a fan-out: which request starts next, and when to wait.
//!
//! The requests of a fan-out are numbered from zero. The dispatcher decides;
//! its caller starts the requests, waits for them, and reports each one that
//! has come back.

use vstd::prelude::*;

verus! {

/// The most requests of one fan-out that may be in flight at the same time.
pub const MAX_IN_FLIGHT: usize = 20;

/// What the caller of a dispatcher does next.
#[derive(Debug, Clone, Copy, PartialEq, Eq, Structural)]
pub enum Dispatch {
    /// Start the request of this number; it is in flight from now on.
    Start(usize),
    /// Start nothing: wait until a request in flight comes back, and report it.
    Wait,
    /// Every request has come back.
    Done,
}

/// The state of one fan-out: which requests have started, which of them are
/// still in flight, and which have come back, in the order in which they did.
#[derive(Debug)]
pub struct Dispatcher {
    total: usize,
    started: usize,
    in_flight: Vec<usize>,
    completed: Vec<usize>,
}

impl Dispatcher {
    /// The number of requests of the fan-out.
    pub closed spec fn total(&self) -> nat {
        self.total as nat
    }

    /// The number of requests started so far: those numbered below it.
    pub closed spec fn started(&self) -> nat {
        self.started as nat
    }

    /// The requests in flight.
    pub closed spec fn in_flight(&self) -> Seq<usize> {
        self.in_flight@
    }

    /// The requests that have come back, in the order in which they did.
    pub closed spec fn completed(&self) -> Seq<usize> {
        self.completed@
    }

    /// The requests are started in order and at most `MAX_IN_FLIGHT` of them
    /// are in flight. Each request that has started is either in flight or has
    /// come back, and is listed once; no other request is listed.
    pub open spec fn wf(&self) -> bool {
        &&& self.started() <= self.total()
        &&& self.in_flight().len() <= MAX_IN_FLIGHT
        &&& (self.in_flight() + self.completed()).no_duplicates()
        &&& forall|k: usize|
            (self.in_flight() + self.completed()).contains(k) <==> (k as nat) < self.started()
    }

    /// What the caller does next in this state. A request starts as soon as
    /// one is left and fewer than `MAX_IN_FLIGHT` are in flight.
    pub open spec fn upcoming(&self) -> Dispatch {
        if self.in_flight().len() < MAX_IN_FLIGHT && self.started() < self.total() {
            Dispatch::Start(self.started() as usize)
        } else if self.in_flight().len() > 0 {
            Dispatch::Wait
        } else {
            Dispatch::Done
        }
    }

    /// Every request that has started is in flight or has come back, so the
    /// two lists hold as many requests as have started.
    pub proof fn lemma_accounting(&self)
        requires
            self.wf(),
        ensures
            self.in_flight().len() + self.completed().len() == self.started(),
    {
        let listed = self.in_flight() + self.completed();
        let below = Set::new(|k: usize| (k as nat) < self.started());
        listed.unique_seq_to_set();
        assert(listed.to_set() =~= below);
        lemma_below_len(self.started);
        assert(below =~= below_set(self.started));
    }

    /// When nothing is left to do, every request of the fan-out has come back
    /// exactly once.
    pub proof fn lemma_done(&self)
        requires
            self.wf(),
            self.upcoming() == Dispatch::Done,
        ensures
            self.completed().no_duplicates(),
            self.completed().len() == self.total(),
            forall|k: usize| self.completed().contains(k) <==> (k as nat) < self.total(),
    {
        self.lemma_accounting();
        assert(self.in_flight() + self.completed() =~= self.completed());
    }

    /// A fan-out of `total` requests, none of them started.
    pub fn new(total: usize) -> (dispatcher: Self)
        ensures
            dispatcher.wf(),
            dispatcher.total() == total,
            dispatcher.started() == 0,
            dispatcher.in_flight() == Seq::<usize>::empty(),
            dispatcher.completed() == Seq::<usize>::empty(),
    {
        let dispatcher = Dispatcher {
            total,
            started: 0,
            in_flight: Vec::new(),
            completed: Vec::new(),
        };
        assert(dispatcher.in_flight() + dispatcher.completed() =~= Seq::<usize>::empty());
        dispatcher
    }

    /// Says what to do next, and counts a request that it tells to start as
    /// in flight. Otherwise the state stays as it is.
    pub fn next(&mut self) -> (action: Dispatch)
        requires
            old(self).wf(),
        ensures
            final(self).wf(),
            action == old(self).upcoming(),
            final(self).total() == old(self).total(),
            final(self).completed() == old(self).completed(),
            final(self).in_flight().len() <= MAX_IN_FLIGHT,
            action matches Dispatch::Start(index) ==> {
                &&& index == old(self).started()
                &&& final(self).started() == old(self).started() + 1
                &&& final(self).in_flight() == old(self).in_flight().push(index)
            },
            !(action is Start) ==> {
                &&& final(self).started() == old(self).started()
                &&& final(self).in_flight() == old(self).in_flight()
            },
    {
        if self.in_flight.len() < MAX_IN_FLIGHT && self.started < self.total {
            let index: usize = self.started;
            let ghost before = self.in_flight() + self.completed();
            self.in_flight.push(index);
            self.started = index + 1;
            proof {
                let after = self.in_flight() + self.completed();
                let split = self.in_flight().len() - 1;
                assert(after =~= before.insert(split, index));
                assert(!before.contains(index));
                assert forall|i: int, j: int|
                    0 <= i < after.len() && 0 <= j < after.len() && i != j implies after[i]
                    != after[j] by {
                    let a = if i < split { i } else { i - 1 };
                    let b = if j < split { j } else { j - 1 };
                    if i != split && j != split {
                        assert(after[i] == before[a] && after[j] == before[b]);
                    } else if i == split {
                        assert(after[j] == before[b]);
                    } else {
                        assert(after[i] == before[a]);
                    }
                }
                assert forall|k: usize| after.contains(k) <==> (k as nat) < self.started() by {
                    if after.contains(k) {
                        let i = choose|i: int| 0 <= i < after.len() && after[i] == k;
                        if i != split {
                            let a = if i < split { i } else { i - 1 };
                            assert(before[a] == k);
                            assert(before.contains(k));
                        }
                    }
                    if (k as nat) < self.started() {
                        if k == index {
                            assert(after[split] == k);
                        } else {
                            assert(before.contains(k));
                            let a = choose|a: int| 0 <= a < before.len() && before[a] == k;
                            let i = if a < split { a } else { a + 1 };
                            assert(after[i] == k);
                        }
                    }
                }
            }
            Dispatch::Start(index)
        } else if self.in_flight.len() > 0 {
            Dispatch::Wait
        } else {
            Dispatch::Done
        }
    }

    /// Whether every request has come back.
    pub fn is_done(&self) -> (done: bool)
        ensures
            done == (self.upcoming() == Dispatch::Done),
    {
        !(self.in_flight.len() < MAX_IN_FLIGHT && self.started < self.total)
            && self.in_flight.len() == 0
    }

    /// The number of requests in flight.
    pub fn in_flight_count(&self) -> (n: usize)
        ensures
            n == self.in_flight().len(),
    {
        self.in_flight.len()
    }

    /// The number of requests started so far.
    pub fn started_count(&self) -> (n: usize)
        ensures
            n == self.started(),
    {
        self.started
    }

    /// The number of requests of the fan-out.
    pub fn total_count(&self) -> (n: usize)
        ensures
            n == self.total(),
    {
        self.total
    }

    /// The requests that have come back, in the order in which they did.
    pub fn completed_order(&self) -> (order: &Vec<usize>)
        ensures
            order@ == self.completed(),
    {
        &self.completed
    }

    /// Where among the requests in flight `index` stands, if it is one of them.
    fn slot_of(&self, index: usize) -> (slot: Option<usize>)
        ensures
            slot is Some == self.in_flight().contains(index),
            slot matches Some(at) ==> at < self.in_flight().len() && self.in_flight()[at as int]
                == index,
    {
        let mut at: usize = 0;
        while at < self.in_flight.len()
            invariant
                at <= self.in_flight.len(),
                forall|j: int| 0 <= j < at ==> self.in_flight@[j] != index,
            decreases self.in_flight.len() - at,
        {
            if self.in_flight[at] == index {
                return Some(at);
            }
            at += 1;
        }
        None
    }

    /// Reports that the request `index` has come back, and says whether it was
    /// in flight. One that was leaves the requests in flight and joins, as the
    /// last, those that have come back; for any other, nothing changes.
    pub fn complete(&mut self, index: usize) -> (known: bool)
        requires
            old(self).wf(),
        ensures
            final(self).wf(),
            known == old(self).in_flight().contains(index),
            final(self).total() == old(self).total(),
            final(self).started() == old(self).started(),
            final(self).in_flight().len() <= MAX_IN_FLIGHT,
            known ==> {
                &&& final(self).in_flight() == old(self).in_flight().remove(
                    old(self).in_flight().index_of(index),
                )
                &&& final(self).completed() == old(self).completed().push(index)
            },
            !known ==> {
                &&& final(self).in_flight() == old(self).in_flight()
                &&& final(self).completed() == old(self).completed()
            },
    {
        let at: usize = match self.slot_of(index) {
            Some(at) => at,
            None => {
                return false;
            },
        };
        let ghost flying = self.in_flight();
        let ghost back = self.completed();
        proof {
            let before = flying + back;
            let found = flying.index_of(index);
            assert(0 <= found < flying.len() && flying[found] == index);
            assert(before[found] == index && before[at as int] == index);
        }
        self.in_flight.remove(at);
        self.completed.push(index);
        proof {
            let before = flying + back;
            let after = self.in_flight() + self.completed();
            let end = after.len() - 1;
            assert(after =~= before.remove(at as int).push(index));
            assert forall|i: int, j: int|
                0 <= i < after.len() && 0 <= j < after.len() && i != j implies after[i]
                != after[j] by {
                let a = if i == end { at as int } else if i < at { i } else { i + 1 };
                let b = if j == end { at as int } else if j < at { j } else { j + 1 };
                assert(after[i] == before[a] && after[j] == before[b]);
            }
            assert forall|k: usize| after.contains(k) <==> (k as nat) < self.started() by {
                if after.contains(k) {
                    let i = choose|i: int| 0 <= i < after.len() && after[i] == k;
                    let a = if i == end { at as int } else if i < at { i } else { i + 1 };
                    assert(before[a] == k);
                    assert(before.contains(k));
                }
                if (k as nat) < self.started() {
                    assert(before.contains(k));
                    let a = choose|a: int| 0 <= a < before.len() && before[a] == k;
                    let i = if a == at { end } else if a < at { a } else { a - 1 };
                    assert(after[i] == k);
                }
            }
        }
        true
    }
}

/// The numbers below `n`.
pub open spec fn below_set(n: usize) -> Set<usize> {
    Set::new(|k: usize| k < n)
}

/// There are `n` numbers below `n`.
pub proof fn lemma_below_len(n: usize)
    ensures
        below_set(n).finite(),
        below_set(n).len() == n,
    decreases n,
{
    if n == 0 {
        assert(below_set(n) =~= Set::<usize>::empty());
    } else {
        let m = (n - 1) as usize;
        lemma_below_len(m);
        assert(below_set(n) =~= below_set(m).insert(m));
    }
}

} // verus!
