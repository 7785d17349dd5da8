//! One fan-out: the requests to make, the schedule that bounds how many are
//! in flight, and the outcomes in the order in which they came in.

use crate::dispatch::{Dispatch, Dispatcher, MAX_IN_FLIGHT};
use crate::logs::{
    distinct_instances, distinct_requests, FetchRequest, GenericRequestError, Outcome,
};
use vstd::prelude::*;

verus! {

/// A fan-out over the log servers. Its caller makes the requests and reports
/// what came of each; the fan-out says which request to start and when to
/// wait, and keeps each outcome under the name of its log server.
#[derive(Debug)]
pub struct FanOut<T> {
    requests: Vec<FetchRequest>,
    dispatcher: Dispatcher,
    outcomes: Vec<Outcome<T>>,
}

impl<T> FanOut<T> {
    /// The requests of the fan-out, in the order in which they are started.
    pub closed spec fn requests(&self) -> Seq<FetchRequest> {
        self.requests@
    }

    /// The schedule of the fan-out.
    pub closed spec fn schedule(&self) -> Dispatcher {
        self.dispatcher
    }

    /// The outcomes reported so far, in the order in which they came in.
    pub closed spec fn outcomes(&self) -> Seq<Outcome<T>> {
        self.outcomes@
    }

    /// The schedule is that of the requests, and the outcomes are those of
    /// the requests that have come back, in the same order and under the
    /// names of their log servers.
    pub open spec fn wf(&self) -> bool {
        &&& self.schedule().wf()
        &&& self.schedule().total() == self.requests().len()
        &&& self.outcomes().len() == self.schedule().completed().len()
        &&& forall|k: int|
            0 <= k < self.outcomes().len() ==> {
                &&& (#[trigger] self.schedule().completed()[k]) < self.requests().len()
                &&& self.outcomes()[k].instance@ == self.requests()[self.schedule().completed()[k] as int].instance@
            }
    }

    /// At no time are more than `MAX_IN_FLIGHT` requests in flight, however
    /// many requests the fan-out has.
    pub proof fn lemma_bounded(&self)
        requires
            self.wf(),
        ensures
            self.schedule().in_flight().len() <= MAX_IN_FLIGHT,
    {
    }

    /// When nothing is left to do, every request has exactly one outcome:
    /// there are as many outcomes as requests, and each request is the
    /// source of one of them and of no other.
    pub proof fn lemma_every_request_once(&self)
        requires
            self.wf(),
            self.schedule().upcoming() == Dispatch::Done,
        ensures
            self.outcomes().len() == self.requests().len(),
            self.schedule().completed().no_duplicates(),
            forall|i: usize|
                i < self.requests().len() <==> self.schedule().completed().contains(i),
    {
        self.schedule().lemma_done();
    }

    /// Where no two requests go to the same log server, no two outcomes are
    /// of the same log server.
    pub proof fn lemma_distinct_outcomes(&self)
        requires
            self.wf(),
            distinct_requests(self.requests()),
        ensures
            distinct_instances(self.outcomes()),
    {
        let done = self.schedule().completed();
        let listed = self.schedule().in_flight() + done;
        let offset = self.schedule().in_flight().len() as int;
        assert forall|i: int, j: int|
            0 <= i < self.outcomes().len() && 0 <= j < self.outcomes().len() && i != j implies self.outcomes()[i].instance@
            != self.outcomes()[j].instance@ by {
            assert(listed[offset + i] == done[i] && listed[offset + j] == done[j]);
            assert(done[i] != done[j]);
        }
    }

    /// A fan-out that is to make `requests`, none of them started.
    pub fn new(requests: Vec<FetchRequest>) -> (fan_out: Self)
        ensures
            fan_out.wf(),
            fan_out.requests() == requests@,
            fan_out.outcomes() == Seq::<Outcome<T>>::empty(),
            fan_out.schedule().started() == 0,
            fan_out.schedule().in_flight() == Seq::<usize>::empty(),
    {
        let dispatcher = Dispatcher::new(requests.len());
        FanOut { requests, dispatcher, outcomes: Vec::new() }
    }

    /// Says what to do next, and counts a request that it tells to start as
    /// in flight. The request to start is one of the fan-out's.
    pub fn next(&mut self) -> (action: Dispatch)
        requires
            old(self).wf(),
        ensures
            final(self).wf(),
            action == old(self).schedule().upcoming(),
            final(self).requests() == old(self).requests(),
            final(self).outcomes() == old(self).outcomes(),
            final(self).schedule().in_flight().len() <= MAX_IN_FLIGHT,
            final(self).schedule().completed() == old(self).schedule().completed(),
            action matches Dispatch::Start(index) ==> {
                &&& index < final(self).requests().len()
                &&& index == old(self).schedule().started()
                &&& final(self).schedule().started() == old(self).schedule().started() + 1
                &&& final(self).schedule().in_flight() == old(self).schedule().in_flight().push(
                    index,
                )
            },
            !(action is Start) ==> {
                &&& final(self).schedule().started() == old(self).schedule().started()
                &&& final(self).schedule().in_flight() == old(self).schedule().in_flight()
            },
    {
        self.dispatcher.next()
    }

    /// The request of number `index`.
    pub fn request(&self, index: usize) -> (request: &FetchRequest)
        requires
            index < self.requests().len(),
        ensures
            *request == self.requests()[index as int],
    {
        &self.requests[index]
    }

    /// The number of requests of the fan-out.
    pub fn len(&self) -> (n: usize)
        ensures
            n == self.requests().len(),
    {
        self.requests.len()
    }

    /// Reports what came of the request `index`, and says whether that
    /// request was in flight. The outcome of one that was is kept, as the
    /// last, under the name of its log server, and the request is in flight
    /// no longer; a report of any other request changes nothing.
    pub fn complete(&mut self, index: usize, result: Result<T, GenericRequestError>) -> (known:
        bool)
        requires
            old(self).wf(),
        ensures
            final(self).wf(),
            known == old(self).schedule().in_flight().contains(index),
            final(self).requests() == old(self).requests(),
            final(self).schedule().in_flight().len() <= MAX_IN_FLIGHT,
            final(self).schedule().started() == old(self).schedule().started(),
            known ==> {
                &&& index < old(self).requests().len()
                &&& final(self).outcomes().len() == old(self).outcomes().len() + 1
                &&& final(self).outcomes().drop_last() == old(self).outcomes()
                &&& final(self).outcomes().last().instance@ == old(self).requests()[index as int].instance@
                &&& final(self).outcomes().last().result == result
                &&& final(self).schedule().completed() == old(self).schedule().completed().push(
                    index,
                )
                &&& final(self).schedule().in_flight() == old(self).schedule().in_flight().remove(
                    old(self).schedule().in_flight().index_of(index),
                )
            },
            !known ==> {
                &&& final(self).outcomes() == old(self).outcomes()
                &&& final(self).schedule().completed() == old(self).schedule().completed()
                &&& final(self).schedule().in_flight() == old(self).schedule().in_flight()
            },
    {
        let ghost before = self.dispatcher;
        let ghost kept = self.outcomes@;
        proof {
            if before.in_flight().contains(index) {
                let at = before.in_flight().index_of(index);
                assert(0 <= at < before.in_flight().len() && before.in_flight()[at] == index);
                assert((before.in_flight() + before.completed())[at] == index);
                assert((before.in_flight() + before.completed()).contains(index));
            }
        }
        if self.dispatcher.complete(index) {
            let instance = self.requests[index].instance.clone();
            self.outcomes.push(Outcome { instance, result });
            proof {
                assert(self.outcomes@.drop_last() =~= kept);
                assert forall|k: int| 0 <= k < self.outcomes().len() implies {
                    &&& (#[trigger] self.schedule().completed()[k]) < self.requests().len()
                    &&& self.outcomes()[k].instance@ == self.requests()[self.schedule().completed()[k] as int].instance@
                } by {
                    if k < kept.len() {
                        assert(self.schedule().completed()[k] == before.completed()[k]);
                    }
                }
            }
            true
        } else {
            false
        }
    }

    /// Whether every request has come back.
    pub fn is_done(&self) -> (done: bool)
        requires
            self.wf(),
        ensures
            done == (self.schedule().upcoming() == Dispatch::Done),
            done ==> self.outcomes().len() == self.requests().len(),
    {
        proof {
            self.schedule().lemma_accounting();
        }
        self.dispatcher.is_done()
    }

    /// Gives up the outcomes, in the order in which they came in.
    pub fn into_outcomes(self) -> (outcomes: Vec<Outcome<T>>)
        ensures
            outcomes@ == self.outcomes(),
    {
        self.outcomes
    }
}

} // verus!
