//! The requests that the node has taken in and not answered yet.
use vstd::prelude::*;
use crate::ordered;
use super::protocol::Response;

verus! {

/// The number of a request.
pub type RequestId = u64;

/// Whether the worker that processes requests takes one more.
#[derive(Clone, Copy, PartialEq, Eq, Structural, Debug)]
pub enum Readiness {
    Ready,
    Closed,
    Pending,
}

/// What is done with a request that is queued.
#[derive(Clone, Copy, PartialEq, Eq, Structural, Debug)]
pub enum Forward {
    /// It goes to the worker, and waits for its answer.
    Send,
    /// It is dropped.
    Drop,
    /// It stays queued, or was not queued.
    Keep,
}

/// What has become of the answer to a request.
#[derive(Clone, Copy, PartialEq, Eq, Structural, Debug)]
pub enum Settlement {
    Answered,
    Canceled,
    Pending,
}

/// The requests that wait for the worker, and those that wait for their answers.
pub struct Behaviour {
    pub queue_event: Vec<RequestId>,
    pub waiting_on_request: Vec<RequestId>,
}

/// The requests of a list without one.
pub open spec fn without(list: Seq<RequestId>, id: RequestId) -> Seq<RequestId> {
    list.filter(|x: RequestId| x != id)
}

/// The text of the answer to a request whose signature does not hold.
pub open spec fn invalid_request_text() -> Seq<char> {
    "Request is invalid or corrupted"@
}

/// What `Behaviour::process_request` does.
pub open spec fn process_request_post(
    before: Behaviour,
    after: Behaviour,
    r: Option<Response>,
    id: RequestId,
    genuine: bool,
) -> bool {
    if genuine {
        &&& r is None
        &&& after.queue_event@ == ordered::set_inserted(before.queue_event@, id)
        &&& after.waiting_on_request == before.waiting_on_request
    } else {
        &&& r matches Some(Response::Error(text)) && text@ == invalid_request_text()
        &&& after == before
    }
}

/// What `Behaviour::inbound_failure` does.
pub open spec fn inbound_failure_post(before: Behaviour, after: Behaviour, id: RequestId) -> bool {
    &&& after.queue_event@ == without(before.queue_event@, id)
    &&& after.waiting_on_request@ == without(before.waiting_on_request@, id)
}

/// What `Behaviour::forward` does.
pub open spec fn forward_post(
    before: Behaviour,
    after: Behaviour,
    r: Forward,
    id: RequestId,
    readiness: Readiness,
) -> bool {
    if !before.queue_event@.contains(id) {
        r == Forward::Keep && after == before
    } else {
        match readiness {
            Readiness::Ready => {
                &&& r == Forward::Send
                &&& after.queue_event@ == without(before.queue_event@, id)
                &&& after.waiting_on_request@ == ordered::set_inserted(
                    before.waiting_on_request@,
                    id,
                )
            },
            Readiness::Closed => {
                &&& r == Forward::Drop
                &&& after.queue_event@ == without(before.queue_event@, id)
                &&& after.waiting_on_request == before.waiting_on_request
            },
            Readiness::Pending => r == Forward::Keep && after == before,
        }
    }
}

/// What `Behaviour::settle` does.
pub open spec fn settle_post(
    before: Behaviour,
    after: Behaviour,
    r: bool,
    id: RequestId,
    settlement: Settlement,
) -> bool {
    if !before.waiting_on_request@.contains(id) || settlement == Settlement::Pending {
        !r && after == before
    } else {
        &&& r == (settlement == Settlement::Answered)
        &&& after.queue_event == before.queue_event
        &&& after.waiting_on_request@ == without(before.waiting_on_request@, id)
    }
}

fn contains(list: &Vec<RequestId>, id: RequestId) -> (r: bool)
    ensures
        r == list@.contains(id),
{
    let mut i: usize = 0;
    while i < list.len()
        invariant
            i <= list@.len(),
            forall|j: int| 0 <= j < i ==> list@[j] != id,
        decreases list@.len() - i,
    {
        if list[i] == id {
            assert(list@[i as int] == id);
            return true;
        }
        i = i + 1;
    }
    false
}

fn insert(list: &mut Vec<RequestId>, id: RequestId)
    ensures
        final(list)@ == ordered::set_inserted(old(list)@, id),
{
    if !contains(list, id) {
        list.push(id);
    }
}

fn remove(list: &mut Vec<RequestId>, id: RequestId)
    ensures
        final(list)@ == without(old(list)@, id),
{
    let ghost all = list@;
    let mut kept: Vec<RequestId> = Vec::new();
    let mut i: usize = 0;
    proof {
        reveal(Seq::filter);
        assert(all.take(0) == Seq::<RequestId>::empty());
    }
    while i < list.len()
        invariant
            all == list@,
            i <= all.len(),
            kept@ == without(all.take(i as int), id),
        decreases all.len() - i,
    {
        proof {
            reveal(Seq::filter);
            assert(all.take(i + 1).drop_last() == all.take(i as int));
            assert(all.take(i + 1).last() == all[i as int]);
        }
        if list[i] != id {
            kept.push(list[i]);
        }
        i = i + 1;
    }
    assert(all.take(all.len() as int) == all);
    *list = kept;
}

impl Behaviour {
    pub fn new() -> (r: Behaviour)
        ensures
            r.queue_event@.len() == 0,
            r.waiting_on_request@.len() == 0,
    {
        Behaviour { queue_event: Vec::new(), waiting_on_request: Vec::new() }
    }

    /// Takes a request in. One whose signature does not hold is answered at once.
    pub fn process_request(&mut self, id: RequestId, genuine: bool) -> (r: Option<Response>)
        ensures
            process_request_post(*old(self), *final(self), r, id, genuine),
    {
        if !genuine {
            return Some(Response::Error("Request is invalid or corrupted".to_owned()));
        }
        insert(&mut self.queue_event, id);
        None
    }

    /// Forgets a request whose answer could not be sent.
    pub fn inbound_failure(&mut self, id: RequestId)
        ensures
            inbound_failure_post(*old(self), *final(self), id),
    {
        remove(&mut self.queue_event, id);
        remove(&mut self.waiting_on_request, id);
    }

    /// Hands a queued request to the worker, where that takes it.
    pub fn forward(&mut self, id: RequestId, readiness: Readiness) -> (r: Forward)
        ensures
            forward_post(*old(self), *final(self), r, id, readiness),
    {
        if !contains(&self.queue_event, id) {
            return Forward::Keep;
        }
        match readiness {
            Readiness::Ready => {
                remove(&mut self.queue_event, id);
                insert(&mut self.waiting_on_request, id);
                Forward::Send
            },
            Readiness::Closed => {
                remove(&mut self.queue_event, id);
                Forward::Drop
            },
            Readiness::Pending => Forward::Keep,
        }
    }

    /// Takes note of what has become of an answer. Returns whether it is sent now.
    pub fn settle(&mut self, id: RequestId, settlement: Settlement) -> (r: bool)
        ensures
            settle_post(*old(self), *final(self), r, id, settlement),
    {
        if !contains(&self.waiting_on_request, id) {
            return false;
        }
        match settlement {
            Settlement::Pending => false,
            Settlement::Canceled => {
                remove(&mut self.waiting_on_request, id);
                false
            },
            Settlement::Answered => {
                remove(&mut self.waiting_on_request, id);
                true
            },
        }
    }
}

} // verus!
