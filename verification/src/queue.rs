//! The bounded intake queue: the one resource shared between the input
//! adapters and the evaluation service. Requests leave in exactly the
//! order they entered (a global first-in, first-out order across all
//! adapters), and a full queue rejects a submission instead of dropping
//! one, which is what lets adapters suspend and retry rather than lose
//! requests.

use vstd::prelude::*;

verus! {

/// One pending evaluation: the request text plus the identifier of its
/// single-use, capacity-one reply sink.
pub struct EvalRequest {
    pub text: Vec<u8>,
    pub sink: usize,
}

/// The mathematical value of a pending request.
pub struct ReqView {
    pub text: Seq<u8>,
    pub sink: usize,
}

impl View for EvalRequest {
    type V = ReqView;

    open spec fn view(&self) -> ReqView {
        ReqView { text: self.text@, sink: self.sink }
    }
}

/// The pending requests, oldest first, behind a fixed capacity bound.
pub struct IntakeQueue {
    items: Vec<EvalRequest>,
    capacity: usize,
}

impl View for IntakeQueue {
    type V = Seq<ReqView>;

    closed spec fn view(&self) -> Seq<ReqView> {
        Seq::new(self.items@.len(), |i: int| self.items@[i]@)
    }
}

impl IntakeQueue {
    /// The capacity the queue was created with.
    pub closed spec fn cap_spec(self) -> usize {
        self.capacity
    }

    /// An empty queue of the given capacity.
    pub fn new(capacity: usize) -> (q: Self)
        ensures
            q@ == Seq::<ReqView>::empty(),
            q.cap_spec() == capacity,
    {
        let q = IntakeQueue { items: Vec::new(), capacity };
        proof {
            assert(q@ =~= Seq::<ReqView>::empty());
        }
        q
    }

    /// How many requests are pending.
    pub fn len(&self) -> (n: usize)
        ensures
            n == self@.len(),
    {
        self.items.len()
    }

    /// The capacity bound.
    pub fn capacity(&self) -> (n: usize)
        ensures
            n == self.cap_spec(),
    {
        self.capacity
    }

    /// Append one request, keeping arrival order; a full queue rejects the
    /// request unchanged, and the submitter suspends and retries instead
    /// of dropping it.
    pub fn try_submit(&mut self, req: EvalRequest) -> (accepted: bool)
        ensures
            final(self).cap_spec() == old(self).cap_spec(),
            old(self)@.len() < old(self).cap_spec() ==> (accepted && final(self)@ == old(self)@.push(
                req@,
            )),
            old(self)@.len() >= old(self).cap_spec() ==> (!accepted && final(self)@ == old(self)@),
    {
        if self.items.len() < self.capacity {
            let ghost prior = self.items@;
            self.items.push(req);
            proof {
                assert(self@ =~= Seq::new(prior.len(), |i: int| prior[i]@).push(req@));
            }
            true
        } else {
            false
        }
    }

    /// Remove and return the oldest pending request; `None` on an empty
    /// queue.
    pub fn dequeue(&mut self) -> (r: Option<EvalRequest>)
        ensures
            final(self).cap_spec() == old(self).cap_spec(),
            old(self)@.len() == 0 ==> (r is None && final(self)@ == old(self)@),
            old(self)@.len() > 0 ==> (r matches Some(front) && front@ == old(self)@[0]
                && final(self)@ == old(self)@.drop_first()),
    {
        if self.items.len() == 0 {
            None
        } else {
            let ghost prior = self.items@;
            let front = self.items.remove(0);
            proof {
                assert(self.items@ =~= prior.drop_first());
                assert(self@ =~= Seq::new(prior.len(), |i: int| prior[i]@).drop_first());
            }
            Some(front)
        }
    }
}

} // verus!
