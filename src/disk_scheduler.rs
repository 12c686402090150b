//! Request queue of the single disk worker.
//!
//! Callers schedule read and write requests and get a ticket back; the
//! worker asks for its next action, carries a request out, and signals its
//! completion. Requests run strictly in the order they were scheduled, one
//! at a time, and once shutdown is requested the worker drains the queue
//! before it is told to stop. Threads and completion channels belong to the
//! caller.
use vstd::prelude::*;

use crate::config::PageId;

verus! {

/// A read or write of one page, with the buffer it fills or writes out.
pub enum DiskRequest {
    Read { page_id: PageId, data: Vec<u8> },
    Write { page_id: PageId, data: Vec<u8> },
}

impl DiskRequest {
    pub open spec fn spec_page_id(&self) -> PageId {
        match self {
            DiskRequest::Read { page_id, .. } => *page_id,
            DiskRequest::Write { page_id, .. } => *page_id,
        }
    }

    /// The page the request is about.
    pub fn page_id(&self) -> (r: PageId)
        ensures
            r == self.spec_page_id(),
    {
        match self {
            DiskRequest::Read { page_id, .. } => *page_id,
            DiskRequest::Write { page_id, .. } => *page_id,
        }
    }
}

/// Reasons a request is not accepted.
#[derive(Clone, Copy, Debug, PartialEq, Eq)]
pub enum ScheduleError {
    /// Shutdown has been requested.
    ShuttingDown,
    /// Every ticket number has been handed out.
    TicketsExhausted,
}

/// What the worker does next.
pub enum WorkerAction {
    /// Carry out `request`, then signal completion of `ticket`.
    Run { ticket: u64, request: DiskRequest },
    /// Block until a request is scheduled or shutdown is requested.
    Wait,
    /// Terminate: shutdown was requested and every request is done.
    Stop,
}

/// FIFO queue of scheduled requests and the completion record of the worker.
pub struct RequestQueue {
    pending: Vec<(u64, DiskRequest)>,
    next_ticket: u64,
    in_flight: Option<u64>,
    completed: u64,
    stopping: bool,
    signaled: Ghost<Seq<u64>>,
}

impl RequestQueue {
    /// Number of tickets handed out so far; they are `0 .. issued()`.
    pub closed spec fn issued(&self) -> nat {
        self.next_ticket as nat
    }

    /// Requests waiting for the worker, oldest first.
    pub closed spec fn pending_requests(&self) -> Seq<DiskRequest> {
        self.pending@.map_values(|e: (u64, DiskRequest)| e.1)
    }

    /// Tickets of the waiting requests, oldest first.
    pub closed spec fn pending_tickets(&self) -> Seq<u64> {
        self.pending@.map_values(|e: (u64, DiskRequest)| e.0)
    }

    /// The ticket the worker is carrying out, if any.
    pub closed spec fn in_flight(&self) -> Option<u64> {
        self.in_flight
    }

    /// Tickets whose completion has been signaled, in signaling order.
    pub closed spec fn signaled(&self) -> Seq<u64> {
        self.signaled@
    }

    pub closed spec fn stopping(&self) -> bool {
        self.stopping
    }

    /// Tickets are signaled in the order they were handed out, then comes
    /// the one in flight, then the pending ones in order.
    pub closed spec fn wf(&self) -> bool {
        &&& self.signaled@ == Seq::new(self.completed as nat, |i: int| i as u64)
        &&& self.in_flight matches Some(t) ==> t == self.completed
        &&& self.completed + (if self.in_flight is Some {
            1int
        } else {
            0int
        }) + self.pending@.len() == self.next_ticket
        &&& forall|i: int|
            0 <= i < self.pending@.len() ==> (#[trigger] self.pending@[i]).0 == self.completed + (
            if self.in_flight is Some {
                1int
            } else {
                0int
            }) + i
    }

    /// What `next_action` guarantees of the queue before (`self`) and after
    /// the call, and of the action `a`: the oldest pending request is handed
    /// out first; with none pending the worker stops once shutdown is
    /// requested and waits otherwise.
    pub open spec fn next_action_post(&self, after: Self, a: WorkerAction) -> bool {
        &&& after.issued() == self.issued()
        &&& after.signaled() == self.signaled()
        &&& after.stopping() == self.stopping()
        &&& if self.pending_requests().len() > 0 {
            &&& a == WorkerAction::Run {
                ticket: self.pending_tickets()[0],
                request: self.pending_requests()[0],
            }
            &&& after.in_flight() == Some(self.pending_tickets()[0])
            &&& after.pending_requests() == self.pending_requests().drop_first()
            &&& after.pending_tickets() == self.pending_tickets().drop_first()
        } else {
            &&& after.in_flight() == self.in_flight()
            &&& after.pending_requests() == self.pending_requests()
            &&& after.pending_tickets() == self.pending_tickets()
            &&& if self.stopping() {
                a is Stop
            } else {
                a is Wait
            }
        }
    }

    /// An empty queue that accepts requests.
    pub fn new() -> (r: Self)
        ensures
            r.wf(),
            r.issued() == 0,
            r.pending_requests() == Seq::<DiskRequest>::empty(),
            r.in_flight() is None,
            r.signaled() == Seq::<u64>::empty(),
            !r.stopping(),
    {
        let r = RequestQueue {
            pending: Vec::new(),
            next_ticket: 0,
            in_flight: None,
            completed: 0,
            stopping: false,
            signaled: Ghost(Seq::empty()),
        };
        assert(r.signaled@ =~= Seq::new(0, |i: int| i as u64));
        r
    }

    /// Queues `request` behind every earlier one and returns its ticket;
    /// refused once shutdown has been requested.
    pub fn schedule(&mut self, request: DiskRequest) -> (r: Result<u64, ScheduleError>)
        requires
            old(self).wf(),
        ensures
            final(self).wf(),
            final(self).stopping() == old(self).stopping(),
            final(self).in_flight() == old(self).in_flight(),
            final(self).signaled() == old(self).signaled(),
            old(self).stopping() ==> r == Err::<u64, ScheduleError>(ScheduleError::ShuttingDown),
            !old(self).stopping() && old(self).issued() == u64::MAX ==> r == Err::<
                u64,
                ScheduleError,
            >(ScheduleError::TicketsExhausted),
            r is Err ==> {
                &&& final(self).issued() == old(self).issued()
                &&& final(self).pending_requests() == old(self).pending_requests()
                &&& final(self).pending_tickets() == old(self).pending_tickets()
            },
            !old(self).stopping() && old(self).issued() < u64::MAX ==> {
                &&& r == Ok::<u64, ScheduleError>(old(self).issued() as u64)
                &&& final(self).issued() == old(self).issued() + 1
                &&& final(self).pending_requests() == old(self).pending_requests().push(request)
                &&& final(self).pending_tickets() == old(self).pending_tickets().push(
                    old(self).issued() as u64,
                )
            },
    {
        if self.stopping {
            return Err(ScheduleError::ShuttingDown);
        }
        if self.next_ticket == u64::MAX {
            return Err(ScheduleError::TicketsExhausted);
        }
        let ticket = self.next_ticket;
        let ghost prev = self.pending@;
        self.pending.push((ticket, request));
        self.next_ticket = ticket + 1;
        assert(self.pending_requests() =~= prev.map_values(|e: (u64, DiskRequest)| e.1).push(
            request,
        ));
        assert(self.pending_tickets() =~= prev.map_values(|e: (u64, DiskRequest)| e.0).push(
            ticket,
        ));
        Ok(ticket)
    }

    /// Requests shutdown: no request is accepted afterwards, and the worker
    /// stops once the queue is drained.
    pub fn shutdown(&mut self)
        requires
            old(self).wf(),
        ensures
            final(self).wf(),
            final(self).stopping(),
            final(self).issued() == old(self).issued(),
            final(self).in_flight() == old(self).in_flight(),
            final(self).signaled() == old(self).signaled(),
            final(self).pending_requests() == old(self).pending_requests(),
            final(self).pending_tickets() == old(self).pending_tickets(),
    {
        self.stopping = true;
    }

    /// The worker's next step; called when no request is in flight.
    pub fn next_action(&mut self) -> (a: WorkerAction)
        requires
            old(self).wf(),
            old(self).in_flight() is None,
        ensures
            final(self).wf(),
            old(self).next_action_post(*final(self), a),
    {
        if self.pending.len() == 0 {
            if self.stopping {
                return WorkerAction::Stop;
            } else {
                return WorkerAction::Wait;
            }
        }
        let ghost prev = self.pending@;
        let (ticket, request) = self.pending.remove(0);
        self.in_flight = Some(ticket);
        assert(self.pending_requests() =~= prev.map_values(
            |e: (u64, DiskRequest)| e.1,
        ).drop_first());
        assert(self.pending_tickets() =~= prev.map_values(
            |e: (u64, DiskRequest)| e.0,
        ).drop_first());
        assert forall|i: int| 0 <= i < self.pending@.len() implies (#[trigger] self.pending@[i]).0
            == self.completed + 1 + i by {
            assert(self.pending@[i] == prev[i + 1]);
        }
        WorkerAction::Run { ticket, request }
    }

    /// Signals completion of the request in flight, whose ticket is `ticket`.
    pub fn complete(&mut self, ticket: u64)
        requires
            old(self).wf(),
            old(self).in_flight() == Some(ticket),
        ensures
            final(self).wf(),
            final(self).in_flight() is None,
            final(self).signaled() == old(self).signaled().push(ticket),
            final(self).issued() == old(self).issued(),
            final(self).stopping() == old(self).stopping(),
            final(self).pending_requests() == old(self).pending_requests(),
            final(self).pending_tickets() == old(self).pending_tickets(),
    {
        let ghost prev = self.signaled@;
        self.in_flight = None;
        self.completed = self.completed + 1;
        self.signaled = Ghost(prev.push(ticket));
        assert(self.signaled@ =~= Seq::new(self.completed as nat, |i: int| i as u64));
    }

    /// Whether a request is being carried out.
    pub fn is_busy(&self) -> (r: bool)
        ensures
            r == self.in_flight() is Some,
    {
        self.in_flight.is_some()
    }
}

/// When the worker is told to stop, every ticket handed out has been
/// signaled exactly once, in the order the tickets were handed out, and
/// shutdown had been requested.
pub proof fn lemma_stop_after_every_completion(
    before: RequestQueue,
    after: RequestQueue,
    a: WorkerAction,
)
    requires
        before.wf(),
        before.in_flight() is None,
        before.next_action_post(after, a),
        a is Stop,
    ensures
        before.stopping(),
        after.signaled().len() == after.issued(),
        forall|t: int| 0 <= t < after.issued() ==> after.signaled()[t] == t,
{
}

} // verus!
