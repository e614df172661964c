//! Decisions of the per-guest event-loop pump.
//!
//! The worker that owns a guest's interpreter runs rounds: it drains the
//! guest's jobs, fires timers, services outward queues and then looks at the
//! responses the guest wrote. What it does after each round is decided here.

use vstd::prelude::*;

verus! {

/// Rounds the pump runs for one work item before giving up on it.
pub const ITERATION_CAP: u32 = 10000;

/// Job rounds run right after a guest starts, so that an asynchronous main
/// routine can arm its first `readLine` before any work arrives.
pub const STARTUP_ROUNDS: u32 = 1000;

/// Message of the error returned when a work item exhausts its rounds.
pub fn timeout_message() -> (r: String)
    ensures
        r@ == "Timeout waiting for server response"@,
{
    String::from_str("Timeout waiting for server response")
}

/// What the pump does after one round for the current work item.
#[derive(Debug)]
pub enum PumpStep {
    /// The guest answered: this text (the last line it wrote) is the reply.
    Reply(String),
    /// Nothing yet: sleep briefly and run another round.
    Again,
    /// The round budget is spent: reply with the timeout error. The guest
    /// stays alive for later work items.
    TimedOut,
}

/// Round accounting for one work item.
pub struct ItemPump {
    pub rounds: u32,
    pub cap: u32,
}

impl ItemPump {
    pub open spec fn wf(&self) -> bool {
        self.rounds < self.cap
    }

    /// A fresh budget of `cap` rounds.
    pub fn new(cap: u32) -> (r: ItemPump)
        requires
            cap > 0,
        ensures
            r.rounds == 0,
            r.cap == cap,
            r.wf(),
    {
        ItemPump { rounds: 0, cap }
    }

    /// Decides after a round, given the lines the guest wrote during it (in
    /// the order written). The last line wins; earlier ones are discarded.
    pub fn after_round(&mut self, drained: Vec<String>) -> (r: PumpStep)
        requires
            old(self).wf(),
        ensures
            final(self).cap == old(self).cap,
            final(self).rounds == old(self).rounds + 1 || final(self).rounds == old(self).rounds,
            drained@.len() > 0 ==> r == PumpStep::Reply(drained@.last()),
            drained@.len() == 0 && old(self).rounds + 1 >= old(self).cap ==> r == PumpStep::TimedOut,
            drained@.len() == 0 && old(self).rounds + 1 < old(self).cap ==> r == PumpStep::Again
                && final(self).rounds == old(self).rounds + 1 && final(self).wf(),
    {
        let mut drained = drained;
        let n = drained.len();
        if n > 0 {
            let last = drained.remove(n - 1);
            return PumpStep::Reply(last);
        }
        if self.rounds + 1 >= self.cap {
            PumpStep::TimedOut
        } else {
            self.rounds = self.rounds + 1;
            PumpStep::Again
        }
    }
}

/// Whether the startup pump runs one more job: it stops at the first round
/// with no pending job, after a job error, or after `STARTUP_ROUNDS` rounds.
pub fn startup_continues(rounds_done: u32, job_pending: bool, last_job_failed: bool) -> (r: bool)
    ensures
        r == (rounds_done < STARTUP_ROUNDS && job_pending && !last_job_failed),
{
    rounds_done < STARTUP_ROUNDS && job_pending && !last_job_failed
}

/// A guest's inbox: work items wait in submission order and at most one is
/// in flight at a time. The ghost logs record every item submitted and every
/// item served, in order.
pub struct Inbox<T> {
    pub items: Vec<T>,
    pub busy: bool,
    pub submitted: Ghost<Seq<T>>,
    pub served: Ghost<Seq<T>>,
}

impl<T> Inbox<T> {
    /// What was served, followed by what still waits, is what was submitted.
    pub open spec fn wf(&self) -> bool {
        self.served@ + self.items@ == self.submitted@
    }

    /// An empty inbox with nothing in flight.
    pub fn new() -> (r: Inbox<T>)
        ensures
            r.wf(),
            r.items@.len() == 0,
            r.submitted@.len() == 0,
            r.served@.len() == 0,
            !r.busy,
    {
        let r = Inbox { items: Vec::new(), busy: false, submitted: Ghost(Seq::empty()), served: Ghost(Seq::empty()) };
        assert(r.served@ + r.items@ =~= r.submitted@);
        r
    }

    /// Queues a work item behind those already waiting.
    pub fn submit(&mut self, item: T)
        requires
            old(self).wf(),
        ensures
            final(self).wf(),
            final(self).items@ == old(self).items@.push(item),
            final(self).submitted@ == old(self).submitted@.push(item),
            final(self).served == old(self).served,
            final(self).busy == old(self).busy,
    {
        let ghost g = item;
        self.items.push(item);
        self.submitted = Ghost(self.submitted@.push(g));
        assert(self.served@ + self.items@ =~= self.submitted@);
    }

    /// Starts the oldest waiting item, unless one is already in flight or
    /// none waits. The item started is the next one in submission order.
    pub fn serve(&mut self) -> (r: Option<T>)
        requires
            old(self).wf(),
        ensures
            final(self).wf(),
            final(self).submitted == old(self).submitted,
            !old(self).busy && old(self).items@.len() > 0 ==> {
                &&& r == Some(old(self).items@[0])
                &&& r == Some(old(self).submitted@[old(self).served@.len() as int])
                &&& final(self).items@ == old(self).items@.drop_first()
                &&& final(self).served@ == old(self).served@.push(old(self).items@[0])
                &&& final(self).busy
            },
            old(self).busy || old(self).items@.len() == 0 ==> r.is_none() && *final(self) == *old(self),
    {
        if self.busy || self.items.len() == 0 {
            None
        } else {
            let item = self.items.remove(0);
            self.busy = true;
            self.served = Ghost(self.served@.push(item));
            assert(old(self).items@.remove(0) =~= old(self).items@.drop_first());
            assert(self.served@ + self.items@ =~= self.submitted@);
            assert(old(self).submitted@[old(self).served@.len() as int] == old(self).items@[0]);
            Some(item)
        }
    }

    /// Marks the item in flight as answered.
    pub fn finish(&mut self)
        requires
            old(self).wf(),
        ensures
            final(self).wf(),
            final(self).items@ == old(self).items@,
            final(self).submitted == old(self).submitted,
            final(self).served == old(self).served,
            !final(self).busy,
    {
        self.busy = false;
    }
}

/// Work items to one guest are served strictly in submission order: in
/// every reachable state of an inbox, the items served so far are exactly
/// the first items submitted, in the same order, so replies emerge in that
/// order.
pub proof fn inbox_serves_in_submission_order<T>(inbox: &Inbox<T>)
    requires
        inbox.wf(),
    ensures
        inbox.served@.len() <= inbox.submitted@.len(),
        inbox.served@ == inbox.submitted@.subrange(0, inbox.served@.len() as int),
{
    assert(inbox.submitted@.subrange(0, inbox.served@.len() as int) =~= inbox.served@);
}

} // verus!
