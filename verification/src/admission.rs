//! Admission control: a ledger of permits that grants requests for several
//! permits at once, in the order in which they were made.

use vstd::prelude::*;

verus! {

/// One request that waits for its permits.
#[derive(Clone, Copy, Debug, PartialEq, Eq, Structural)]
pub struct Waiter {
    /// What the request is known by.
    pub ticket: u64,
    /// How many permits it asks for.
    pub permits: usize,
}

/// A ledger of permits: how many there are, how many are out, and who waits.
pub struct Semaphore {
    capacity: usize,
    held: usize,
    next_ticket: u64,
    waiting: Vec<Waiter>,
}

/// What a `Semaphore` stands for in contracts.
pub struct SemaphoreView {
    pub capacity: nat,
    pub held: nat,
    pub next_ticket: u64,
    pub waiting: Seq<Waiter>,
}

impl View for Semaphore {
    type V = SemaphoreView;

    closed spec fn view(&self) -> SemaphoreView {
        SemaphoreView {
            capacity: self.capacity as nat,
            held: self.held as nat,
            next_ticket: self.next_ticket,
            waiting: self.waiting@,
        }
    }
}

/// The index of the first waiter with `ticket`, or the length of the queue
/// where nobody has it.
pub open spec fn position_of(waiting: Seq<Waiter>, ticket: u64) -> int
    decreases waiting.len(),
{
    if waiting.len() == 0 {
        0
    } else if waiting.first().ticket == ticket {
        0
    } else {
        1 + position_of(waiting.drop_first(), ticket)
    }
}

/// The ticket that follows `ticket`; after the last one the count starts over.
pub open spec fn ticket_after(ticket: u64) -> u64 {
    if ticket == u64::MAX {
        0
    } else {
        (ticket + 1) as u64
    }
}

impl Semaphore {
    /// No more permits are out than there are. Every ledger that `new` made
    /// is well formed, and stays so under every function of this type.
    pub open spec fn well_formed(&self) -> bool {
        self@.held <= self@.capacity
    }

    /// A ledger of `capacity` permits, none of them out, nobody waiting.
    pub fn new(capacity: usize) -> (ledger: Semaphore)
        ensures
            ledger.well_formed(),
            ledger@ == (SemaphoreView {
                capacity: capacity as nat,
                held: 0,
                next_ticket: 0,
                waiting: Seq::empty(),
            }),
    {
        Semaphore { capacity, held: 0, next_ticket: 0, waiting: Vec::new() }
    }

    /// How many permits there are.
    pub fn capacity(&self) -> (capacity: usize)
        ensures
            capacity == self@.capacity,
    {
        self.capacity
    }

    /// How many permits are out.
    pub fn held(&self) -> (held: usize)
        ensures
            held == self@.held,
    {
        self.held
    }

    /// How many requests wait.
    pub fn waiting(&self) -> (count: usize)
        ensures
            count == self@.waiting.len(),
    {
        self.waiting.len()
    }

    /// Queues a request for `permits` permits behind those that wait already.
    /// Returns its ticket.
    pub fn request(&mut self, permits: usize) -> (ticket: u64)
        requires
            old(self).well_formed(),
        ensures
            final(self).well_formed(),
            ticket == old(self)@.next_ticket,
            final(self)@ == ledger_step(old(self)@, LedgerOp::Request(permits)),
    {
        let ticket: u64 = self.next_ticket;
        self.next_ticket = if ticket == u64::MAX { 0 } else { ticket + 1 };
        self.waiting.push(Waiter { ticket, permits });
        ticket
    }

    /// Grants the request at the head of the queue if the permits that are
    /// left cover it: it leaves the queue and its permits go out. Nobody
    /// overtakes the head: while it does not fit, nothing is granted.
    pub fn grant(&mut self) -> (granted: Option<Waiter>)
        requires
            old(self).well_formed(),
        ensures
            final(self).well_formed(),
            final(self)@ == ledger_step(old(self)@, LedgerOp::Grant),
            granted == (if old(self)@.waiting.len() > 0 && old(self)@.waiting[0].permits <= old(
                self,
            )@.capacity - old(self)@.held {
                Some(old(self)@.waiting[0])
            } else {
                None
            }),
    {
        if self.waiting.len() == 0 {
            return None;
        }
        let head: Waiter = self.waiting[0];
        if head.permits > self.capacity - self.held {
            return None;
        }
        let _ = self.waiting.remove(0);
        self.held = self.held + head.permits;
        proof {
            assert(self.waiting@ =~= old(self)@.waiting.drop_first());
        }
        Some(head)
    }

    /// Takes back `permits` permits, or all that are out where fewer are.
    pub fn release(&mut self, permits: usize)
        requires
            old(self).well_formed(),
        ensures
            final(self).well_formed(),
            final(self)@ == ledger_step(old(self)@, LedgerOp::Release(permits)),
    {
        self.held = if permits <= self.held { self.held - permits } else { 0 };
    }

    /// Takes the first request with `ticket` out of the queue, if it waits
    /// there. Says whether it did.
    pub fn cancel(&mut self, ticket: u64) -> (found: bool)
        requires
            old(self).well_formed(),
        ensures
            final(self).well_formed(),
            found == (position_of(old(self)@.waiting, ticket) < old(self)@.waiting.len()),
            final(self)@ == ledger_step(old(self)@, LedgerOp::Cancel(ticket)),
    {
        let ghost all = self.waiting@;
        let mut i: usize = 0;
        proof {
            assert(all.skip(0) =~= all);
        }
        while i < self.waiting.len() && self.waiting[i].ticket != ticket
            invariant
                i <= self.waiting.len(),
                self.waiting@ == all,
                *self == *old(self),
                position_of(all, ticket) == i + position_of(all.skip(i as int), ticket),
            decreases self.waiting.len() - i,
        {
            proof {
                assert(all.skip(i as int).first() == all[i as int]);
                assert(all.skip(i as int).drop_first() =~= all.skip(i + 1));
            }
            i += 1;
        }
        proof {
            if i < all.len() {
                assert(all.skip(i as int).first() == all[i as int]);
            } else {
                assert(all.skip(i as int).len() == 0);
            }
        }
        let found: bool = i < self.waiting.len();
        if found {
            let _ = self.waiting.remove(i);
        }
        found
    }
}

/// One thing that is done with a ledger.
pub enum LedgerOp {
    /// A request for so many permits joins the queue.
    Request(usize),
    /// The head of the queue is granted its permits, if they are there.
    Grant,
    /// So many permits come back.
    Release(usize),
    /// The request with this ticket leaves the queue.
    Cancel(u64),
}

/// The ledger after one thing is done with it.
pub open spec fn ledger_step(ledger: SemaphoreView, op: LedgerOp) -> SemaphoreView {
    match op {
        LedgerOp::Request(permits) => SemaphoreView {
            next_ticket: ticket_after(ledger.next_ticket),
            waiting: ledger.waiting.push(Waiter { ticket: ledger.next_ticket, permits }),
            ..ledger
        },
        LedgerOp::Grant => if ledger.waiting.len() > 0 && ledger.waiting[0].permits
            <= ledger.capacity - ledger.held {
            SemaphoreView {
                held: (ledger.held + ledger.waiting[0].permits) as nat,
                waiting: ledger.waiting.drop_first(),
                ..ledger
            }
        } else {
            ledger
        },
        LedgerOp::Release(permits) => SemaphoreView {
            held: if permits <= ledger.held {
                (ledger.held - permits) as nat
            } else {
                0
            },
            ..ledger
        },
        LedgerOp::Cancel(ticket) => if position_of(ledger.waiting, ticket) < ledger.waiting.len() {
            SemaphoreView {
                waiting: ledger.waiting.remove(position_of(ledger.waiting, ticket)),
                ..ledger
            }
        } else {
            ledger
        },
    }
}

/// The ledger after a run of things is done with it, one after the other.
pub open spec fn ledger_run(ledger: SemaphoreView, ops: Seq<LedgerOp>) -> SemaphoreView
    decreases ops.len(),
{
    if ops.len() == 0 {
        ledger
    } else {
        ledger_step(ledger_run(ledger, ops.drop_last()), ops.last())
    }
}

/// Whatever is asked of it and in whatever order, a ledger of `capacity`
/// permits never has more than `capacity` of them out, and its capacity
/// never changes: requests beyond what is left wait in the queue.
pub proof fn law_never_over_capacity(capacity: nat, ops: Seq<LedgerOp>)
    ensures
        ledger_run(
            SemaphoreView { capacity, held: 0, next_ticket: 0, waiting: Seq::empty() },
            ops,
        ).held <= capacity,
        ledger_run(
            SemaphoreView { capacity, held: 0, next_ticket: 0, waiting: Seq::empty() },
            ops,
        ).capacity == capacity,
    decreases ops.len(),
{
    if ops.len() > 0 {
        law_never_over_capacity(capacity, ops.drop_last());
    }
}

/// A request that asks for no more than the capacity is granted once it is
/// at the head of the queue and every permit is back.
pub proof fn law_head_is_granted_when_idle(ledger: SemaphoreView)
    requires
        ledger.held == 0,
        ledger.waiting.len() > 0,
        ledger.waiting[0].permits <= ledger.capacity,
    ensures
        ledger_step(ledger, LedgerOp::Grant).held == ledger.waiting[0].permits,
        ledger_step(ledger, LedgerOp::Grant).waiting == ledger.waiting.drop_first(),
{
}

} // verus!
