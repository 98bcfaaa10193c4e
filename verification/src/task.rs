use vstd::prelude::*;

use crate::model::{can_live, died_spec, live_spec, IpDetail, IpDetailView};

verus! {

/// Verification rounds between two scheduled crawls (ten minutes apart, so
/// about twelve hours).
pub const RECRAWL_ROUNDS: u32 = 72;

/// Failed checks in a row after which a proxy is removed on its next failure.
pub const MAX_FAILED_CHECKS: u32 = 10;

/// The schedule of the background task: every round first crawls when due,
/// then checks every stored proxy.
pub struct TaskCycle {
    rounds_since_crawl: u32,
}

impl View for TaskCycle {
    type V = nat;

    /// Verification rounds since the last crawl.
    closed spec fn view(&self) -> nat {
        self.rounds_since_crawl as nat
    }
}

/// A crawl is due: at the schedule (every `RECRAWL_ROUNDS` rounds) or
/// whenever the pool is empty.
pub open spec fn crawl_due(rounds_since_crawl: nat, stored_ips: nat) -> bool {
    rounds_since_crawl % (RECRAWL_ROUNDS as nat) == 0 || stored_ips == 0
}

impl TaskCycle {
    #[verifier::type_invariant]
    spec fn bounded(&self) -> bool {
        self.rounds_since_crawl <= RECRAWL_ROUNDS
    }

    /// The schedule when the task starts: a crawl is due.
    pub fn new() -> (r: Self)
        ensures
            r@ == 0,
    {
        TaskCycle { rounds_since_crawl: 0 }
    }

    /// Whether the schedule alone makes a crawl due this round, whatever is
    /// stored.
    pub fn scheduled(&self) -> (b: bool)
        ensures
            b == (self@ % (RECRAWL_ROUNDS as nat) == 0),
    {
        self.rounds_since_crawl % RECRAWL_ROUNDS == 0
    }

    /// Starts a round while `stored_ips` proxies are stored: whether to crawl
    /// first; a crawl restarts the count.
    pub fn begin_round(&mut self, stored_ips: usize) -> (crawl: bool)
        ensures
            crawl == crawl_due(old(self)@, stored_ips as nat),
            final(self)@ == if crawl {
                0
            } else {
                old(self)@
            },
            final(self)@ < RECRAWL_ROUNDS,
    {
        proof {
            use_type_invariant(&*self);
        }
        let crawl = self.rounds_since_crawl % RECRAWL_ROUNDS == 0 || stored_ips == 0;
        if crawl {
            self.rounds_since_crawl = 0;
        }
        crawl
    }

    /// Ends a round after the proxies were checked.
    pub fn end_round(&mut self)
        requires
            old(self)@ < RECRAWL_ROUNDS,
        ensures
            final(self)@ == old(self)@ + 1,
    {
        self.rounds_since_crawl = self.rounds_since_crawl + 1;
    }
}

/// What a check of a stored proxy leads to.
pub enum VerifyAction {
    /// Store the proxy again, updated.
    Store(IpDetail),
    /// Remove the proxy from the pool.
    Remove(IpDetail),
}

/// The proxy kept after checking `d` (alive or not); none when it is
/// removed: alive proxies are marked alive, dead ones marked dead while they
/// have failed fewer than `MAX_FAILED_CHECKS` checks in a row, and removed
/// after that.
pub open spec fn verify_outcome_spec(d: IpDetailView, alive: bool) -> Option<IpDetailView> {
    if alive {
        Some(live_spec(d))
    } else if d.die_verify_count < MAX_FAILED_CHECKS {
        Some(died_spec(d))
    } else {
        None
    }
}

/// The action after checking the stored proxy `d`, found `alive` or not.
pub fn verify_outcome(d: IpDetail, alive: bool) -> (r: VerifyAction)
    requires
        alive ==> can_live(d@),
    ensures
        match r {
            VerifyAction::Store(x) => verify_outcome_spec(d@, alive) == Some(x@),
            VerifyAction::Remove(x) => verify_outcome_spec(d@, alive) is None && x@ == d@,
        },
{
    if alive {
        VerifyAction::Store(d.live())
    } else if d.die_verify_count < MAX_FAILED_CHECKS {
        VerifyAction::Store(d.died())
    } else {
        VerifyAction::Remove(d)
    }
}

} // verus!
