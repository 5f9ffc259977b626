//! The interface claimer: a bounded-retry state machine for acquiring
//! exclusive access to the device's single USB interface.
//!
//! One invocation starts in `Attempting` with a full retry budget.  Each
//! claim attempt yields an outcome: `Acquired` ends the machine successfully;
//! `Busy` (another process transiently holds the interface) consumes one
//! retry, or fails with the busy fault once the budget is exhausted; any
//! other fault fails immediately without consuming retries.  The caller
//! performs the actual claim call and the fixed delay between attempts; the
//! machine only decides.

use vstd::prelude::*;

use crate::error::UsbFault;

verus! {

/// How many times a busy claim is retried after the first attempt.  Together
/// with the fixed delay this gives concurrent short-lived invocations about a
/// second to serialize access to the interface.
pub const BUSY_RETRY_ATTEMPTS: u8 = 20;

/// Fixed delay between claim attempts, in milliseconds.
pub const BUSY_RETRY_DELAY_MS: u64 = 50;

/// The result of one claim attempt, as reported by the transport adapter.
#[derive(Debug, Clone, Copy, PartialEq, Eq, Structural)]
pub enum ClaimOutcome {
    /// The interface was claimed.
    Acquired,
    /// Another process currently holds the interface; retryable.
    Busy,
    /// Any other claim failure; not retryable.
    Fatal(UsbFault),
}

/// The claimer's state.
#[derive(Debug, Clone, Copy, PartialEq, Eq, Structural)]
pub enum ClaimState {
    /// Still trying; `retries_left` busy outcomes may still be absorbed.
    Attempting { retries_left: u8 },
    /// The interface is held.
    Acquired,
    /// The claim failed for good, with the last fault seen.
    Failed { fault: UsbFault },
}

impl ClaimState {
    /// Whether the machine has stopped; terminal states absorb every further
    /// outcome.
    pub open spec fn is_terminal(self) -> bool {
        !(self is Attempting)
    }
}

/// One transition of the claim state machine.
pub open spec fn spec_claim_step(s: ClaimState, o: ClaimOutcome) -> ClaimState {
    match s {
        ClaimState::Attempting { retries_left } => match o {
            ClaimOutcome::Acquired => ClaimState::Acquired,
            ClaimOutcome::Busy => if retries_left > 0 {
                ClaimState::Attempting { retries_left: (retries_left - 1) as u8 }
            } else {
                ClaimState::Failed { fault: UsbFault::Busy }
            },
            ClaimOutcome::Fatal(fault) => ClaimState::Failed { fault },
        },
        _ => s,
    }
}

/// The state after feeding a whole sequence of outcomes, first outcome first.
pub open spec fn spec_run_claimer(s: ClaimState, outcomes: Seq<ClaimOutcome>) -> ClaimState
    decreases outcomes.len(),
{
    if outcomes.len() == 0 {
        s
    } else {
        spec_run_claimer(spec_claim_step(s, outcomes[0]), outcomes.skip(1))
    }
}

/// The state every invocation starts in: attempting, with the full retry
/// budget.
pub fn initial_claim_state() -> (r: ClaimState)
    ensures
        r == (ClaimState::Attempting { retries_left: BUSY_RETRY_ATTEMPTS }),
{
    ClaimState::Attempting { retries_left: BUSY_RETRY_ATTEMPTS }
}

/// Drive the machine one step on the outcome of a claim attempt.
pub fn claim_step(s: ClaimState, o: ClaimOutcome) -> (r: ClaimState)
    ensures
        r == spec_claim_step(s, o),
{
    match s {
        ClaimState::Attempting { retries_left } => match o {
            ClaimOutcome::Acquired => ClaimState::Acquired,
            ClaimOutcome::Busy => if retries_left > 0 {
                ClaimState::Attempting { retries_left: retries_left - 1 }
            } else {
                ClaimState::Failed { fault: UsbFault::Busy }
            },
            ClaimOutcome::Fatal(fault) => ClaimState::Failed { fault },
        },
        _ => s,
    }
}

/// A terminal state absorbs every further outcome.
pub proof fn lemma_terminal_absorbs(s: ClaimState, outcomes: Seq<ClaimOutcome>)
    requires
        s.is_terminal(),
    ensures
        spec_run_claimer(s, outcomes) == s,
    decreases outcomes.len(),
{
    if outcomes.len() > 0 {
        lemma_terminal_absorbs(s, outcomes.skip(1));
    }
}

/// Running two sequences in turn is running their concatenation.
pub proof fn lemma_run_claimer_concat(s: ClaimState, a: Seq<ClaimOutcome>, b: Seq<ClaimOutcome>)
    ensures
        spec_run_claimer(s, a + b) == spec_run_claimer(spec_run_claimer(s, a), b),
    decreases a.len(),
{
    if a.len() == 0 {
        assert(a + b =~= b);
    } else {
        assert((a + b).skip(1) =~= a.skip(1) + b);
        lemma_run_claimer_concat(spec_claim_step(s, a[0]), a.skip(1), b);
    }
}

/// Busy outcomes within the retry budget only count down the budget.
pub proof fn lemma_busy_counts_down(n: u8, k: nat)
    requires
        k <= n,
    ensures
        spec_run_claimer(
            ClaimState::Attempting { retries_left: n },
            Seq::new(k, |i: int| ClaimOutcome::Busy),
        ) == (ClaimState::Attempting { retries_left: (n - k) as u8 }),
    decreases k,
{
    let busies = Seq::new(k, |i: int| ClaimOutcome::Busy);
    if k > 0 {
        assert(busies.skip(1) =~= Seq::new((k - 1) as nat, |i: int| ClaimOutcome::Busy));
        lemma_busy_counts_down((n - 1) as u8, (k - 1) as nat);
    }
}

/// A run of busy outcomes no longer than the retry budget, followed by a
/// successful attempt, ends in `Acquired`.
pub proof fn lemma_busy_then_acquired(n: u8, k: nat)
    requires
        k <= n,
    ensures
        spec_run_claimer(
            ClaimState::Attempting { retries_left: n },
            Seq::new(k, |i: int| ClaimOutcome::Busy).push(ClaimOutcome::Acquired),
        ) == ClaimState::Acquired,
{
    let busies = Seq::new(k, |i: int| ClaimOutcome::Busy);
    let tail = seq![ClaimOutcome::Acquired];
    let all = busies.push(ClaimOutcome::Acquired);
    assert(all =~= busies + tail);
    lemma_run_claimer_concat(ClaimState::Attempting { retries_left: n }, busies, tail);
    lemma_busy_counts_down(n, k);
    let mid = ClaimState::Attempting { retries_left: (n - k) as u8 };
    assert(spec_run_claimer(mid, tail) == spec_run_claimer(ClaimState::Acquired, tail.skip(1)));
    lemma_terminal_absorbs(ClaimState::Acquired, tail.skip(1));
}

/// Busy outcomes beyond the retry budget end in `Failed` carrying the busy
/// fault, however many more follow.
pub proof fn lemma_all_busy_fails(n: u8, k: nat)
    requires
        k > n,
    ensures
        spec_run_claimer(
            ClaimState::Attempting { retries_left: n },
            Seq::new(k, |i: int| ClaimOutcome::Busy),
        ) == (ClaimState::Failed { fault: UsbFault::Busy }),
{
    let busies = Seq::new(k, |i: int| ClaimOutcome::Busy);
    let prefix = Seq::new(n as nat, |i: int| ClaimOutcome::Busy);
    let rest = Seq::new((k - n) as nat, |i: int| ClaimOutcome::Busy);
    assert(busies =~= prefix + rest);
    lemma_run_claimer_concat(ClaimState::Attempting { retries_left: n }, prefix, rest);
    lemma_busy_counts_down(n, n as nat);
    assert(rest[0] == ClaimOutcome::Busy);
    lemma_terminal_absorbs(ClaimState::Failed { fault: UsbFault::Busy }, rest.skip(1));
}

/// Any non-busy fault short-circuits to `Failed` immediately: after busy
/// outcomes within the budget, one fatal outcome decides the run, whatever
/// follows.
pub proof fn lemma_fatal_short_circuits(
    n: u8,
    k: nat,
    fault: UsbFault,
    rest: Seq<ClaimOutcome>,
)
    requires
        k <= n,
    ensures
        spec_run_claimer(
            ClaimState::Attempting { retries_left: n },
            Seq::new(k, |i: int| ClaimOutcome::Busy) + seq![ClaimOutcome::Fatal(fault)] + rest,
        ) == (ClaimState::Failed { fault }),
{
    let busies = Seq::new(k, |i: int| ClaimOutcome::Busy);
    let fatal = seq![ClaimOutcome::Fatal(fault)];
    lemma_run_claimer_concat(ClaimState::Attempting { retries_left: n }, busies + fatal, rest);
    lemma_run_claimer_concat(ClaimState::Attempting { retries_left: n }, busies, fatal);
    lemma_busy_counts_down(n, k);
    let mid = ClaimState::Attempting { retries_left: (n - k) as u8 };
    assert(spec_run_claimer(mid, fatal) == spec_run_claimer(
        ClaimState::Failed { fault },
        fatal.skip(1),
    ));
    lemma_terminal_absorbs(ClaimState::Failed { fault }, fatal.skip(1));
    lemma_terminal_absorbs(ClaimState::Failed { fault }, rest);
}

} // verus!
