//! The wait/poll primitive that turns "has event `key` happened for
//! peripheral `id` since `baseline`" into a decision a blocking caller can
//! act on.
//!
//! The caller records a baseline timestamp immediately before issuing the
//! triggering request, then repeatedly polls: a stamp strictly newer than
//! the baseline means success, a missing record means the peripheral is
//! unknown or has disconnected, and an expired deadline means timeout.
//! Comparing against the baseline lets a second wait on the same key tell a
//! fresh occurrence from a stale one without one-shot signal objects.  The
//! sleeping between polls happens outside this crate; only the decision is
//! made here.

use vstd::prelude::*;

use crate::keys::EventKey;
use crate::record::PeripheralRecord;
use crate::registry::PeripheralRegistry;

verus! {

/// Why a wait ended without the awaited event.
///
/// A native-stack failure is never surfaced here: the normalizer drops the
/// failed step's stamp, so the waiter runs into `Timeout` instead.  The two
/// causes are indistinguishable to the caller.
#[derive(Clone, Copy, PartialEq, Eq, Structural, Debug)]
pub enum BridgeError {
    /// No record exists for the peripheral: never observed, or disconnected.
    NotFound,
    /// The awaited event did not occur before the deadline.
    Timeout,
}

/// One poll's verdict.
#[derive(Clone, Copy, PartialEq, Eq, Structural, Debug)]
pub enum WaitStep {
    /// The event was stamped strictly after the baseline; carries the stamp.
    Ready(u64),
    /// The wait is over without the event: the record is gone or the
    /// deadline has passed.
    Failed(BridgeError),
    /// Nothing decisive yet: release the registry and poll again later.
    Pending,
}

/// The verdict a poll must reach on the given registry state at time `now`:
/// absent record first, then a fresh-enough stamp, then the deadline.
pub open spec fn wait_outcome(
    reg: Map<u64, PeripheralRecord>,
    id: u64,
    key: EventKey,
    baseline: u64,
    now: u64,
    deadline: u64,
) -> WaitStep {
    if !reg.contains_key(id) {
        WaitStep::Failed(BridgeError::NotFound)
    } else if reg[id].events@.contains_key(key) && reg[id].events@[key] > baseline {
        WaitStep::Ready(reg[id].events@[key])
    } else if now >= deadline {
        WaitStep::Failed(BridgeError::Timeout)
    } else {
        WaitStep::Pending
    }
}

/// Decides one round of waiting for `key` on `id`: exactly the verdict of
/// [`wait_outcome`] on the registry's current state.
pub fn poll_wait(
    reg: &PeripheralRegistry,
    id: u64,
    key: EventKey,
    baseline: u64,
    now: u64,
    deadline: u64,
) -> (r: WaitStep)
    requires
        reg.wf(),
    ensures
        r == wait_outcome(reg@, id, key, baseline, now, deadline),
{
    match reg.get(id) {
        None => WaitStep::Failed(BridgeError::NotFound),
        Some(rec) => {
            proof {
                reg.lemma_wf();
            }
            let stamped = rec.events.get(key);
            match stamped {
                Some(t) => {
                    if t > baseline {
                        WaitStep::Ready(t)
                    } else if now >= deadline {
                        WaitStep::Failed(BridgeError::Timeout)
                    } else {
                        WaitStep::Pending
                    }
                },
                None => {
                    if now >= deadline {
                        WaitStep::Failed(BridgeError::Timeout)
                    } else {
                        WaitStep::Pending
                    }
                },
            }
        },
    }
}

/// The instant a wait started plus its allowance, capped at the largest
/// representable time so a huge allowance still gives a valid deadline.
pub fn deadline_after(start: u64, timeout: u64) -> (r: u64)
    ensures
        r == if start + timeout <= u64::MAX {
            (start + timeout) as int
        } else {
            u64::MAX as int
        },
        r >= start,
{
    if timeout <= u64::MAX - start {
        start + timeout
    } else {
        u64::MAX
    }
}

} // verus!
