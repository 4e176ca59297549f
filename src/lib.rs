// Decisions of a job dispatch subsystem, kept apart from the runtime that
// carries them out: the free-slot budget and the jittered backoff, the
// dispatch loop that keeps a worker pool busy, and the Reject-Delivery job
// that delivers before it deletes.
use vstd::prelude::*;

pub mod budget;
pub mod dispatch;
pub mod reject;

verus! {

} // verus!
