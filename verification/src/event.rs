//! Device-level event outcomes, and the conversions between them and the
//! worker-pool layer's outcomes.
//!
//! The two layers keep distinct error types so that each can evolve on its
//! own; the conversions here are exact, variant for variant, and
//! [`lemma_result_conversion_round_trip`] proves that translating an outcome
//! down to the pool and back changes nothing.

use crate::work;
use vstd::prelude::*;

verus! {

/// Errors carried by device-level event results.
#[derive(Debug, Clone)]
pub enum Error {
    /// The event has not completed yet.
    NotCompleted,
    /// A failure described by whoever completed the event.
    Custom(String),
}

/// The outcome an event completes with, as the device layer sees it.
pub type EventResult = Result<(), Error>;

/// What [`event_result_to_work`] returns: the same outcome, variant for
/// variant, in the pool layer's type.
pub open spec fn to_work_result_spec(r: EventResult) -> work::WorkResult {
    match r {
        Ok(u) => Ok(u),
        Err(Error::NotCompleted) => Err(work::Error::NotCompleted),
        Err(Error::Custom(s)) => Err(work::Error::Custom(s)),
    }
}

/// What [`work_result_to_event`] returns: the same outcome, variant for
/// variant, in the device layer's type.
pub open spec fn to_event_result_spec(r: work::WorkResult) -> EventResult {
    match r {
        Ok(u) => Ok(u),
        Err(work::Error::NotCompleted) => Err(Error::NotCompleted),
        Err(work::Error::Custom(s)) => Err(Error::Custom(s)),
    }
}

/// Translate a device-level outcome into the pool layer's type.
pub fn event_result_to_work(result: EventResult) -> (r: work::WorkResult)
    ensures
        r == to_work_result_spec(result),
{
    match result {
        Ok(u) => {
            let r: work::WorkResult = Ok(u);
            proof {
                assert(r == to_work_result_spec(result));
            }
            r
        },
        Err(Error::NotCompleted) => Err(work::Error::NotCompleted),
        Err(Error::Custom(s)) => Err(work::Error::Custom(s)),
    }
}

/// Translate a pool-level outcome into the device layer's type.
pub fn work_result_to_event(result: work::WorkResult) -> (r: EventResult)
    ensures
        r == to_event_result_spec(result),
{
    match result {
        Ok(u) => {
            let r: EventResult = Ok(u);
            proof {
                assert(r == to_event_result_spec(result));
            }
            r
        },
        Err(work::Error::NotCompleted) => Err(Error::NotCompleted),
        Err(work::Error::Custom(s)) => Err(Error::Custom(s)),
    }
}

/// Copy a device-level outcome. Written out (rather than derived) so that
/// the copy is known to equal the original.
pub fn clone_result(r: &EventResult) -> (c: EventResult)
    ensures
        c == *r,
{
    match r {
        Ok(u) => {
            let c: EventResult = Ok(*u);
            proof {
                assert(c == *r);
            }
            c
        },
        Err(Error::NotCompleted) => Err(Error::NotCompleted),
        Err(Error::Custom(s)) => Err(Error::Custom(s.clone())),
    }
}

/// Converting an outcome to the pool layer and back gives it back unchanged,
/// and the same the other way around: the two layers' outcomes correspond
/// one to one.
pub proof fn lemma_result_conversion_round_trip(e: EventResult, w: work::WorkResult)
    ensures
        to_event_result_spec(to_work_result_spec(e)) == e,
        to_work_result_spec(to_event_result_spec(w)) == w,
{
}

} // verus!
