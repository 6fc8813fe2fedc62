//! What a subscriber answers to an event.
use vstd::prelude::*;

verus! {

/// How an emitted event continues past a subscriber.
pub enum EventFlow {
    /// Pass the event on to the next subscriber.
    Continue,
    /// Stop, answering with a value.
    Return(String),
}

}
