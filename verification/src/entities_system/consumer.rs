//! The consumer: it registers the URLs the producers discovered.
use vstd::prelude::*;

pub mod consumer_task;

verus! {

/// Why the consumer could not be set up.
#[derive(Debug, Clone, Copy, PartialEq, Eq, Structural)]
pub enum ConsumerErr {
    /// The consumer's thread could not be started.
    HandlerError,
}

} // verus!
