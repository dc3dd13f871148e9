//! A service that reacts to events received from other services.

use crate::bus::ListenerCreationError;
use vstd::prelude::*;

verus! {

/// A service that listens to relevant topics and reacts to events
/// received from other services.
pub trait ListenerService {
    /// Opens the service's subscriptions. An error means the broker
    /// connection or subscription setup failed; it is fatal to the
    /// owning service if unhandled.
    fn start_event_listeners(&mut self) -> Result<(), ListenerCreationError>;
}

} // verus!
