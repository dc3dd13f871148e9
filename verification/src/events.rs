//! Payload types carried by the bus.

use vstd::prelude::*;

verus! {

/// Notification that an order was committed: the catalog side decrements
/// the item's stock by `quantity` when it receives this payload.
#[derive(Clone, Copy, PartialEq, Eq, Structural, Debug)]
pub struct OrderPlacedEvent {
    pub item_id: u32,
    pub quantity: u32,
}

} // verus!
