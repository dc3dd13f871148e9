//! Topic names used on the broker.

use vstd::prelude::*;

verus! {

/// The single well-known topic that carries order-placement notifications.
pub open spec fn order_placed_spec() -> Seq<char> {
    "order_placed"@
}

/// The single well-known topic that carries order-placement notifications.
pub fn order_placed() -> (t: &'static str)
    ensures
        t@ == order_placed_spec(),
{
    "order_placed"
}

} // verus!
