use vstd::prelude::*;
use crate::types::Identity;

verus! {

/// Notification published after an event is registered.
#[derive(Debug, Clone)]
pub struct EventRegistered {
    pub event_id: String,
    pub organizer_address: Identity,
    pub payment_address: Identity,
    pub timestamp: u64,
}

/// Notification published after an event's status is set.
#[derive(Debug, Clone)]
pub struct EventStatusUpdated {
    pub event_id: String,
    pub is_active: bool,
    pub updated_by: Identity,
    pub timestamp: u64,
}

/// Notification published after the global platform fee changes.
#[derive(Debug, Clone, Copy, PartialEq, Eq, Structural)]
pub struct FeeUpdated {
    pub new_fee_percent: u32,
}

} // verus!
