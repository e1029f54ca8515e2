use vstd::prelude::*;

verus! {

/// Largest fee, in basis points (10000 = 100%).
pub const MAX_FEE_PERCENT: u32 = 10000;

/// Errors returned by the registry's operations.
#[derive(Debug, Clone, Copy, PartialEq, Eq, Structural)]
pub enum EventRegistryError {
    AlreadyInitialized,
    InvalidFeePercent,
    EventAlreadyExists,
    EventNotFound,
    EventInactive,
    NotInitialized,
    /// The calling identity does not control the identity the operation asks for.
    Unauthorized,
}

/// An opaque principal (an account or contract address in its textual form).
#[derive(Debug, Clone)]
pub struct Identity {
    pub id: String,
}

impl View for Identity {
    type V = Seq<char>;

    open spec fn view(&self) -> Seq<char> {
        self.id@
    }
}

impl Identity {
    pub fn new(id: String) -> (r: Identity)
        ensures
            r@ == id@,
    {
        Identity { id }
    }

    /// A copy that keeps the same text.
    pub fn duplicate(&self) -> (r: Identity)
        ensures
            r@ == self@,
    {
        Identity { id: self.id.clone() }
    }
}

impl PartialEq for Identity {
    fn eq(&self, other: &Identity) -> (r: bool)
        ensures
            r == (self@ == other@),
    {
        self.id == other.id
    }
}

impl vstd::std_specs::cmp::PartialEqSpecImpl for Identity {
    open spec fn obeys_eq_spec() -> bool {
        true
    }

    open spec fn eq_spec(&self, other: &Identity) -> bool {
        self@ == other@
    }
}

/// What a stored event record holds, as mathematical values.
pub struct EventRecord {
    pub event_id: Seq<char>,
    pub organizer: Seq<char>,
    pub payment_address: Seq<char>,
    pub platform_fee_percent: u32,
    pub is_active: bool,
    pub created_at: u64,
}

/// A registered event: its organizer, where payments go, and the fee
/// captured when it was registered.
#[derive(Debug, Clone)]
pub struct EventInfo {
    pub event_id: String,
    pub organizer_address: Identity,
    pub payment_address: Identity,
    pub platform_fee_percent: u32,
    pub is_active: bool,
    pub created_at: u64,
}

impl View for EventInfo {
    type V = EventRecord;

    open spec fn view(&self) -> EventRecord {
        EventRecord {
            event_id: self.event_id@,
            organizer: self.organizer_address@,
            payment_address: self.payment_address@,
            platform_fee_percent: self.platform_fee_percent,
            is_active: self.is_active,
            created_at: self.created_at,
        }
    }
}

impl EventInfo {
    /// A copy with the same fields.
    pub fn duplicate(&self) -> (r: EventInfo)
        ensures
            r@ == self@,
    {
        EventInfo {
            event_id: self.event_id.clone(),
            organizer_address: self.organizer_address.duplicate(),
            payment_address: self.payment_address.duplicate(),
            platform_fee_percent: self.platform_fee_percent,
            is_active: self.is_active,
            created_at: self.created_at,
        }
    }
}

/// What a payer needs to know of an active event.
#[derive(Debug, Clone)]
pub struct PaymentInfo {
    pub payment_address: Identity,
    pub platform_fee_percent: u32,
}

} // verus!
