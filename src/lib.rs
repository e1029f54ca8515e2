//! A registry of events: each event id maps to its organizer, where payments
//! for it go, the platform fee captured when it was registered, and whether it
//! is active. An administrator sets the global fee that new events capture.
pub mod assoc;
pub mod events;
pub mod laws;
pub mod model;
pub mod registry;
pub mod types;

pub use events::{EventRegistered, EventStatusUpdated, FeeUpdated};
pub use registry::EventRegistry;
pub use types::{EventInfo, EventRegistryError, Identity, PaymentInfo, MAX_FEE_PERCENT};
