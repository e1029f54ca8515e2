//! The registry as mathematical state, and what each operation does to it.
//! An operation's outcome is `Ok(next state)` or `Err(error)`; a failed
//! operation leaves the state as it was.
use vstd::prelude::*;
use crate::types::{EventRecord, EventRegistryError, MAX_FEE_PERCENT};

verus! {

/// The whole registry: global configuration, records keyed by event id, and
/// for each organizer the ids they registered, in registration order.
pub struct RegistryState {
    pub admin: Option<Seq<char>>,
    pub platform_fee: Option<u32>,
    pub events: Map<Seq<char>, EventRecord>,
    pub organizer_index: Map<Seq<char>, Seq<Seq<char>>>,
}

/// A registry that nothing has been done to yet.
pub open spec fn empty_state() -> RegistryState {
    RegistryState {
        admin: None,
        platform_fee: None,
        events: Map::empty(),
        organizer_index: Map::empty(),
    }
}

/// What holds of every state that the operations can reach: the admin and the
/// fee are set together, every fee is at most `MAX_FEE_PERCENT`, and each record
/// is stored under its own id.
pub open spec fn valid(s: RegistryState) -> bool {
    &&& (s.admin is Some <==> s.platform_fee is Some)
    &&& (s.platform_fee matches Some(f) ==> f <= MAX_FEE_PERCENT)
    &&& forall|k: Seq<char>| #[trigger]
        s.events.contains_key(k) ==> s.events[k].platform_fee_percent <= MAX_FEE_PERCENT
            && s.events[k].event_id == k
}

/// The global fee as read by `get_platform_fee`: zero before initialization.
pub open spec fn platform_fee_of(s: RegistryState) -> u32 {
    match s.platform_fee {
        Some(f) => f,
        None => 0,
    }
}

/// The organizer index after `event_id` is appended to `organizer`'s list.
pub open spec fn index_after_append(
    index: Map<Seq<char>, Seq<Seq<char>>>,
    organizer: Seq<char>,
    event_id: Seq<char>,
) -> Map<Seq<char>, Seq<Seq<char>>> {
    if index.contains_key(organizer) {
        index.insert(organizer, index[organizer].push(event_id))
    } else {
        index.insert(organizer, seq![event_id])
    }
}

pub open spec fn initialize_outcome(s: RegistryState, admin: Seq<char>, fee: u32) -> Result<
    RegistryState,
    EventRegistryError,
> {
    if s.admin is Some || s.platform_fee is Some {
        Err(EventRegistryError::AlreadyInitialized)
    } else if fee > MAX_FEE_PERCENT {
        Err(EventRegistryError::InvalidFeePercent)
    } else {
        Ok(RegistryState { admin: Some(admin), platform_fee: Some(fee), ..s })
    }
}

/// The record that registration creates.
pub open spec fn new_record(
    event_id: Seq<char>,
    organizer: Seq<char>,
    payment_address: Seq<char>,
    fee: u32,
    now: u64,
) -> EventRecord {
    EventRecord {
        event_id,
        organizer,
        payment_address,
        platform_fee_percent: fee,
        is_active: true,
        created_at: now,
    }
}

/// `caller` is the identity that authorized the call; `now` is the clock.
pub open spec fn register_outcome(
    s: RegistryState,
    caller: Seq<char>,
    event_id: Seq<char>,
    organizer: Seq<char>,
    payment_address: Seq<char>,
    now: u64,
) -> Result<RegistryState, EventRegistryError> {
    if caller != organizer {
        Err(EventRegistryError::Unauthorized)
    } else if s.events.contains_key(event_id) {
        Err(EventRegistryError::EventAlreadyExists)
    } else {
        match s.platform_fee {
            None => Err(EventRegistryError::NotInitialized),
            Some(fee) => Ok(
                RegistryState {
                    events: s.events.insert(
                        event_id,
                        new_record(event_id, organizer, payment_address, fee, now),
                    ),
                    organizer_index: index_after_append(s.organizer_index, organizer, event_id),
                    ..s
                },
            ),
        }
    }
}

/// The payment address and the snapshotted fee of an active event.
pub open spec fn payment_info_outcome(s: RegistryState, event_id: Seq<char>) -> Result<
    (Seq<char>, u32),
    EventRegistryError,
> {
    if !s.events.contains_key(event_id) {
        Err(EventRegistryError::EventNotFound)
    } else if !s.events[event_id].is_active {
        Err(EventRegistryError::EventInactive)
    } else {
        Ok((s.events[event_id].payment_address, s.events[event_id].platform_fee_percent))
    }
}

pub open spec fn update_status_outcome(
    s: RegistryState,
    caller: Seq<char>,
    event_id: Seq<char>,
    is_active: bool,
) -> Result<RegistryState, EventRegistryError> {
    if !s.events.contains_key(event_id) {
        Err(EventRegistryError::EventNotFound)
    } else if caller != s.events[event_id].organizer {
        Err(EventRegistryError::Unauthorized)
    } else {
        Ok(
            RegistryState {
                events: s.events.insert(
                    event_id,
                    EventRecord { is_active, ..s.events[event_id] },
                ),
                ..s
            },
        )
    }
}

/// The admin's raw write of a whole record. A record under a new id is also
/// appended to its organizer's index; an overwrite leaves the index alone.
pub open spec fn store_event_outcome(s: RegistryState, caller: Seq<char>, record: EventRecord) -> Result<
    RegistryState,
    EventRegistryError,
> {
    match s.admin {
        None => Err(EventRegistryError::NotInitialized),
        Some(admin) => if caller != admin {
            Err(EventRegistryError::Unauthorized)
        } else if record.platform_fee_percent > MAX_FEE_PERCENT {
            Err(EventRegistryError::InvalidFeePercent)
        } else {
            Ok(
                RegistryState {
                    events: s.events.insert(record.event_id, record),
                    organizer_index: if s.events.contains_key(record.event_id) {
                        s.organizer_index
                    } else {
                        index_after_append(s.organizer_index, record.organizer, record.event_id)
                    },
                    ..s
                },
            )
        },
    }
}

pub open spec fn set_fee_outcome(s: RegistryState, caller: Seq<char>, fee: u32) -> Result<
    RegistryState,
    EventRegistryError,
> {
    match s.admin {
        None => Err(EventRegistryError::NotInitialized),
        Some(admin) => if caller != admin {
            Err(EventRegistryError::Unauthorized)
        } else if fee > MAX_FEE_PERCENT {
            Err(EventRegistryError::InvalidFeePercent)
        } else {
            Ok(RegistryState { platform_fee: Some(fee), ..s })
        },
    }
}

/// A call that may change the registry.
pub enum Call {
    Initialize { admin: Seq<char>, fee: u32 },
    Register {
        caller: Seq<char>,
        event_id: Seq<char>,
        organizer: Seq<char>,
        payment_address: Seq<char>,
        now: u64,
    },
    UpdateStatus { caller: Seq<char>, event_id: Seq<char>, is_active: bool },
    StoreEvent { caller: Seq<char>, record: EventRecord },
    SetFee { caller: Seq<char>, fee: u32 },
}

pub open spec fn step(s: RegistryState, c: Call) -> Result<RegistryState, EventRegistryError> {
    match c {
        Call::Initialize { admin, fee } => initialize_outcome(s, admin, fee),
        Call::Register { caller, event_id, organizer, payment_address, now } => register_outcome(
            s,
            caller,
            event_id,
            organizer,
            payment_address,
            now,
        ),
        Call::UpdateStatus { caller, event_id, is_active } => update_status_outcome(
            s,
            caller,
            event_id,
            is_active,
        ),
        Call::StoreEvent { caller, record } => store_event_outcome(s, caller, record),
        Call::SetFee { caller, fee } => set_fee_outcome(s, caller, fee),
    }
}

/// The state after `calls` run in order; a failing call changes nothing.
pub open spec fn run(s: RegistryState, calls: Seq<Call>) -> RegistryState
    decreases calls.len(),
{
    if calls.len() == 0 {
        s
    } else {
        let next = match step(s, calls[0]) {
            Ok(t) => t,
            Err(_) => s,
        };
        run(next, calls.drop_first())
    }
}

} // verus!
