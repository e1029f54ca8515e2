//! Properties of the registry that relate several operations, proved over
//! the model that each operation's contract refers to.
use vstd::prelude::*;
use crate::model::{
    empty_state, initialize_outcome, new_record, payment_info_outcome, register_outcome, run,
    set_fee_outcome, step, update_status_outcome, valid, Call, RegistryState,
};
use crate::types::{EventRegistryError, MAX_FEE_PERCENT};

verus! {

/// No call unsets the administrator once it is set.
pub proof fn admin_is_kept(s: RegistryState, calls: Seq<Call>)
    requires
        s.admin is Some,
    ensures
        run(s, calls).admin == s.admin,
    decreases calls.len(),
{
    if calls.len() > 0 {
        let next = match step(s, calls[0]) {
            Ok(t) => t,
            Err(_) => s,
        };
        assert(next.admin == s.admin);
        admin_is_kept(next, calls.drop_first());
    }
}

/// Initialization happens once: after a successful `initialize`, and
/// whatever calls follow, every further `initialize` fails with
/// `AlreadyInitialized`, whatever its arguments.
pub proof fn initialize_exactly_once(
    s: RegistryState,
    admin: Seq<char>,
    fee: u32,
    calls: Seq<Call>,
    other_admin: Seq<char>,
    other_fee: u32,
)
    requires
        initialize_outcome(s, admin, fee) is Ok,
    ensures
        initialize_outcome(run(initialize_outcome(s, admin, fee)->Ok_0, calls), other_admin, other_fee)
            == Err::<RegistryState, EventRegistryError>(EventRegistryError::AlreadyInitialized),
{
    admin_is_kept(initialize_outcome(s, admin, fee)->Ok_0, calls);
}

/// The empty registry is valid.
pub proof fn empty_state_is_valid()
    ensures
        valid(empty_state()),
{
}

/// A successful call takes a valid state to a valid one.
pub proof fn step_keeps_state_valid(s: RegistryState, c: Call)
    requires
        valid(s),
        step(s, c) is Ok,
    ensures
        valid(step(s, c)->Ok_0),
{
    let t = step(s, c)->Ok_0;
    assert forall|k: Seq<char>| #[trigger] t.events.contains_key(k) implies t.events[k].platform_fee_percent
        <= MAX_FEE_PERCENT && t.events[k].event_id == k by {
        if s.events.contains_key(k) {
            assert(s.events[k].platform_fee_percent <= MAX_FEE_PERCENT);
        }
    }
}

/// Every state reached from a valid one by any sequence of calls is valid: in
/// particular the global fee and the fee of every record stay within
/// `0..=MAX_FEE_PERCENT`.
pub proof fn calls_keep_state_valid(s: RegistryState, calls: Seq<Call>)
    requires
        valid(s),
    ensures
        valid(run(s, calls)),
    decreases calls.len(),
{
    if calls.len() > 0 {
        if step(s, calls[0]) is Ok {
            step_keeps_state_valid(s, calls[0]);
        }
        let next = match step(s, calls[0]) {
            Ok(t) => t,
            Err(_) => s,
        };
        calls_keep_state_valid(next, calls.drop_first());
    }
}

/// A fee above `MAX_FEE_PERCENT` is refused both by `initialize` and by
/// `set_platform_fee`; a refused call changes nothing.
pub proof fn out_of_range_fee_is_rejected(
    s: RegistryState,
    caller: Seq<char>,
    admin: Seq<char>,
    fee: u32,
)
    requires
        fee > MAX_FEE_PERCENT,
    ensures
        initialize_outcome(s, admin, fee) is Err,
        set_fee_outcome(s, caller, fee) is Err,
{
}

/// Right after a successful registration the record is stored under its id,
/// active, with the clock value of the registration as its creation time and
/// the global fee of that moment.
pub proof fn registered_event_is_active(
    s: RegistryState,
    caller: Seq<char>,
    event_id: Seq<char>,
    organizer: Seq<char>,
    payment_address: Seq<char>,
    now: u64,
)
    requires
        register_outcome(s, caller, event_id, organizer, payment_address, now) is Ok,
    ensures
        ({
            let t = register_outcome(s, caller, event_id, organizer, payment_address, now)->Ok_0;
            &&& t.events.contains_key(event_id)
            &&& t.events[event_id].is_active
            &&& t.events[event_id].created_at == now
            &&& t.events[event_id] == new_record(
                event_id,
                organizer,
                payment_address,
                s.platform_fee->Some_0,
                now,
            )
        }),
{
}

/// Registering an id a second time fails with `EventAlreadyExists`, even when
/// the second organizer authorizes it; the failed call changes nothing.
pub proof fn register_twice_fails(
    s: RegistryState,
    caller: Seq<char>,
    event_id: Seq<char>,
    organizer: Seq<char>,
    payment_address: Seq<char>,
    now: u64,
    other_organizer: Seq<char>,
    other_payment_address: Seq<char>,
    later: u64,
)
    requires
        register_outcome(s, caller, event_id, organizer, payment_address, now) is Ok,
    ensures
        register_outcome(
            register_outcome(s, caller, event_id, organizer, payment_address, now)->Ok_0,
            other_organizer,
            event_id,
            other_organizer,
            other_payment_address,
            later,
        ) == Err::<RegistryState, EventRegistryError>(EventRegistryError::EventAlreadyExists),
{
}

/// Payment info of an event that has just been deactivated fails with
/// `EventInactive`.
pub proof fn deactivated_event_is_inactive(s: RegistryState, caller: Seq<char>, event_id: Seq<char>)
    requires
        update_status_outcome(s, caller, event_id, false) is Ok,
    ensures
        payment_info_outcome(update_status_outcome(s, caller, event_id, false)->Ok_0, event_id)
            == Err::<(Seq<char>, u32), EventRegistryError>(EventRegistryError::EventInactive),
{
}

/// Payment info of an id with no record fails with `EventNotFound`.
pub proof fn missing_event_is_not_found(s: RegistryState, event_id: Seq<char>)
    requires
        !s.events.contains_key(event_id),
    ensures
        payment_info_outcome(s, event_id) == Err::<(Seq<char>, u32), EventRegistryError>(
            EventRegistryError::EventNotFound,
        ),
{
}

/// Changing the global fee changes the payment info of no event.
pub proof fn fee_change_keeps_payment_info(
    s: RegistryState,
    caller: Seq<char>,
    fee: u32,
    event_id: Seq<char>,
)
    requires
        set_fee_outcome(s, caller, fee) is Ok,
    ensures
        payment_info_outcome(set_fee_outcome(s, caller, fee)->Ok_0, event_id)
            == payment_info_outcome(s, event_id),
{
}

/// An event registered under one global fee keeps that fee in its payment
/// info after the administrator changes the global fee.
pub proof fn registered_fee_is_a_snapshot(
    s: RegistryState,
    caller: Seq<char>,
    event_id: Seq<char>,
    organizer: Seq<char>,
    payment_address: Seq<char>,
    now: u64,
    admin: Seq<char>,
    fee: u32,
)
    requires
        register_outcome(s, caller, event_id, organizer, payment_address, now) is Ok,
        set_fee_outcome(
            register_outcome(s, caller, event_id, organizer, payment_address, now)->Ok_0,
            admin,
            fee,
        ) is Ok,
    ensures
        payment_info_outcome(
            set_fee_outcome(
                register_outcome(s, caller, event_id, organizer, payment_address, now)->Ok_0,
                admin,
                fee,
            )->Ok_0,
            event_id,
        ) == Ok::<(Seq<char>, u32), EventRegistryError>((payment_address, s.platform_fee->Some_0)),
{
}

/// A status update by anyone but the record's organizer fails with
/// `Unauthorized`; the failed call leaves the status as it was.
pub proof fn status_update_needs_organizer(
    s: RegistryState,
    caller: Seq<char>,
    event_id: Seq<char>,
    is_active: bool,
)
    requires
        s.events.contains_key(event_id),
        caller != s.events[event_id].organizer,
    ensures
        update_status_outcome(s, caller, event_id, is_active) == Err::<
            RegistryState,
            EventRegistryError,
        >(EventRegistryError::Unauthorized),
{
}

} // verus!
