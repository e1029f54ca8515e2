use event_registry::{EventInfo, EventRegistry, EventRegistryError, Identity, MAX_FEE_PERCENT};

fn ident(s: &str) -> Identity {
    Identity::new(s.to_string())
}

fn initialized(fee: u32) -> EventRegistry {
    let mut reg = EventRegistry::new();
    reg.initialize(ident("ADMIN"), fee).unwrap();
    reg
}

fn register(reg: &mut EventRegistry, event_id: &str, organizer: &str, payment: &str, now: u64) {
    reg.register_event(&ident(organizer), event_id.to_string(), ident(organizer), ident(payment), now)
        .unwrap();
}

#[test]
fn example_fee_snapshot_survives_fee_change() {
    let mut reg = EventRegistry::new();
    assert_eq!(reg.initialize(ident("A"), 250), Ok(()));
    reg.register_event(&ident("O"), "evt1".to_string(), ident("O"), ident("P"), 1000).unwrap();
    let info = reg.get_event_payment_info("evt1".to_string()).unwrap();
    assert_eq!(info.payment_address, ident("P"));
    assert_eq!(info.platform_fee_percent, 250);
    let note = reg.set_platform_fee(&ident("A"), 500).unwrap();
    assert_eq!(note.new_fee_percent, 500);
    let info = reg.get_event_payment_info("evt1".to_string()).unwrap();
    assert_eq!(info.payment_address, ident("P"));
    assert_eq!(info.platform_fee_percent, 250);
    assert_eq!(reg.get_platform_fee(), 500);
}

#[test]
fn second_initialize_fails_whatever_the_arguments() {
    let mut reg = initialized(100);
    assert_eq!(reg.initialize(ident("ADMIN"), 100), Err(EventRegistryError::AlreadyInitialized));
    assert_eq!(reg.initialize(ident("OTHER"), 7), Err(EventRegistryError::AlreadyInitialized));
    assert_eq!(reg.initialize(ident("OTHER"), 20000), Err(EventRegistryError::AlreadyInitialized));
    assert_eq!(reg.get_admin().unwrap(), ident("ADMIN"));
    assert_eq!(reg.get_platform_fee(), 100);
}

#[test]
fn initialize_rejects_fee_above_maximum() {
    let mut reg = EventRegistry::new();
    assert_eq!(reg.initialize(ident("ADMIN"), 10001), Err(EventRegistryError::InvalidFeePercent));
    assert_eq!(reg.get_admin().unwrap_err(), EventRegistryError::NotInitialized);
    assert_eq!(reg.get_platform_fee(), 0);
    assert_eq!(reg.initialize(ident("ADMIN"), MAX_FEE_PERCENT), Ok(()));
    assert_eq!(reg.get_platform_fee(), 10000);
}

#[test]
fn initialize_accepts_zero_fee() {
    let mut reg = EventRegistry::new();
    assert_eq!(reg.initialize(ident("ADMIN"), 0), Ok(()));
    assert_eq!(reg.get_platform_fee(), 0);
    assert_eq!(reg.get_admin().unwrap(), ident("ADMIN"));
}

#[test]
fn fee_reads_zero_before_initialization() {
    let reg = EventRegistry::new();
    assert_eq!(reg.get_platform_fee(), 0);
    assert_eq!(reg.get_admin().unwrap_err(), EventRegistryError::NotInitialized);
}

#[test]
fn set_platform_fee_errors_leave_fee_unchanged() {
    let mut uninit = EventRegistry::new();
    assert_eq!(uninit.set_platform_fee(&ident("ADMIN"), 5).unwrap_err(), EventRegistryError::NotInitialized);

    let mut reg = initialized(300);
    assert_eq!(reg.set_platform_fee(&ident("MALLORY"), 5).unwrap_err(), EventRegistryError::Unauthorized);
    assert_eq!(reg.get_platform_fee(), 300);
    assert_eq!(reg.set_platform_fee(&ident("ADMIN"), 10001).unwrap_err(), EventRegistryError::InvalidFeePercent);
    assert_eq!(reg.get_platform_fee(), 300);
    assert_eq!(reg.set_platform_fee(&ident("ADMIN"), u32::MAX).unwrap_err(), EventRegistryError::InvalidFeePercent);
    assert_eq!(reg.get_platform_fee(), 300);
    assert_eq!(reg.set_platform_fee(&ident("ADMIN"), 10000).unwrap().new_fee_percent, 10000);
    assert_eq!(reg.get_platform_fee(), 10000);
}

#[test]
fn registered_event_is_active_with_registration_time() {
    let mut reg = initialized(250);
    let note = reg
        .register_event(&ident("ORG"), "e1".to_string(), ident("ORG"), ident("PAY"), 1_700_000_000)
        .unwrap();
    assert_eq!(note.event_id, "e1");
    assert_eq!(note.organizer_address, ident("ORG"));
    assert_eq!(note.payment_address, ident("PAY"));
    assert_eq!(note.timestamp, 1_700_000_000);
    let info = reg.get_event("e1".to_string()).unwrap();
    assert_eq!(info.event_id, "e1");
    assert_eq!(info.organizer_address, ident("ORG"));
    assert_eq!(info.payment_address, ident("PAY"));
    assert_eq!(info.platform_fee_percent, 250);
    assert!(info.is_active);
    assert_eq!(info.created_at, 1_700_000_000);
    assert!(reg.event_exists("e1".to_string()));
    assert!(!reg.event_exists("e2".to_string()));
}

#[test]
fn register_requires_organizer_authorization() {
    let mut reg = initialized(250);
    let r = reg.register_event(&ident("MALLORY"), "e1".to_string(), ident("ORG"), ident("PAY"), 1);
    assert_eq!(r.unwrap_err(), EventRegistryError::Unauthorized);
    assert!(reg.get_event("e1".to_string()).is_none());
    assert!(reg.get_organizer_events(ident("ORG")).is_empty());
}

#[test]
fn register_before_initialize_fails() {
    let mut reg = EventRegistry::new();
    let r = reg.register_event(&ident("ORG"), "e1".to_string(), ident("ORG"), ident("PAY"), 1);
    assert_eq!(r.unwrap_err(), EventRegistryError::NotInitialized);
    assert!(!reg.event_exists("e1".to_string()));
}

#[test]
fn register_same_id_twice_fails_and_changes_nothing() {
    let mut reg = initialized(250);
    register(&mut reg, "e1", "ORG", "PAY", 10);
    let r = reg.register_event(&ident("ORG2"), "e1".to_string(), ident("ORG2"), ident("PAY2"), 20);
    assert_eq!(r.unwrap_err(), EventRegistryError::EventAlreadyExists);
    let r = reg.register_event(&ident("ORG"), "e1".to_string(), ident("ORG"), ident("PAY"), 30);
    assert_eq!(r.unwrap_err(), EventRegistryError::EventAlreadyExists);
    let info = reg.get_event("e1".to_string()).unwrap();
    assert_eq!(info.organizer_address, ident("ORG"));
    assert_eq!(info.payment_address, ident("PAY"));
    assert_eq!(info.created_at, 10);
    assert_eq!(reg.get_organizer_events(ident("ORG")), vec!["e1".to_string()]);
    assert!(reg.get_organizer_events(ident("ORG2")).is_empty());
}

#[test]
fn payment_info_of_missing_event_is_not_found() {
    let reg = initialized(250);
    assert_eq!(reg.get_event_payment_info("nope".to_string()).unwrap_err(), EventRegistryError::EventNotFound);
    assert!(reg.get_event("nope".to_string()).is_none());
}

#[test]
fn payment_info_of_deactivated_event_is_inactive() {
    let mut reg = initialized(250);
    register(&mut reg, "e1", "ORG", "PAY", 10);
    let note = reg.update_event_status(&ident("ORG"), "e1".to_string(), false, 11).unwrap();
    assert_eq!(note.event_id, "e1");
    assert!(!note.is_active);
    assert_eq!(note.updated_by, ident("ORG"));
    assert_eq!(note.timestamp, 11);
    assert_eq!(reg.get_event_payment_info("e1".to_string()).unwrap_err(), EventRegistryError::EventInactive);
    let info = reg.get_event("e1".to_string()).unwrap();
    assert!(!info.is_active);
    assert_eq!(info.created_at, 10);
    reg.update_event_status(&ident("ORG"), "e1".to_string(), true, 12).unwrap();
    assert_eq!(reg.get_event_payment_info("e1".to_string()).unwrap().platform_fee_percent, 250);
}

#[test]
fn status_update_is_idempotent_in_effect() {
    let mut reg = initialized(250);
    register(&mut reg, "e1", "ORG", "PAY", 10);
    assert!(reg.update_event_status(&ident("ORG"), "e1".to_string(), false, 11).is_ok());
    assert!(reg.update_event_status(&ident("ORG"), "e1".to_string(), false, 12).is_ok());
    assert!(!reg.get_event("e1".to_string()).unwrap().is_active);
}

#[test]
fn status_update_by_other_identity_fails() {
    let mut reg = initialized(250);
    register(&mut reg, "e1", "ORG", "PAY", 10);
    let r = reg.update_event_status(&ident("ADMIN"), "e1".to_string(), false, 11);
    assert_eq!(r.unwrap_err(), EventRegistryError::Unauthorized);
    let r = reg.update_event_status(&ident("PAY"), "e1".to_string(), false, 11);
    assert_eq!(r.unwrap_err(), EventRegistryError::Unauthorized);
    assert!(reg.get_event("e1".to_string()).unwrap().is_active);
    assert!(reg.get_event_payment_info("e1".to_string()).is_ok());
}

#[test]
fn status_update_of_missing_event_is_not_found() {
    let mut reg = initialized(250);
    let r = reg.update_event_status(&ident("ORG"), "e1".to_string(), true, 1);
    assert_eq!(r.unwrap_err(), EventRegistryError::EventNotFound);
}

#[test]
fn organizer_index_keeps_registration_order() {
    let mut reg = initialized(250);
    register(&mut reg, "b", "ORG", "PAY", 1);
    register(&mut reg, "x", "OTHER", "PAY", 2);
    register(&mut reg, "a", "ORG", "PAY", 3);
    register(&mut reg, "c", "ORG", "PAY2", 4);
    assert_eq!(
        reg.get_organizer_events(ident("ORG")),
        vec!["b".to_string(), "a".to_string(), "c".to_string()]
    );
    assert_eq!(reg.get_organizer_events(ident("OTHER")), vec!["x".to_string()]);
    assert!(reg.get_organizer_events(ident("NOBODY")).is_empty());
}

#[test]
fn fee_change_does_not_touch_existing_records() {
    let mut reg = initialized(100);
    register(&mut reg, "old", "ORG", "PAY", 1);
    reg.set_platform_fee(&ident("ADMIN"), 900).unwrap();
    register(&mut reg, "new", "ORG", "PAY", 2);
    assert_eq!(reg.get_event_payment_info("old".to_string()).unwrap().platform_fee_percent, 100);
    assert_eq!(reg.get_event_payment_info("new".to_string()).unwrap().platform_fee_percent, 900);
}

fn record(event_id: &str, organizer: &str, fee: u32, active: bool) -> EventInfo {
    EventInfo {
        event_id: event_id.to_string(),
        organizer_address: ident(organizer),
        payment_address: ident("VAULT"),
        platform_fee_percent: fee,
        is_active: active,
        created_at: 42,
    }
}

#[test]
fn store_event_is_admin_only() {
    let mut uninit = EventRegistry::new();
    assert_eq!(uninit.store_event(&ident("ADMIN"), record("e1", "ORG", 10, true)), Err(EventRegistryError::NotInitialized));

    let mut reg = initialized(250);
    assert_eq!(reg.store_event(&ident("ORG"), record("e1", "ORG", 10, true)), Err(EventRegistryError::Unauthorized));
    assert!(!reg.event_exists("e1".to_string()));
    assert_eq!(reg.store_event(&ident("ADMIN"), record("e1", "ORG", 10001, true)), Err(EventRegistryError::InvalidFeePercent));
    assert!(!reg.event_exists("e1".to_string()));
}

#[test]
fn store_event_inserts_and_overwrites() {
    let mut reg = initialized(250);
    assert_eq!(reg.store_event(&ident("ADMIN"), record("e1", "ORG", 10, true)), Ok(()));
    let info = reg.get_event("e1".to_string()).unwrap();
    assert_eq!(info.platform_fee_percent, 10);
    assert_eq!(info.payment_address, ident("VAULT"));
    assert_eq!(info.created_at, 42);
    assert_eq!(reg.get_organizer_events(ident("ORG")), vec!["e1".to_string()]);

    assert_eq!(reg.store_event(&ident("ADMIN"), record("e1", "ORG", 20, false)), Ok(()));
    let info = reg.get_event("e1".to_string()).unwrap();
    assert_eq!(info.platform_fee_percent, 20);
    assert!(!info.is_active);
    assert_eq!(reg.get_organizer_events(ident("ORG")), vec!["e1".to_string()]);
    assert_eq!(reg.get_event_payment_info("e1".to_string()).unwrap_err(), EventRegistryError::EventInactive);
}

#[test]
fn stored_record_blocks_registration_of_its_id() {
    let mut reg = initialized(250);
    reg.store_event(&ident("ADMIN"), record("e1", "ORG", 10, true)).unwrap();
    let r = reg.register_event(&ident("ORG"), "e1".to_string(), ident("ORG"), ident("PAY"), 1);
    assert_eq!(r.unwrap_err(), EventRegistryError::EventAlreadyExists);
}

#[test]
fn identities_compare_by_text() {
    assert_eq!(ident("GABC"), ident("GABC"));
    assert_ne!(ident("GABC"), ident("GABD"));
    assert_eq!(ident("GABC").duplicate(), ident("GABC"));
}

fn entry(organizer: &str, ids: &[&str]) -> event_registry::registry::OrganizerEvents {
    event_registry::registry::OrganizerEvents {
        organizer: ident(organizer),
        event_ids: ids.iter().map(|s| s.to_string()).collect(),
    }
}

#[test]
fn restore_accepts_consistent_parts() {
    let reg = EventRegistry::restore(
        Some(ident("ADMIN")),
        Some(300),
        vec![record("e1", "ORG", 10, true), record("e2", "ORG", 20, false)],
        vec![entry("ORG", &["e1", "e2"])],
    )
    .unwrap();
    assert_eq!(reg.get_admin().unwrap(), ident("ADMIN"));
    assert_eq!(reg.get_platform_fee(), 300);
    assert_eq!(reg.get_event_payment_info("e1".to_string()).unwrap().platform_fee_percent, 10);
    assert_eq!(reg.get_event_payment_info("e2".to_string()).unwrap_err(), EventRegistryError::EventInactive);
    assert_eq!(reg.get_organizer_events(ident("ORG")), vec!["e1".to_string(), "e2".to_string()]);
    let empty = EventRegistry::restore(None, None, vec![], vec![]).unwrap();
    assert_eq!(empty.get_admin().unwrap_err(), EventRegistryError::NotInitialized);
}

#[test]
fn restore_rejects_inconsistent_parts() {
    assert!(EventRegistry::restore(Some(ident("ADMIN")), None, vec![], vec![]).is_none());
    assert!(EventRegistry::restore(None, Some(5), vec![], vec![]).is_none());
    assert!(EventRegistry::restore(Some(ident("ADMIN")), Some(10001), vec![], vec![]).is_none());
    assert!(EventRegistry::restore(
        Some(ident("ADMIN")),
        Some(5),
        vec![record("e1", "ORG", 10001, true)],
        vec![]
    )
    .is_none());
    assert!(EventRegistry::restore(
        Some(ident("ADMIN")),
        Some(5),
        vec![record("e1", "ORG", 1, true), record("e1", "OTHER", 2, true)],
        vec![]
    )
    .is_none());
    assert!(EventRegistry::restore(
        Some(ident("ADMIN")),
        Some(5),
        vec![],
        vec![entry("ORG", &["a"]), entry("ORG", &["b"])]
    )
    .is_none());
}
