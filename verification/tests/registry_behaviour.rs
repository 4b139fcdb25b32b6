use event_registry::registry::{EventRegistry, MAX_FEE_PERCENT};
use event_registry::storage::Storage;
use event_registry::types::EventInfo;

const ADMIN: &str = "GBADMINXQ3S7K2ZQ7W5Y4T6FJ2HRN4LKDPSV3X6UEOCGEJ4OJ5GYAXAA";
const OTHER_ADMIN: &str = "GBOTHERADMINK2ZQ7W5Y4T6FJ2HRN4LKDPSV3X6UEOCGEJ4OJ5GYAXA";
const ORGANIZER: &str = "GDORGANIZERK5V3Q2YJ7R6MZ4WBT2LNHC4XQFIUSGOKDA5PJTV7EYAAA";
const SECOND_ORGANIZER: &str = "GDSECONDORGK5V3Q2YJ7R6MZ4WBT2LNHC4XQFIUSGOKDA5PJTV7EYAA";
const PAYMENT: &str = "GCPAYMENTZ7JQK4XQ2ZKF5MWX3N4Y6B2HTRDV7UGLOESC5AIPJ3QYAAA";

fn event(id: &str, organizer: &str, created_at: u64) -> EventInfo {
    EventInfo {
        event_id: id.to_string(),
        organizer_address: organizer.to_string(),
        payment_address: PAYMENT.to_string(),
        platform_fee_percent: 5,
        is_active: true,
        created_at,
    }
}

#[test]
fn fresh_storage_is_uninitialised_and_empty() {
    let storage = Storage::new();
    assert_eq!(storage.get_admin(), None);
    assert!(!storage.has_platform_fee());
    assert_eq!(EventRegistry::get_platform_fee(&storage), 0);
    assert!(!EventRegistry::event_exists(&storage, "e1".to_string()));
    assert!(EventRegistry::get_event(&storage, "e1".to_string()).is_none());
    assert!(EventRegistry::get_organizer_events(&storage, &ORGANIZER.to_string()).is_empty());
}

#[test]
fn initialize_marks_storage_initialised() {
    let mut storage = Storage::new();
    EventRegistry::initialize(&mut storage, ADMIN.to_string(), 7);
    assert_eq!(storage.get_admin(), Some(ADMIN.to_string()));
    assert!(storage.has_platform_fee());
    assert_eq!(storage.get_platform_fee(), 7);
}

#[test]
fn initialize_accepts_fee_bounds() {
    let mut storage = Storage::new();
    EventRegistry::initialize(&mut storage, ADMIN.to_string(), MAX_FEE_PERCENT);
    assert_eq!(EventRegistry::get_platform_fee(&storage), 100);

    let mut storage = Storage::new();
    EventRegistry::initialize(&mut storage, ADMIN.to_string(), 0);
    assert_eq!(EventRegistry::get_platform_fee(&storage), 0);
    assert!(storage.has_platform_fee());
}

#[test]
fn set_platform_fee_keeps_admin_and_events() {
    let mut storage = Storage::new();
    EventRegistry::initialize(&mut storage, ADMIN.to_string(), 5);
    EventRegistry::store_event(&mut storage, event("e1", ORGANIZER, 1));
    EventRegistry::set_platform_fee(&mut storage, 100);
    assert_eq!(EventRegistry::get_platform_fee(&storage), 100);
    assert_eq!(EventRegistry::get_admin(&storage), ADMIN.to_string());
    assert!(EventRegistry::event_exists(&storage, "e1".to_string()));
}

#[test]
fn storage_set_admin_replaces_admin() {
    let mut storage = Storage::new();
    storage.set_admin(ADMIN.to_string());
    storage.set_admin(OTHER_ADMIN.to_string());
    assert_eq!(storage.get_admin(), Some(OTHER_ADMIN.to_string()));
    assert!(!storage.has_platform_fee());
}

#[test]
fn storing_keeps_initialisation() {
    let mut storage = Storage::new();
    EventRegistry::initialize(&mut storage, ADMIN.to_string(), 5);
    EventRegistry::store_event(&mut storage, event("e1", ORGANIZER, 1));
    assert!(storage.get_admin().is_some() || storage.has_platform_fee());
    assert_eq!(EventRegistry::get_admin(&storage), ADMIN.to_string());
    assert_eq!(EventRegistry::get_platform_fee(&storage), 5);
}

#[test]
fn read_after_store_gives_record_and_leaves_others() {
    let mut storage = Storage::new();
    EventRegistry::store_event(&mut storage, event("e1", ORGANIZER, 100));
    EventRegistry::store_event(&mut storage, event("e2", ORGANIZER, 200));
    let first = EventRegistry::get_event(&storage, "e1".to_string()).unwrap();
    let second = EventRegistry::get_event(&storage, "e2".to_string()).unwrap();
    assert_eq!(first.created_at, 100);
    assert_eq!(second.created_at, 200);
    assert_eq!(second.event_id, "e2");
}

#[test]
fn updating_an_event_replaces_record_without_relisting() {
    let mut storage = Storage::new();
    EventRegistry::store_event(&mut storage, event("e1", ORGANIZER, 100));
    let mut changed = event("e1", ORGANIZER, 100);
    changed.is_active = false;
    changed.platform_fee_percent = 9;
    EventRegistry::store_event(&mut storage, changed);

    let stored = EventRegistry::get_event(&storage, "e1".to_string()).unwrap();
    assert!(!stored.is_active);
    assert_eq!(stored.platform_fee_percent, 9);
    assert_eq!(
        EventRegistry::get_organizer_events(&storage, &ORGANIZER.to_string()),
        vec!["e1".to_string()]
    );
}

#[test]
fn storing_same_record_twice_equals_once() {
    let mut once = Storage::new();
    EventRegistry::store_event(&mut once, event("e1", ORGANIZER, 100));
    let mut twice = Storage::new();
    EventRegistry::store_event(&mut twice, event("e1", ORGANIZER, 100));
    EventRegistry::store_event(&mut twice, event("e1", ORGANIZER, 100));

    let a = EventRegistry::get_event(&once, "e1".to_string()).unwrap();
    let b = EventRegistry::get_event(&twice, "e1".to_string()).unwrap();
    assert_eq!(a.event_id, b.event_id);
    assert_eq!(a.created_at, b.created_at);
    assert_eq!(
        EventRegistry::get_organizer_events(&once, &ORGANIZER.to_string()),
        EventRegistry::get_organizer_events(&twice, &ORGANIZER.to_string())
    );
}

#[test]
fn organizers_lists_are_kept_apart_and_in_order() {
    let mut storage = Storage::new();
    EventRegistry::store_event(&mut storage, event("a1", ORGANIZER, 1));
    EventRegistry::store_event(&mut storage, event("b1", SECOND_ORGANIZER, 2));
    EventRegistry::store_event(&mut storage, event("a2", ORGANIZER, 3));
    EventRegistry::store_event(&mut storage, event("a1", ORGANIZER, 4));
    EventRegistry::store_event(&mut storage, event("a3", ORGANIZER, 5));

    assert_eq!(
        EventRegistry::get_organizer_events(&storage, &ORGANIZER.to_string()),
        vec!["a1".to_string(), "a2".to_string(), "a3".to_string()]
    );
    assert_eq!(
        EventRegistry::get_organizer_events(&storage, &SECOND_ORGANIZER.to_string()),
        vec!["b1".to_string()]
    );
    assert!(EventRegistry::get_organizer_events(&storage, &PAYMENT.to_string()).is_empty());
}

#[test]
fn stored_event_is_copied_field_by_field() {
    let original = event("e9", ORGANIZER, 42);
    let copy = original.clone();
    assert_eq!(copy.event_id, original.event_id);
    assert_eq!(copy.organizer_address, original.organizer_address);
    assert_eq!(copy.payment_address, original.payment_address);
    assert_eq!(copy.platform_fee_percent, original.platform_fee_percent);
    assert_eq!(copy.is_active, original.is_active);
    assert_eq!(copy.created_at, original.created_at);
}
