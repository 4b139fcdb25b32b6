use event_registry::registry::EventRegistry;
use event_registry::storage::Storage;
use event_registry::types::EventInfo;
use event_registry::SECONDS_PER_MONTH;

const ADMIN: &str = "GBADMINXQ3S7K2ZQ7W5Y4T6FJ2HRN4LKDPSV3X6UEOCGEJ4OJ5GYAXAA";
const ORGANIZER: &str = "GDORGANIZERK5V3Q2YJ7R6MZ4WBT2LNHC4XQFIUSGOKDA5PJTV7EYAAA";
const PAYMENT: &str = "GCPAYMENTZ7JQK4XQ2ZKF5MWX3N4Y6B2HTRDV7UGLOESC5AIPJ3QYAAA";

#[test]
fn test_initialize() {
    let mut storage = Storage::new();
    let admin = ADMIN.to_string();

    EventRegistry::initialize(&mut storage, admin.clone(), 5);

    assert_eq!(EventRegistry::get_platform_fee(&storage), 5);
    assert_eq!(EventRegistry::get_admin(&storage), admin);
}

#[test]
fn test_set_platform_fee() {
    let mut storage = Storage::new();
    let admin = ADMIN.to_string();

    EventRegistry::initialize(&mut storage, admin, 5);
    EventRegistry::set_platform_fee(&mut storage, 10);

    assert_eq!(EventRegistry::get_platform_fee(&storage), 10);
}

#[test]
fn test_storage_operations() {
    let mut storage = Storage::new();
    let admin = ADMIN.to_string();
    EventRegistry::initialize(&mut storage, admin, 5);

    let organizer = ORGANIZER.to_string();
    let payment_address = PAYMENT.to_string();
    let event_id = "event_123".to_string();

    let event_info = EventInfo {
        event_id: event_id.clone(),
        organizer_address: organizer.clone(),
        payment_address: payment_address.clone(),
        platform_fee_percent: 5,
        is_active: true,
        created_at: 0,
    };

    EventRegistry::store_event(&mut storage, event_info);

    assert!(EventRegistry::event_exists(&storage, event_id.clone()));

    let stored_event = EventRegistry::get_event(&storage, event_id.clone()).unwrap();
    assert_eq!(stored_event.event_id, event_id);
    assert_eq!(stored_event.organizer_address, organizer);
    assert_eq!(stored_event.payment_address, payment_address);
    assert_eq!(stored_event.platform_fee_percent, 5);
    assert!(stored_event.is_active);

    let fake_id = "fake".to_string();
    assert!(!EventRegistry::event_exists(&storage, fake_id.clone()));
    assert!(EventRegistry::get_event(&storage, fake_id).is_none());
}

#[test]
fn test_organizer_events_list() {
    let organizer = ORGANIZER.to_string();
    let payment_address = PAYMENT.to_string();

    let event_1 = EventInfo {
        event_id: "e1".to_string(),
        organizer_address: organizer.clone(),
        payment_address: payment_address.clone(),
        platform_fee_percent: 5,
        is_active: true,
        created_at: 100,
    };

    let event_2 = EventInfo {
        event_id: "e2".to_string(),
        organizer_address: organizer.clone(),
        payment_address: payment_address.clone(),
        platform_fee_percent: 5,
        is_active: true,
        created_at: 200,
    };

    let mut storage = Storage::new();

    EventRegistry::store_event(&mut storage, event_1.clone());
    EventRegistry::store_event(&mut storage, event_2.clone());

    let event_exists_1 = EventRegistry::event_exists(&storage, event_1.event_id.clone());
    let event_exists_2 = EventRegistry::event_exists(&storage, event_2.event_id.clone());
    assert!(event_exists_1);
    assert!(event_exists_2);

    let organizer_events = EventRegistry::get_organizer_events(&storage, &organizer);
    assert_eq!(organizer_events.len(), 2);
    assert_eq!(organizer_events[0], event_1.event_id);
    assert_eq!(organizer_events[1], event_2.event_id);
}

#[test]
fn test_seconds_per_month_value() {
    assert_eq!(SECONDS_PER_MONTH, 30 * 24 * 60 * 60);
}
