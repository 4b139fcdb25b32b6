use vstd::prelude::*;

use crate::storage::{ids_view, organizer_list, stored, Storage, StorageView};
use crate::types::EventInfo;

verus! {

/// The event registry contract. Its entry points act on the contract's
/// [`Storage`].
pub struct EventRegistry;

/// The largest platform fee, in percent, that the registry accepts.
pub const MAX_FEE_PERCENT: u32 = 100u32;

/// An administrator or a platform fee has been stored.
pub open spec fn is_initialized(m: StorageView) -> bool {
    m.admin is Some || m.platform_fee is Some
}

/// What the entry points keep of the stored settings: the administrator
/// and the fee are stored together, and the fee is a percentage.
pub open spec fn settings_valid(m: StorageView) -> bool {
    &&& (m.admin is Some) == (m.platform_fee is Some)
    &&& match m.platform_fee {
        Some(f) => f <= MAX_FEE_PERCENT,
        None => true,
    }
}

impl EventRegistry {
    /// Stores the administrator and the initial platform fee. Allowed once,
    /// and only with a fee of at most 100 percent.
    pub fn initialize(storage: &mut Storage, admin: String, platform_fee_percent: u32)
        requires
            old(storage).wf(),
            !is_initialized(old(storage)@),
            platform_fee_percent <= MAX_FEE_PERCENT,
        ensures
            final(storage).wf(),
            final(storage)@ == (StorageView {
                admin: Some(admin@),
                platform_fee: Some(platform_fee_percent),
                ..old(storage)@
            }),
            settings_valid(final(storage)@),
    {
        storage.set_admin(admin);
        storage.set_platform_fee(platform_fee_percent);
    }

    /// Stores or updates an event.
    pub fn store_event(storage: &mut Storage, event_info: EventInfo)
        requires
            old(storage).wf(),
        ensures
            final(storage).wf(),
            final(storage)@ == stored(old(storage)@, event_info@),
            final(storage)@.events == old(storage)@.events.insert(event_info.event_id@, event_info@),
            final(storage)@.admin == old(storage)@.admin,
            final(storage)@.platform_fee == old(storage)@.platform_fee,
            forall|o: Seq<char>|
                o != event_info.organizer_address@ ==> #[trigger] organizer_list(final(storage)@, o)
                    == organizer_list(old(storage)@, o),
            old(storage)@.events.dom().contains(event_info.event_id@) ==> final(storage)@.organizer_events
                == old(storage)@.organizer_events,
            !old(storage)@.events.dom().contains(event_info.event_id@) ==> organizer_list(
                final(storage)@,
                event_info.organizer_address@,
            ) == organizer_list(old(storage)@, event_info.organizer_address@).push(
                event_info.event_id@,
            ),
            settings_valid(old(storage)@) ==> settings_valid(final(storage)@),
    {
        storage.store_event(event_info);
    }

    /// Retrieves an event by its identifier.
    pub fn get_event(storage: &Storage, event_id: String) -> (found: Option<EventInfo>)
        requires
            storage.wf(),
        ensures
            match found {
                Some(e) => storage@.events.dom().contains(event_id@) && e@
                    == storage@.events[event_id@],
                None => !storage@.events.dom().contains(event_id@),
            },
    {
        storage.get_event(event_id)
    }

    /// Checks if an event exists.
    pub fn event_exists(storage: &Storage, event_id: String) -> (b: bool)
        requires
            storage.wf(),
        ensures
            b == storage@.events.dom().contains(event_id@),
    {
        storage.event_exists(event_id)
    }

    /// Retrieves all event identifiers of an organizer, in the order in
    /// which the events were first stored.
    pub fn get_organizer_events(storage: &Storage, organizer: &String) -> (ids: Vec<String>)
        requires
            storage.wf(),
        ensures
            ids_view(ids@) == organizer_list(storage@, organizer@),
    {
        storage.get_organizer_events(organizer)
    }

    /// Updates the platform fee percentage. The caller must hold the
    /// administrator's authorisation, so an administrator must be stored;
    /// the fee must be at most 100 percent.
    pub fn set_platform_fee(storage: &mut Storage, new_fee_percent: u32)
        requires
            old(storage).wf(),
            old(storage)@.admin is Some,
            new_fee_percent <= MAX_FEE_PERCENT,
        ensures
            final(storage).wf(),
            final(storage)@ == (StorageView { platform_fee: Some(new_fee_percent), ..old(storage)@ }),
            settings_valid(old(storage)@) ==> settings_valid(final(storage)@),
    {
        storage.set_platform_fee(new_fee_percent);
    }

    /// Returns the current platform fee percentage; 0 before initialisation.
    pub fn get_platform_fee(storage: &Storage) -> (fee: u32)
        ensures
            fee == match storage@.platform_fee {
                Some(f) => f,
                None => 0,
            },
    {
        storage.get_platform_fee()
    }

    /// Returns the current administrator address; one must be stored.
    pub fn get_admin(storage: &Storage) -> (admin: String)
        requires
            storage@.admin is Some,
        ensures
            storage@.admin == Some(admin@),
    {
        storage.get_admin().unwrap()
    }
}

} // verus!
