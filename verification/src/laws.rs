use vstd::prelude::*;

use crate::registry::{is_initialized, settings_valid};
use crate::storage::{organizer_list, stored, StorageView};
use crate::types::EventInfoView;

verus! {

/// Reading an identifier after storing an event gives back that event; every
/// other identifier reads as it did before, and the administrator and the
/// fee are untouched.
pub proof fn law_read_after_store(m: StorageView, e: EventInfoView, id: Seq<char>)
    ensures
        stored(m, e).events.dom().contains(e.event_id),
        stored(m, e).events[e.event_id] == e,
        id != e.event_id ==> (stored(m, e).events.dom().contains(id) <==> m.events.dom().contains(
            id,
        )),
        id != e.event_id && m.events.dom().contains(id) ==> stored(m, e).events[id]
            == m.events[id],
        stored(m, e).admin == m.admin,
        stored(m, e).platform_fee == m.platform_fee,
{
}

/// Storing the same record a second time changes nothing.
pub proof fn law_store_idempotent(m: StorageView, e: EventInfoView)
    ensures
        stored(stored(m, e), e) == stored(m, e),
{
    assert(stored(m, e).events.insert(e.event_id, e) =~= stored(m, e).events);
    assert(stored(stored(m, e), e) =~= stored(m, e));
}

/// Organizer lists only grow at their end: whatever a list held before a
/// store, it holds afterwards in the same order, and an event stored for the
/// first time ends its organizer's list.
pub proof fn law_lists_grow_at_end(m: StorageView, e: EventInfoView, organizer: Seq<char>)
    ensures
        organizer_list(m, organizer).is_prefix_of(organizer_list(stored(m, e), organizer)),
        !m.events.dom().contains(e.event_id) ==> organizer_list(stored(m, e), e.organizer_address)
            == organizer_list(m, e.organizer_address).push(e.event_id),
        m.events.dom().contains(e.event_id) ==> organizer_list(stored(m, e), organizer)
            == organizer_list(m, organizer),
{
    let before = organizer_list(m, organizer);
    let after = organizer_list(stored(m, e), organizer);
    if !m.events.dom().contains(e.event_id) && organizer == e.organizer_address {
        assert(after == before.push(e.event_id));
        assert(before =~= after.subrange(0, before.len() as int));
    } else {
        assert(after == before);
        assert(before =~= after.subrange(0, before.len() as int));
    }
}

/// Storing an event touches no organizer list but that of the event's own
/// organizer: every other address keeps exactly the list it had, whatever
/// the administrator or the payment address; a record that replaces one
/// already stored touches no list at all; and an event stored for the first
/// time is appended to its organizer's list and nothing else is.
pub proof fn law_store_lists_only_its_organizer(m: StorageView, e: EventInfoView, o: Seq<char>)
    ensures
        o != e.organizer_address ==> organizer_list(stored(m, e), o) == organizer_list(m, o),
        m.events.dom().contains(e.event_id) ==> organizer_list(stored(m, e), o)
            == organizer_list(m, o),
        !m.events.dom().contains(e.event_id) ==> organizer_list(stored(m, e), e.organizer_address)
            == organizer_list(m, e.organizer_address).push(e.event_id),
{
}

/// Once initialised, the registry stays initialised: neither storing an
/// event nor changing the fee undoes it, so a second initialisation is
/// never allowed.
pub proof fn law_initialized_stays(m: StorageView, e: EventInfoView, fee: u32)
    requires
        is_initialized(m),
    ensures
        is_initialized(stored(m, e)),
        is_initialized(StorageView { platform_fee: Some(fee), ..m }),
{
}

/// Empty storage satisfies the settings invariant that every entry point
/// keeps.
pub proof fn law_settings_valid_initially(m: StorageView)
    requires
        m.admin is None,
        m.platform_fee is None,
    ensures
        settings_valid(m),
{
}

} // verus!
