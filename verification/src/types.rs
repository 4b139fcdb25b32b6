use vstd::prelude::*;

verus! {

/// The record kept for one event.
pub struct EventInfo {
    /// Identifier under which the event is stored.
    pub event_id: String,
    /// Address of the organizer that runs the event.
    pub organizer_address: String,
    /// Address that receives the payments for the event.
    pub payment_address: String,
    /// Share of each payment taken by the platform, in percent.
    pub platform_fee_percent: u32,
    /// Whether the event is open.
    pub is_active: bool,
    /// Ledger time at which the event was created.
    pub created_at: u64,
}

/// What an [`EventInfo`] holds, as mathematical values.
pub struct EventInfoView {
    pub event_id: Seq<char>,
    pub organizer_address: Seq<char>,
    pub payment_address: Seq<char>,
    pub platform_fee_percent: u32,
    pub is_active: bool,
    pub created_at: u64,
}

impl View for EventInfo {
    type V = EventInfoView;

    open spec fn view(&self) -> EventInfoView {
        EventInfoView {
            event_id: self.event_id@,
            organizer_address: self.organizer_address@,
            payment_address: self.payment_address@,
            platform_fee_percent: self.platform_fee_percent,
            is_active: self.is_active,
            created_at: self.created_at,
        }
    }
}

impl Clone for EventInfo {
    /// A copy of the record, field by field.
    fn clone(&self) -> (copy: EventInfo)
        ensures
            copy@ == self@,
    {
        EventInfo {
            event_id: self.event_id.clone(),
            organizer_address: self.organizer_address.clone(),
            payment_address: self.payment_address.clone(),
            platform_fee_percent: self.platform_fee_percent,
            is_active: self.is_active,
            created_at: self.created_at,
        }
    }
}

} // verus!
