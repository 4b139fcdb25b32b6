use vstd::prelude::*;

use crate::table::{by_key, find_key, keys_distinct, lemma_by_key_at, lemma_by_key_push, lemma_by_key_update, Keyed};
use crate::laws::law_store_lists_only_its_organizer;
use crate::types::{EventInfo, EventInfoView};

verus! {

impl Keyed for EventInfo {
    open spec fn key(&self) -> Seq<char> {
        self.event_id@
    }

    fn key_str(&self) -> (k: &String) {
        &self.event_id
    }
}

/// The identifiers of the events of one organizer, in the order in which
/// the events were first stored.
struct OrganizerEvents {
    organizer: String,
    event_ids: Vec<String>,
}

impl Keyed for OrganizerEvents {
    closed spec fn key(&self) -> Seq<char> {
        self.organizer@
    }

    fn key_str(&self) -> (k: &String) {
        &self.organizer
    }
}

/// The ledger state of the registry: what the contract has stored.
pub struct Storage {
    admin: Option<String>,
    platform_fee: Option<u32>,
    events: Vec<EventInfo>,
    organizers: Vec<OrganizerEvents>,
}

/// What a [`Storage`] holds, as mathematical values.
pub struct StorageView {
    /// The administrator's address, once one is stored.
    pub admin: Option<Seq<char>>,
    /// The platform fee in percent, once one is stored.
    pub platform_fee: Option<u32>,
    /// The stored events, by identifier.
    pub events: Map<Seq<char>, EventInfoView>,
    /// For each organizer with events, their identifiers in order.
    pub organizer_events: Map<Seq<char>, Seq<Seq<char>>>,
}

/// A list of identifiers as strings of characters.
pub open spec fn ids_view(ids: Seq<String>) -> Seq<Seq<char>> {
    ids.map_values(|s: String| s@)
}

/// The identifiers listed for `organizer`; none when nothing is listed.
pub open spec fn organizer_list(m: StorageView, organizer: Seq<char>) -> Seq<Seq<char>> {
    if m.organizer_events.dom().contains(organizer) {
        m.organizer_events[organizer]
    } else {
        Seq::empty()
    }
}

/// Each organizer's list names no event twice, and names only stored events.
pub open spec fn lists_consistent(m: StorageView) -> bool {
    forall|o: Seq<char>| #[trigger]
        m.organizer_events.dom().contains(o) ==> {
            &&& m.organizer_events[o].no_duplicates()
            &&& forall|k: int|
                0 <= k < m.organizer_events[o].len() ==> m.events.dom().contains(
                    #[trigger] m.organizer_events[o][k],
                )
        }
}

/// The state after storing `e` in `m`: the record is written under its
/// identifier, and an identifier seen for the first time is appended to its
/// organizer's list.
pub open spec fn stored(m: StorageView, e: EventInfoView) -> StorageView {
    StorageView {
        events: m.events.insert(e.event_id, e),
        organizer_events: if m.events.dom().contains(e.event_id) {
            m.organizer_events
        } else {
            m.organizer_events.insert(
                e.organizer_address,
                organizer_list(m, e.organizer_address).push(e.event_id),
            )
        },
        ..m
    }
}

/// An optional string as an optional sequence of characters.
pub open spec fn opt_view(o: Option<String>) -> Option<Seq<char>> {
    match o {
        Some(s) => Some(s@),
        None => None,
    }
}

impl View for Storage {
    type V = StorageView;

    closed spec fn view(&self) -> StorageView {
        StorageView {
            admin: opt_view(self.admin),
            platform_fee: self.platform_fee,
            events: by_key(self.events@).map_values(|e: EventInfo| e@),
            organizer_events: by_key(self.organizers@).map_values(
                |o: OrganizerEvents| ids_view(o.event_ids@),
            ),
        }
    }
}

impl Storage {
    /// The storage is well formed: one record per key, and the organizer
    /// lists are consistent with the stored events.
    pub closed spec fn wf(&self) -> bool {
        &&& keys_distinct(self.events@)
        &&& keys_distinct(self.organizers@)
        &&& lists_consistent(self@)
    }

    /// In well-formed storage every organizer list names only stored events,
    /// none of them twice.
    pub proof fn lemma_lists_consistent(&self)
        requires
            self.wf(),
        ensures
            lists_consistent(self@),
    {
    }

    /// Empty storage, as a contract starts with.
    pub fn new() -> (s: Storage)
        ensures
            s.wf(),
            s@.admin is None,
            s@.platform_fee is None,
            s@.events == Map::<Seq<char>, EventInfoView>::empty(),
            s@.organizer_events == Map::<Seq<char>, Seq<Seq<char>>>::empty(),
    {
        let s = Storage { admin: None, platform_fee: None, events: Vec::new(), organizers: Vec::new() };
        assert(s@.events =~= Map::<Seq<char>, EventInfoView>::empty());
        assert(s@.organizer_events =~= Map::<Seq<char>, Seq<Seq<char>>>::empty());
        s
    }

    /// The stored administrator, if any.
    pub fn get_admin(&self) -> (admin: Option<String>)
        ensures
            opt_view(admin) == self@.admin,
    {
        match &self.admin {
            Some(a) => Some(a.clone()),
            None => None,
        }
    }

    /// Stores `admin` as the administrator.
    pub fn set_admin(&mut self, admin: String)
        requires
            old(self).wf(),
        ensures
            final(self).wf(),
            final(self)@ == (StorageView { admin: Some(admin@), ..old(self)@ }),
    {
        self.admin = Some(admin);
    }

    /// Whether a platform fee is stored.
    pub fn has_platform_fee(&self) -> (b: bool)
        ensures
            b == self@.platform_fee is Some,
    {
        self.platform_fee.is_some()
    }

    /// The stored platform fee; 0 when none is stored.
    pub fn get_platform_fee(&self) -> (fee: u32)
        ensures
            fee == match self@.platform_fee {
                Some(f) => f,
                None => 0,
            },
    {
        match self.platform_fee {
            Some(f) => f,
            None => 0,
        }
    }

    /// Stores `fee` as the platform fee.
    pub fn set_platform_fee(&mut self, fee: u32)
        requires
            old(self).wf(),
        ensures
            final(self).wf(),
            final(self)@ == (StorageView { platform_fee: Some(fee), ..old(self)@ }),
    {
        self.platform_fee = Some(fee);
    }

    /// Stores `event_info` under its identifier, replacing any record kept
    /// there; the first time an identifier is stored it is appended to the
    /// list of the event's organizer.
    pub fn store_event(&mut self, event_info: EventInfo)
        requires
            old(self).wf(),
        ensures
            final(self).wf(),
            final(self)@ == stored(old(self)@, event_info@),
            final(self)@.events == old(self)@.events.insert(event_info.event_id@, event_info@),
            final(self)@.admin == old(self)@.admin,
            final(self)@.platform_fee == old(self)@.platform_fee,
            forall|o: Seq<char>|
                o != event_info.organizer_address@ ==> #[trigger] organizer_list(final(self)@, o)
                    == organizer_list(old(self)@, o),
            old(self)@.events.dom().contains(event_info.event_id@) ==> final(self)@.organizer_events
                == old(self)@.organizer_events,
            !old(self)@.events.dom().contains(event_info.event_id@) ==> organizer_list(
                final(self)@,
                event_info.organizer_address@,
            ) == organizer_list(old(self)@, event_info.organizer_address@).push(
                event_info.event_id@,
            ),
    {
        let ghost old_view = self@;
        let ghost event_info_view = event_info@;
        let id = event_info.event_id.clone();
        let organizer = event_info.organizer_address.clone();
        match find_key(&self.events, &event_info.event_id) {
            Some(i) => {
                proof {
                    lemma_by_key_update(self.events@, i as int, event_info);
                    lemma_insert_map_values(
                        by_key(self.events@),
                        event_info.event_id@,
                        event_info,
                        |e: EventInfo| e@,
                    );
                }
                self.events.set(i, event_info);
                assert(self@.events.dom() =~= old_view.events.dom());
                assert(self@.organizer_events == old_view.organizer_events);
            },
            None => {
                proof {
                    lemma_by_key_push(self.events@, event_info);
                    lemma_insert_map_values(
                        by_key(self.events@),
                        event_info.event_id@,
                        event_info,
                        |e: EventInfo| e@,
                    );
                }
                self.events.push(event_info);
                self.append_to_organizer(organizer, id);
                proof {
                    self.lemma_appended_consistent(old_view, event_info@);
                }
            },
        }
        proof {
            assert forall|o: Seq<char>| o != event_info_view.organizer_address implies #[trigger] organizer_list(
                self@,
                o,
            ) == organizer_list(old_view, o) by {
                law_store_lists_only_its_organizer(old_view, event_info_view, o);
            }
            law_store_lists_only_its_organizer(old_view, event_info_view, event_info_view.organizer_address);
        }
    }

    /// After a new event was stored and appended to its organizer's list,
    /// the lists are still consistent.
    proof fn lemma_appended_consistent(&self, old_view: StorageView, e: EventInfoView)
        requires
            lists_consistent(old_view),
            !old_view.events.dom().contains(e.event_id),
            self@.events == old_view.events.insert(e.event_id, e),
            self@.organizer_events == old_view.organizer_events.insert(
                e.organizer_address,
                organizer_list(old_view, e.organizer_address).push(e.event_id),
            ),
        ensures
            lists_consistent(self@),
    {
        let m = self@;
        assert forall|o: Seq<char>| #[trigger] m.organizer_events.dom().contains(o) implies {
            &&& m.organizer_events[o].no_duplicates()
            &&& forall|k: int|
                0 <= k < m.organizer_events[o].len() ==> m.events.dom().contains(
                    #[trigger] m.organizer_events[o][k],
                )
        } by {
            if o == e.organizer_address {
                let l = organizer_list(old_view, o);
                assert forall|k: int| 0 <= k < l.len() implies #[trigger] l[k] != e.event_id by {
                    assert(old_view.organizer_events.dom().contains(o));
                    assert(old_view.events.dom().contains(old_view.organizer_events[o][k]));
                }
                let n = l.push(e.event_id);
                assert(m.organizer_events[o] == n);
                assert forall|a: int, b: int| 0 <= a < n.len() && 0 <= b < n.len() && a != b
                    implies n[a] != n[b] by {
                    if a < l.len() && b < l.len() {
                        assert(old_view.organizer_events.dom().contains(o));
                        assert(l[a] != l[b]);
                    } else if a < l.len() {
                        assert(l[a] != e.event_id);
                    } else {
                        assert(l[b] != e.event_id);
                    }
                }
                assert forall|k: int| 0 <= k < n.len() implies m.events.dom().contains(
                    #[trigger] n[k],
                ) by {
                    if k < l.len() {
                        assert(old_view.organizer_events.dom().contains(o));
                        assert(old_view.events.dom().contains(old_view.organizer_events[o][k]));
                    }
                }
            } else {
                assert(old_view.organizer_events.dom().contains(o));
                assert(m.organizer_events[o] == old_view.organizer_events[o]);
                assert forall|k: int| 0 <= k < m.organizer_events[o].len() implies
                    m.events.dom().contains(#[trigger] m.organizer_events[o][k]) by {
                    assert(old_view.events.dom().contains(old_view.organizer_events[o][k]));
                }
            }
        }
    }

    /// Appends `id` to the list of `organizer`, opening a list for an
    /// organizer that has none.
    fn append_to_organizer(&mut self, organizer: String, id: String)
        requires
            keys_distinct(old(self).organizers@),
        ensures
            keys_distinct(final(self).organizers@),
            final(self).admin == old(self).admin,
            final(self).platform_fee == old(self).platform_fee,
            final(self).events == old(self).events,
            final(self)@.organizer_events == old(self)@.organizer_events.insert(
                organizer@,
                organizer_list(old(self)@, organizer@).push(id@),
            ),
    {
        let ghost old_orgs = self.organizers@;
        let ghost old_view = self@;
        match find_key(&self.organizers, &organizer) {
            Some(j) => {
                proof {
                    lemma_by_key_at(old_orgs, j as int);
                }
                self.organizers[j].event_ids.push(id);
                let ghost entry = self.organizers@[j as int];
                proof {
                    assert(self.organizers@ == old_orgs.update(j as int, entry));
                    lemma_by_key_update(old_orgs, j as int, entry);
                    lemma_insert_map_values(
                        by_key(old_orgs),
                        organizer@,
                        entry,
                        |o: OrganizerEvents| ids_view(o.event_ids@),
                    );
                    assert(ids_view(entry.event_ids@) =~= ids_view(old_orgs[j as int].event_ids@).push(id@));
                }
            },
            None => {
                let mut ids: Vec<String> = Vec::new();
                ids.push(id);
                let entry = OrganizerEvents { organizer, event_ids: ids };
                proof {
                    lemma_by_key_push(old_orgs, entry);
                    lemma_insert_map_values(
                        by_key(old_orgs),
                        entry.organizer@,
                        entry,
                        |o: OrganizerEvents| ids_view(o.event_ids@),
                    );
                    assert(ids_view(entry.event_ids@) =~= Seq::<Seq<char>>::empty().push(id@));
                }
                self.organizers.push(entry);
            },
        }
    }

    /// The record stored under `event_id`, if any.
    pub fn get_event(&self, event_id: String) -> (found: Option<EventInfo>)
        requires
            self.wf(),
        ensures
            match found {
                Some(e) => self@.events.dom().contains(event_id@) && e@ == self@.events[event_id@],
                None => !self@.events.dom().contains(event_id@),
            },
    {
        match find_key(&self.events, &event_id) {
            Some(i) => {
                proof {
                    lemma_by_key_at(self.events@, i as int);
                }
                Some(self.events[i].clone())
            },
            None => None,
        }
    }

    /// Whether a record is stored under `event_id`.
    pub fn event_exists(&self, event_id: String) -> (b: bool)
        requires
            self.wf(),
        ensures
            b == self@.events.dom().contains(event_id@),
    {
        match find_key(&self.events, &event_id) {
            Some(i) => {
                proof {
                    lemma_by_key_at(self.events@, i as int);
                }
                true
            },
            None => false,
        }
    }

    /// The identifiers of the events of `organizer`, in the order in which
    /// they were first stored.
    pub fn get_organizer_events(&self, organizer: &String) -> (ids: Vec<String>)
        requires
            self.wf(),
        ensures
            ids_view(ids@) == organizer_list(self@, organizer@),
    {
        match find_key(&self.organizers, organizer) {
            Some(j) => {
                proof {
                    lemma_by_key_at(self.organizers@, j as int);
                }
                let list = &self.organizers[j].event_ids;
                let mut out: Vec<String> = Vec::new();
                let mut k: usize = 0;
                while k < list.len()
                    invariant
                        k <= list@.len(),
                        ids_view(out@) == ids_view(list@).subrange(0, k as int),
                    decreases list@.len() - k,
                {
                    let c = list[k].clone();
                    let ghost before = out@;
                    out.push(c);
                    assert(ids_view(out@) =~= ids_view(before).push(c@));
                    k = k + 1;
                    assert(ids_view(out@) =~= ids_view(list@).subrange(0, k as int));
                }
                assert(ids_view(list@).subrange(0, k as int) =~= ids_view(list@));
                out
            },
            None => {
                let out: Vec<String> = Vec::new();
                assert(ids_view(out@) =~= Seq::<Seq<char>>::empty());
                out
            },
        }
    }
}

/// Inserting then mapping the values is mapping then inserting.
proof fn lemma_insert_map_values<K, V, W>(m: Map<K, V>, k: K, v: V, f: spec_fn(V) -> W)
    ensures
        m.insert(k, v).map_values(f) == m.map_values(f).insert(k, f(v)),
{
    assert(m.insert(k, v).map_values(f) =~= m.map_values(f).insert(k, f(v)));
}

} // verus!
