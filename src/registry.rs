//! The registry itself: records, organizer index and global configuration,
//! held in vectors whose keys are kept unique.
use vstd::prelude::*;
use crate::assoc::{
    assoc_map, keys_unique, lemma_assoc_domain, lemma_assoc_push, lemma_assoc_push_unique,
    lemma_assoc_update, lemma_assoc_value,
};
use crate::events::{EventRegistered, EventStatusUpdated, FeeUpdated};
use crate::model::{
    empty_state, index_after_append, initialize_outcome, payment_info_outcome, platform_fee_of,
    register_outcome, set_fee_outcome, store_event_outcome, update_status_outcome, valid,
    RegistryState,
};
use crate::types::{EventInfo, EventRecord, EventRegistryError, Identity, PaymentInfo, MAX_FEE_PERCENT};

verus! {

/// The ids one organizer has registered, oldest first.
pub struct OrganizerEvents {
    pub organizer: Identity,
    pub event_ids: Vec<String>,
}

pub open spec fn ids_view(v: Seq<String>) -> Seq<Seq<char>> {
    v.map_values(|s: String| s@)
}

pub open spec fn event_entries(v: Seq<EventInfo>) -> Seq<(Seq<char>, EventRecord)> {
    v.map_values(|e: EventInfo| (e.event_id@, e@))
}

pub open spec fn index_entries(v: Seq<OrganizerEvents>) -> Seq<(Seq<char>, Seq<Seq<char>>)> {
    v.map_values(|o: OrganizerEvents| (o.organizer@, ids_view(o.event_ids@)))
}

/// Stored parts that make up a registry: the admin and the fee present
/// together, every fee in range, no event id and no organizer twice.
pub open spec fn parts_form_registry(
    has_admin: bool,
    platform_fee: Option<u32>,
    events: Seq<EventInfo>,
    organizer_index: Seq<OrganizerEvents>,
) -> bool {
    &&& has_admin == platform_fee is Some
    &&& (platform_fee matches Some(f) ==> f <= MAX_FEE_PERCENT)
    &&& forall|i: int| 0 <= i < events.len() ==> #[trigger] events[i].platform_fee_percent <= MAX_FEE_PERCENT
    &&& keys_unique(event_entries(events))
    &&& keys_unique(index_entries(organizer_index))
}

proof fn lemma_records_valid(events: Seq<EventInfo>)
    requires
        keys_unique(event_entries(events)),
        forall|i: int| 0 <= i < events.len() ==> #[trigger] events[i].platform_fee_percent <= MAX_FEE_PERCENT,
    ensures
        forall|k: Seq<char>| #[trigger]
            assoc_map(event_entries(events)).contains_key(k) ==> assoc_map(event_entries(events))[k].platform_fee_percent
                <= MAX_FEE_PERCENT && assoc_map(event_entries(events))[k].event_id == k,
{
    let e = event_entries(events);
    assert forall|k: Seq<char>| #[trigger] assoc_map(e).contains_key(k) implies assoc_map(e)[k].platform_fee_percent
        <= MAX_FEE_PERCENT && assoc_map(e)[k].event_id == k by {
        lemma_assoc_domain(e, k);
        let i = choose|i: int| 0 <= i < e.len() && e[i].0 == k;
        lemma_assoc_value(e, i);
        assert(events[i].platform_fee_percent <= MAX_FEE_PERCENT);
    }
}

/// The event registry. Callers say which identity authorized each call; the
/// registry decides whether that identity may do what is asked.
pub struct EventRegistry {
    admin: Option<Identity>,
    platform_fee: Option<u32>,
    events: Vec<EventInfo>,
    organizer_index: Vec<OrganizerEvents>,
}

impl View for EventRegistry {
    type V = RegistryState;

    closed spec fn view(&self) -> RegistryState {
        RegistryState {
            admin: match self.admin {
                Some(a) => Some(a@),
                None => None,
            },
            platform_fee: self.platform_fee,
            events: assoc_map(event_entries(self.events@)),
            organizer_index: assoc_map(index_entries(self.organizer_index@)),
        }
    }
}

impl EventRegistry {
    /// Well-formed: no id stored twice, no organizer listed twice, and the
    /// state is one the operations can reach.
    pub closed spec fn wf(&self) -> bool {
        &&& keys_unique(event_entries(self.events@))
        &&& keys_unique(index_entries(self.organizer_index@))
        &&& valid(self@)
    }

    proof fn lemma_event_at(&self, i: int)
        requires
            keys_unique(event_entries(self.events@)),
            0 <= i < self.events@.len(),
        ensures
            self@.events.contains_key(self.events@[i].event_id@),
            self@.events[self.events@[i].event_id@] == self.events@[i]@,
    {
        lemma_assoc_value(event_entries(self.events@), i);
    }

    proof fn lemma_event_absent(&self, k: Seq<char>)
        requires
            forall|i: int| 0 <= i < self.events@.len() ==> self.events@[i].event_id@ != k,
        ensures
            !self@.events.contains_key(k),
    {
        let e = event_entries(self.events@);
        lemma_assoc_domain(e, k);
        if exists|i: int| 0 <= i < e.len() && e[i].0 == k {
            let i = choose|i: int| 0 <= i < e.len() && e[i].0 == k;
            assert(self.events@[i].event_id@ == k);
        }
    }

    /// The position of the record stored under `event_id`, if any.
    fn find_event(&self, event_id: &String) -> (r: Option<usize>)
        requires
            keys_unique(event_entries(self.events@)),
        ensures
            match r {
                Some(i) => i < self.events@.len() && self.events@[i as int].event_id@ == event_id@
                    && self@.events.contains_key(event_id@) && self@.events[event_id@]
                    == self.events@[i as int]@,
                None => !self@.events.contains_key(event_id@),
            },
    {
        let mut i: usize = 0;
        while i < self.events.len()
            invariant
                keys_unique(event_entries(self.events@)),
                i <= self.events@.len(),
                forall|j: int| 0 <= j < i ==> self.events@[j].event_id@ != event_id@,
            decreases self.events@.len() - i,
        {
            if self.events[i].event_id == *event_id {
                proof {
                    self.lemma_event_at(i as int);
                }
                return Some(i);
            }
            i = i + 1;
        }
        proof {
            self.lemma_event_absent(event_id@);
        }
        None
    }

    /// Appends `event_id` to `organizer`'s list, starting the list if needed.
    fn append_to_index(&mut self, organizer: &Identity, event_id: String)
        requires
            keys_unique(index_entries(old(self).organizer_index@)),
        ensures
            keys_unique(index_entries(final(self).organizer_index@)),
            final(self)@.organizer_index == index_after_append(
                old(self)@.organizer_index,
                organizer@,
                event_id@,
            ),
            final(self).admin == old(self).admin,
            final(self).platform_fee == old(self).platform_fee,
            final(self).events == old(self).events,
    {
        let ghost entries = index_entries(self.organizer_index@);
        let mut i: usize = 0;
        while i < self.organizer_index.len()
            invariant
                self == old(self),
                entries == index_entries(self.organizer_index@),
                keys_unique(entries),
                i <= self.organizer_index@.len(),
                forall|j: int|
                    0 <= j < i ==> self.organizer_index@[j].organizer@ != organizer@,
            decreases self.organizer_index@.len() - i,
        {
            if self.organizer_index[i].organizer.eq(organizer) {
                let ghost before = self.organizer_index@;
                let mut entry = self.organizer_index.remove(i);
                entry.event_ids.push(event_id);
                self.organizer_index.insert(i, entry);
                proof {
                    let ids = ids_view(before[i as int].event_ids@);
                    assert(self.organizer_index@ =~= before.update(i as int, entry));
                    assert(ids_view(entry.event_ids@) =~= ids.push(event_id@));
                    assert(index_entries(self.organizer_index@) =~= entries.update(
                        i as int,
                        (entries[i as int].0, ids.push(event_id@)),
                    ));
                    lemma_assoc_value(entries, i as int);
                    lemma_assoc_update(entries, i as int, ids.push(event_id@));
                }
                return;
            }
            i = i + 1;
        }
        let mut ids: Vec<String> = Vec::new();
        ids.push(event_id);
        let entry = OrganizerEvents { organizer: organizer.duplicate(), event_ids: ids };
        proof {
            lemma_assoc_domain(entries, organizer@);
            if exists|j: int| 0 <= j < entries.len() && entries[j].0 == organizer@ {
                let j = choose|j: int| 0 <= j < entries.len() && entries[j].0 == organizer@;
                assert(self.organizer_index@[j].organizer@ == organizer@);
            }
            assert(ids_view(entry.event_ids@) =~= seq![event_id@]);
        }
        self.organizer_index.push(entry);
        proof {
            assert(index_entries(self.organizer_index@) =~= entries.push(
                (organizer@, seq![event_id@]),
            ));
            lemma_assoc_push(entries, organizer@, seq![event_id@]);
            lemma_assoc_push_unique(entries, organizer@, seq![event_id@]);
        }
    }

    /// Adds a record under an id that no record has yet.
    fn insert_new_event(&mut self, info: EventInfo)
        requires
            keys_unique(event_entries(old(self).events@)),
            !old(self)@.events.contains_key(info.event_id@),
        ensures
            keys_unique(event_entries(final(self).events@)),
            final(self)@.events == old(self)@.events.insert(info.event_id@, info@),
            final(self).admin == old(self).admin,
            final(self).platform_fee == old(self).platform_fee,
            final(self).organizer_index == old(self).organizer_index,
    {
        let ghost entries = event_entries(self.events@);
        self.events.push(info);
        proof {
            assert(event_entries(self.events@) =~= entries.push((info.event_id@, info@)));
            lemma_assoc_push(entries, info.event_id@, info@);
            lemma_assoc_push_unique(entries, info.event_id@, info@);
        }
    }

    /// Replaces the record at position `i` by one with the same id.
    fn replace_event(&mut self, i: usize, info: EventInfo)
        requires
            keys_unique(event_entries(old(self).events@)),
            i < old(self).events@.len(),
            old(self).events@[i as int].event_id@ == info.event_id@,
        ensures
            keys_unique(event_entries(final(self).events@)),
            final(self)@.events == old(self)@.events.insert(info.event_id@, info@),
            final(self).admin == old(self).admin,
            final(self).platform_fee == old(self).platform_fee,
            final(self).organizer_index == old(self).organizer_index,
    {
        let ghost entries = event_entries(self.events@);
        self.events.set(i, info);
        proof {
            assert(event_entries(self.events@) =~= entries.update(
                i as int,
                (entries[i as int].0, info@),
            ));
            lemma_assoc_update(entries, i as int, info@);
        }
    }

    /// An empty registry, not yet initialized.
    pub fn new() -> (r: EventRegistry)
        ensures
            r.wf(),
            r@ == empty_state(),
    {
        let r = EventRegistry {
            admin: None,
            platform_fee: None,
            events: Vec::new(),
            organizer_index: Vec::new(),
        };
        assert(event_entries(r.events@) =~= Seq::empty());
        assert(index_entries(r.organizer_index@) =~= Seq::empty());
        assert(r@.events =~= Map::empty());
        assert(r@.organizer_index =~= Map::empty());
        r
    }

    /// Rebuilds a registry from stored parts, or `None` when they do not form
    /// one: the admin and the fee must be present together, every fee must be
    /// at most `MAX_FEE_PERCENT`, and no event id or organizer may repeat.
    pub fn restore(
        admin: Option<Identity>,
        platform_fee: Option<u32>,
        events: Vec<EventInfo>,
        organizer_index: Vec<OrganizerEvents>,
    ) -> (r: Option<EventRegistry>)
        ensures
            r is Some <==> parts_form_registry(
                admin is Some,
                platform_fee,
                events@,
                organizer_index@,
            ),
            r matches Some(reg) ==> reg.wf() && reg@ == (RegistryState {
                admin: match admin {
                    Some(a) => Some(a@),
                    None => None,
                },
                platform_fee,
                events: assoc_map(event_entries(events@)),
                organizer_index: assoc_map(index_entries(organizer_index@)),
            }),
    {
        if admin.is_some() != platform_fee.is_some() {
            return None;
        }
        if let Some(fee) = platform_fee {
            if fee > MAX_FEE_PERCENT {
                return None;
            }
        }
        let ghost ev = event_entries(events@);
        let mut i: usize = 0;
        while i < events.len()
            invariant
                ev == event_entries(events@),
                i <= events@.len(),
                parts_form_registry(admin is Some, platform_fee, Seq::empty(), Seq::empty()),
                forall|a: int| 0 <= a < i ==> events@[a].platform_fee_percent <= MAX_FEE_PERCENT,
                forall|a: int, b: int| 0 <= a < b < i ==> ev[a].0 != ev[b].0,
            decreases events@.len() - i,
        {
            if events[i].platform_fee_percent > MAX_FEE_PERCENT {
                assert(events@[i as int].platform_fee_percent > MAX_FEE_PERCENT);
                return None;
            }
            let mut j: usize = 0;
            while j < i
                invariant
                    ev == event_entries(events@),
                    j <= i < events@.len(),
                    forall|a: int| 0 <= a < j ==> ev[a].0 != ev[i as int].0,
                decreases i - j,
            {
                if events[j].event_id == events[i].event_id {
                    assert(ev[j as int].0 == ev[i as int].0);
                    return None;
                }
                j = j + 1;
            }
            i = i + 1;
        }
        let ghost ix = index_entries(organizer_index@);
        let mut i: usize = 0;
        while i < organizer_index.len()
            invariant
                ix == index_entries(organizer_index@),
                i <= organizer_index@.len(),
                forall|a: int, b: int| 0 <= a < b < i ==> ix[a].0 != ix[b].0,
            decreases organizer_index@.len() - i,
        {
            let mut j: usize = 0;
            while j < i
                invariant
                    ix == index_entries(organizer_index@),
                    j <= i < organizer_index@.len(),
                    forall|a: int| 0 <= a < j ==> ix[a].0 != ix[i as int].0,
                decreases i - j,
            {
                if organizer_index[j].organizer.eq(&organizer_index[i].organizer) {
                    assert(ix[j as int].0 == ix[i as int].0);
                    return None;
                }
                j = j + 1;
            }
            i = i + 1;
        }
        let reg = EventRegistry { admin, platform_fee, events, organizer_index };
        proof {
            lemma_records_valid(reg.events@);
        }
        Some(reg)
    }

    /// Sets the administrator and the initial platform fee, once.
    pub fn initialize(&mut self, admin: Identity, platform_fee_percent: u32) -> (r: Result<
        (),
        EventRegistryError,
    >)
        requires
            old(self).wf(),
        ensures
            final(self).wf(),
            match initialize_outcome(old(self)@, admin@, platform_fee_percent) {
                Ok(t) => r is Ok && final(self)@ == t,
                Err(e) => r == Err::<(), EventRegistryError>(e) && final(self)@ == old(self)@,
            },
    {
        if self.admin.is_some() || self.platform_fee.is_some() {
            return Err(EventRegistryError::AlreadyInitialized);
        }
        if platform_fee_percent > MAX_FEE_PERCENT {
            return Err(EventRegistryError::InvalidFeePercent);
        }
        self.admin = Some(admin);
        self.platform_fee = Some(platform_fee_percent);
        Ok(())
    }

    /// Registers a new event under `event_id`, authorized by its organizer.
    /// The record is active, carries the current global fee and `now` as its
    /// creation time, and its id is appended to the organizer's index.
    pub fn register_event(
        &mut self,
        caller: &Identity,
        event_id: String,
        organizer_address: Identity,
        payment_address: Identity,
        now: u64,
    ) -> (r: Result<EventRegistered, EventRegistryError>)
        requires
            old(self).wf(),
        ensures
            final(self).wf(),
            match register_outcome(
                old(self)@,
                caller@,
                event_id@,
                organizer_address@,
                payment_address@,
                now,
            ) {
                Ok(t) => final(self)@ == t && (r matches Ok(n) && n.event_id@ == event_id@
                    && n.organizer_address@ == organizer_address@ && n.payment_address@
                    == payment_address@ && n.timestamp == now),
                Err(e) => r == Err::<EventRegistered, EventRegistryError>(e) && final(self)@
                    == old(self)@,
            },
    {
        if !caller.eq(&organizer_address) {
            return Err(EventRegistryError::Unauthorized);
        }
        if self.find_event(&event_id).is_some() {
            return Err(EventRegistryError::EventAlreadyExists);
        }
        let fee = match self.platform_fee {
            Some(fee) => fee,
            None => {
                return Err(EventRegistryError::NotInitialized);
            },
        };
        let info = EventInfo {
            event_id: event_id.clone(),
            organizer_address: organizer_address.duplicate(),
            payment_address: payment_address.duplicate(),
            platform_fee_percent: fee,
            is_active: true,
            created_at: now,
        };
        self.insert_new_event(info);
        self.append_to_index(&organizer_address, event_id.clone());
        proof {
            assert(self@ == register_outcome(
                old(self)@,
                caller@,
                event_id@,
                organizer_address@,
                payment_address@,
                now,
            )->Ok_0);
        }
        Ok(
            EventRegistered {
                event_id,
                organizer_address,
                payment_address,
                timestamp: now,
            },
        )
    }

    /// Where payments for an active event go, and the fee it was registered with.
    pub fn get_event_payment_info(&self, event_id: String) -> (r: Result<
        PaymentInfo,
        EventRegistryError,
    >)
        requires
            self.wf(),
        ensures
            match payment_info_outcome(self@, event_id@) {
                Ok((payment, fee)) => r matches Ok(info) && info.payment_address@ == payment
                    && info.platform_fee_percent == fee,
                Err(e) => r == Err::<PaymentInfo, EventRegistryError>(e),
            },
    {
        match self.find_event(&event_id) {
            None => Err(EventRegistryError::EventNotFound),
            Some(i) => {
                let info = &self.events[i];
                if !info.is_active {
                    return Err(EventRegistryError::EventInactive);
                }
                Ok(
                    PaymentInfo {
                        payment_address: info.payment_address.duplicate(),
                        platform_fee_percent: info.platform_fee_percent,
                    },
                )
            },
        }
    }

    /// Sets whether an event is active; only its organizer may do so.
    pub fn update_event_status(
        &mut self,
        caller: &Identity,
        event_id: String,
        is_active: bool,
        now: u64,
    ) -> (r: Result<EventStatusUpdated, EventRegistryError>)
        requires
            old(self).wf(),
        ensures
            final(self).wf(),
            match update_status_outcome(old(self)@, caller@, event_id@, is_active) {
                Ok(t) => final(self)@ == t && (r matches Ok(n) && n.event_id@ == event_id@
                    && n.is_active == is_active && n.updated_by@
                    == old(self)@.events[event_id@].organizer && n.timestamp == now),
                Err(e) => r == Err::<EventStatusUpdated, EventRegistryError>(e) && final(self)@
                    == old(self)@,
            },
    {
        match self.find_event(&event_id) {
            None => Err(EventRegistryError::EventNotFound),
            Some(i) => {
                let organizer = self.events[i].organizer_address.duplicate();
                if !caller.eq(&organizer) {
                    return Err(EventRegistryError::Unauthorized);
                }
                let mut info = self.events[i].duplicate();
                info.is_active = is_active;
                self.replace_event(i, info);
                proof {
                    assert(info@ == EventRecord { is_active, ..old(self)@.events[event_id@] });
                    assert(self@ == update_status_outcome(
                        old(self)@,
                        caller@,
                        event_id@,
                        is_active,
                    )->Ok_0);
                }
                Ok(EventStatusUpdated { event_id, is_active, updated_by: organizer, timestamp: now })
            },
        }
    }

    /// Writes a whole record as given, replacing any record under its id.
    /// Only the administrator may do so, and only with a fee in range.
    pub fn store_event(&mut self, caller: &Identity, event_info: EventInfo) -> (r: Result<
        (),
        EventRegistryError,
    >)
        requires
            old(self).wf(),
        ensures
            final(self).wf(),
            match store_event_outcome(old(self)@, caller@, event_info@) {
                Ok(t) => r is Ok && final(self)@ == t,
                Err(e) => r == Err::<(), EventRegistryError>(e) && final(self)@ == old(self)@,
            },
    {
        match &self.admin {
            None => {
                return Err(EventRegistryError::NotInitialized);
            },
            Some(admin) => {
                if !caller.eq(admin) {
                    return Err(EventRegistryError::Unauthorized);
                }
            },
        }
        if event_info.platform_fee_percent > MAX_FEE_PERCENT {
            return Err(EventRegistryError::InvalidFeePercent);
        }
        match self.find_event(&event_info.event_id) {
            Some(i) => {
                self.replace_event(i, event_info);
            },
            None => {
                let organizer = event_info.organizer_address.duplicate();
                let event_id = event_info.event_id.clone();
                self.insert_new_event(event_info);
                self.append_to_index(&organizer, event_id);
            },
        }
        proof {
            assert(self@ == store_event_outcome(old(self)@, caller@, event_info@)->Ok_0);
        }
        Ok(())
    }

    /// The record stored under `event_id`, active or not.
    pub fn get_event(&self, event_id: String) -> (r: Option<EventInfo>)
        requires
            self.wf(),
        ensures
            match r {
                Some(info) => self@.events.contains_key(event_id@) && info@
                    == self@.events[event_id@],
                None => !self@.events.contains_key(event_id@),
            },
    {
        match self.find_event(&event_id) {
            Some(i) => Some(self.events[i].duplicate()),
            None => None,
        }
    }

    /// Whether a record is stored under `event_id`.
    pub fn event_exists(&self, event_id: String) -> (r: bool)
        requires
            self.wf(),
        ensures
            r == self@.events.contains_key(event_id@),
    {
        self.find_event(&event_id).is_some()
    }

    /// The ids `organizer` has registered, oldest first; empty if none.
    pub fn get_organizer_events(&self, organizer: Identity) -> (r: Vec<String>)
        requires
            self.wf(),
        ensures
            ids_view(r@) == (if self@.organizer_index.contains_key(organizer@) {
                self@.organizer_index[organizer@]
            } else {
                Seq::empty()
            }),
    {
        let ghost entries = index_entries(self.organizer_index@);
        let mut i: usize = 0;
        while i < self.organizer_index.len()
            invariant
                entries == index_entries(self.organizer_index@),
                keys_unique(entries),
                i <= self.organizer_index@.len(),
                forall|j: int|
                    0 <= j < i ==> self.organizer_index@[j].organizer@ != organizer@,
            decreases self.organizer_index@.len() - i,
        {
            let entry = &self.organizer_index[i];
            if entry.organizer.eq(&organizer) {
                let mut out: Vec<String> = Vec::new();
                let mut k: usize = 0;
                assert(ids_view(out@) =~= ids_view(entry.event_ids@).subrange(0, 0));
                while k < entry.event_ids.len()
                    invariant
                        k <= entry.event_ids@.len(),
                        ids_view(out@) == ids_view(entry.event_ids@).subrange(0, k as int),
                    decreases entry.event_ids@.len() - k,
                {
                    let id = entry.event_ids[k].clone();
                    let ghost before = out@;
                    out.push(id);
                    proof {
                        assert(ids_view(out@) =~= ids_view(before).push(id@));
                        assert(ids_view(out@) =~= ids_view(entry.event_ids@).subrange(
                            0,
                            k + 1,
                        ));
                    }
                    k = k + 1;
                }
                proof {
                    assert(ids_view(entry.event_ids@).subrange(0, k as int) =~= ids_view(
                        entry.event_ids@,
                    ));
                    lemma_assoc_value(entries, i as int);
                }
                return out;
            }
            i = i + 1;
        }
        proof {
            lemma_assoc_domain(entries, organizer@);
            if exists|j: int| 0 <= j < entries.len() && entries[j].0 == organizer@ {
                let j = choose|j: int| 0 <= j < entries.len() && entries[j].0 == organizer@;
                assert(self.organizer_index@[j].organizer@ == organizer@);
            }
        }
        let out: Vec<String> = Vec::new();
        assert(ids_view(out@) =~= Seq::empty());
        out
    }

    /// Sets the global platform fee; only the administrator may do so. Records
    /// already stored keep the fee they were registered with.
    pub fn set_platform_fee(&mut self, caller: &Identity, new_fee_percent: u32) -> (r: Result<
        FeeUpdated,
        EventRegistryError,
    >)
        requires
            old(self).wf(),
        ensures
            final(self).wf(),
            match set_fee_outcome(old(self)@, caller@, new_fee_percent) {
                Ok(t) => final(self)@ == t && r == Ok::<FeeUpdated, EventRegistryError>(
                    FeeUpdated { new_fee_percent },
                ),
                Err(e) => r == Err::<FeeUpdated, EventRegistryError>(e) && final(self)@
                    == old(self)@,
            },
    {
        match &self.admin {
            None => {
                return Err(EventRegistryError::NotInitialized);
            },
            Some(admin) => {
                if !caller.eq(admin) {
                    return Err(EventRegistryError::Unauthorized);
                }
            },
        }
        if new_fee_percent > MAX_FEE_PERCENT {
            return Err(EventRegistryError::InvalidFeePercent);
        }
        self.platform_fee = Some(new_fee_percent);
        Ok(FeeUpdated { new_fee_percent })
    }

    /// The current global platform fee; zero before initialization.
    pub fn get_platform_fee(&self) -> (r: u32)
        ensures
            r == platform_fee_of(self@),
    {
        match self.platform_fee {
            Some(fee) => fee,
            None => 0,
        }
    }

    /// The administrator.
    pub fn get_admin(&self) -> (r: Result<Identity, EventRegistryError>)
        ensures
            match self@.admin {
                Some(a) => r matches Ok(id) && id@ == a,
                None => r == Err::<Identity, EventRegistryError>(
                    EventRegistryError::NotInitialized,
                ),
            },
    {
        match &self.admin {
            Some(a) => Ok(a.duplicate()),
            None => Err(EventRegistryError::NotInitialized),
        }
    }
}

} // verus!
