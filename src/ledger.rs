use crate::types::{same_address, Address, Event, EventError, Location, Ticket, Tier};
use vstd::prelude::*;

verus! {

/// One event: its base-tier copy, its fast-tier copy while delegated, and
/// where its authoritative state lives.
pub struct EventEntry {
    pub address: Address,
    pub base: Event,
    pub fast: Option<Event>,
    pub location: Location,
}

/// One ticket address: the ticket as each tier holds it.
#[derive(Clone, Copy)]
pub struct TicketEntry {
    pub address: Address,
    pub base: Option<Ticket>,
    pub fast: Option<Ticket>,
}

/// The records of the program on both tiers, each at its derived address.
pub struct Ledger {
    pub program_id: Address,
    /// Whether checking a ticket in needs the event organizer's signature.
    pub require_organizer_signature_on_checkin: bool,
    pub events: Vec<EventEntry>,
    pub tickets: Vec<TicketEntry>,
}

pub open spec fn copy_on<T>(tier: Tier, base: T, fast: Option<T>) -> Option<T> {
    match tier {
        Tier::Base => Some(base),
        Tier::Fast => fast,
    }
}

pub open spec fn ticket_copy_on(tier: Tier, base: Option<Ticket>, fast: Option<Ticket>) -> Option<Ticket> {
    match tier {
        Tier::Base => base,
        Tier::Fast => fast,
    }
}

/// Whether a tier may act on an event at `location`.
pub open spec fn is_authority(tier: Tier, location: Location) -> bool {
    match tier {
        Tier::Base => location is Base,
        Tier::Fast => location is Fast,
    }
}

impl Ledger {
    pub open spec fn has_event_at(self, a: Address, i: int) -> bool {
        0 <= i < self.events@.len() && self.events@[i].address == a
    }

    pub open spec fn has_ticket_at(self, a: Address, i: int) -> bool {
        0 <= i < self.tickets@.len() && self.tickets@[i].address == a
    }

    /// The entry of the event at `a`, if any.
    pub open spec fn event_entry(self, a: Address) -> Option<EventEntry> {
        if exists|i: int| self.has_event_at(a, i) {
            Some(self.events@[choose|i: int| self.has_event_at(a, i)])
        } else {
            None
        }
    }

    /// The entry of the ticket address `a`, if any.
    pub open spec fn ticket_entry(self, a: Address) -> Option<TicketEntry> {
        if exists|i: int| self.has_ticket_at(a, i) {
            Some(self.tickets@[choose|i: int| self.has_ticket_at(a, i)])
        } else {
            None
        }
    }

    /// The event at `a` as `tier` holds it.
    pub open spec fn event_on(self, tier: Tier, a: Address) -> Option<Event> {
        match self.event_entry(a) {
            Some(e) => copy_on(tier, e.base, e.fast),
            None => None,
        }
    }

    /// The ticket at `a` as `tier` holds it.
    pub open spec fn ticket_on(self, tier: Tier, a: Address) -> Option<Ticket> {
        match self.ticket_entry(a) {
            Some(t) => ticket_copy_on(tier, t.base, t.fast),
            None => None,
        }
    }

    /// Where the authoritative state of the event at `a` lives.
    pub open spec fn location(self, a: Address) -> Option<Location> {
        match self.event_entry(a) {
            Some(e) => Some(e.location),
            None => None,
        }
    }

    /// Whether `tier` holds the authoritative state of the event at `a`.
    pub open spec fn authoritative(self, tier: Tier, a: Address) -> bool {
        match self.location(a) {
            Some(l) => is_authority(tier, l),
            None => false,
        }
    }

    /// Well-formedness: one entry per address; a fast copy exactly while
    /// the fast tier holds or hands back authority.
    pub open spec fn wf(self) -> bool {
        &&& forall|i: int, j: int|
            0 <= i < j < self.events@.len() ==> self.events@[i].address != self.events@[j].address
        &&& forall|i: int, j: int|
            0 <= i < j < self.tickets@.len() ==> self.tickets@[i].address
                != self.tickets@[j].address
        &&& forall|i: int|
            0 <= i < self.events@.len() ==> ((#[trigger] self.events@[i]).fast is Some
                <==> (self.events@[i].location is Fast || self.events@[i].location is UndelegatingToBase))
    }

    /// All records other than the `tier` copy of the event at `a` are as in `old`.
    pub open spec fn only_event_changed(self, old: Ledger, tier: Tier, a: Address) -> bool {
        &&& self.program_id == old.program_id
        &&& self.require_organizer_signature_on_checkin == old.require_organizer_signature_on_checkin
        &&& forall|t: Tier, b: Address|
            (b != a || t != tier) ==> #[trigger] self.event_on(t, b) == old.event_on(t, b)
        &&& forall|b: Address| #[trigger] self.location(b) == old.location(b)
        &&& forall|t: Tier, b: Address| #[trigger] self.ticket_on(t, b) == old.ticket_on(t, b)
    }

    pub(crate) proof fn lemma_event_at(self, a: Address, i: int)
        requires
            self.wf(),
            self.has_event_at(a, i),
        ensures
            self.event_entry(a) == Some(self.events@[i]),
    {
        let j = choose|j: int| self.has_event_at(a, j);
        assert(j == i) by {
            if j < i {
                assert(self.events@[j].address != self.events@[i].address);
            } else if i < j {
                assert(self.events@[i].address != self.events@[j].address);
            }
        }
    }

    pub(crate) proof fn lemma_ticket_at(self, a: Address, i: int)
        requires
            self.wf(),
            self.has_ticket_at(a, i),
        ensures
            self.ticket_entry(a) == Some(self.tickets@[i]),
    {
        let j = choose|j: int| self.has_ticket_at(a, j);
        assert(j == i) by {
            if j < i {
                assert(self.tickets@[j].address != self.tickets@[i].address);
            } else if i < j {
                assert(self.tickets@[i].address != self.tickets@[j].address);
            }
        }
    }

    /// Where the entry at index `i` alone changed, keeping its address, every
    /// other address sees the same entry.
    pub(crate) proof fn lemma_event_frame(self, old: Ledger, i: int)
        requires
            old.wf(),
            self.wf(),
            0 <= i < old.events@.len(),
            self.events@ == old.events@.update(i, self.events@[i]),
            self.events@[i].address == old.events@[i].address,
        ensures
            self.event_entry(old.events@[i].address) == Some(self.events@[i]),
            forall|b: Address|
                b != old.events@[i].address ==> #[trigger] self.event_entry(b) == old.event_entry(b),
    {
        self.lemma_event_at(old.events@[i].address, i);
        assert forall|b: Address| b != old.events@[i].address implies #[trigger] self.event_entry(b)
            == old.event_entry(b) by {
            if exists|j: int| old.has_event_at(b, j) {
                let j = choose|j: int| old.has_event_at(b, j);
                old.lemma_event_at(b, j);
                self.lemma_event_at(b, j);
            } else {
                assert(!exists|j: int| self.has_event_at(b, j)) by {
                    if exists|j: int| self.has_event_at(b, j) {
                        let j = choose|j: int| self.has_event_at(b, j);
                        assert(old.has_event_at(b, j));
                    }
                }
            }
        }
    }

    pub(crate) proof fn lemma_same_tickets(self, old: Ledger)
        requires
            self.wf(),
            old.wf(),
            self.tickets@ == old.tickets@,
        ensures
            forall|b: Address| #[trigger] self.ticket_entry(b) == old.ticket_entry(b),
            forall|t: Tier, b: Address| #[trigger] self.ticket_on(t, b) == old.ticket_on(t, b),
    {
        assert forall|b: Address| #[trigger] self.ticket_entry(b) == old.ticket_entry(b) by {
            if exists|j: int| old.has_ticket_at(b, j) {
                let j = choose|j: int| old.has_ticket_at(b, j);
                old.lemma_ticket_at(b, j);
                self.lemma_ticket_at(b, j);
            } else {
                assert(!exists|j: int| self.has_ticket_at(b, j)) by {
                    if exists|j: int| self.has_ticket_at(b, j) {
                        let j = choose|j: int| self.has_ticket_at(b, j);
                        assert(old.has_ticket_at(b, j));
                    }
                }
            }
        }
        assert forall|t: Tier, b: Address| #[trigger] self.ticket_on(t, b) == old.ticket_on(t, b) by {
            assert(self.ticket_entry(b) == old.ticket_entry(b));
        }
    }

    pub(crate) proof fn lemma_same_events(self, old: Ledger)
        requires
            self.wf(),
            old.wf(),
            self.events@ == old.events@,
        ensures
            forall|b: Address| #[trigger] self.event_entry(b) == old.event_entry(b),
            forall|t: Tier, b: Address| #[trigger] self.event_on(t, b) == old.event_on(t, b),
            forall|b: Address| #[trigger] self.location(b) == old.location(b),
    {
        assert forall|b: Address| #[trigger] self.event_entry(b) == old.event_entry(b) by {
            if exists|j: int| old.has_event_at(b, j) {
                let j = choose|j: int| old.has_event_at(b, j);
                old.lemma_event_at(b, j);
                self.lemma_event_at(b, j);
            } else {
                assert(!exists|j: int| self.has_event_at(b, j)) by {
                    if exists|j: int| self.has_event_at(b, j) {
                        let j = choose|j: int| self.has_event_at(b, j);
                        assert(old.has_event_at(b, j));
                    }
                }
            }
        }
        assert forall|t: Tier, b: Address| #[trigger] self.event_on(t, b) == old.event_on(t, b) by {
            assert(self.event_entry(b) == old.event_entry(b));
        }
        assert forall|b: Address| #[trigger] self.location(b) == old.location(b) by {
            assert(self.event_entry(b) == old.event_entry(b));
        }
    }

    /// Finds the entry of the event at `a`.
    pub(crate) fn find_event(&self, a: &Address) -> (r: Option<usize>)
        requires
            self.wf(),
        ensures
            r matches Some(i) ==> self.has_event_at(*a, i as int),
            r is None <==> self.event_entry(*a) is None,
            r matches Some(i) ==> self.event_entry(*a) == Some(self.events@[i as int]),
    {
        let mut i: usize = 0;
        while i < self.events.len()
            invariant
                self.wf(),
                0 <= i <= self.events@.len(),
                forall|j: int| 0 <= j < i ==> self.events@[j].address != *a,
            decreases self.events@.len() - i,
        {
            if same_address(&self.events[i].address, a) {
                proof {
                    self.lemma_event_at(*a, i as int);
                }
                return Some(i);
            }
            i = i + 1;
        }
        None
    }

    /// Finds the entry of the ticket address `a`.
    pub(crate) fn find_ticket(&self, a: &Address) -> (r: Option<usize>)
        requires
            self.wf(),
        ensures
            r matches Some(i) ==> self.has_ticket_at(*a, i as int),
            r is None <==> self.ticket_entry(*a) is None,
            r matches Some(i) ==> self.ticket_entry(*a) == Some(self.tickets@[i as int]),
    {
        let mut i: usize = 0;
        while i < self.tickets.len()
            invariant
                self.wf(),
                0 <= i <= self.tickets@.len(),
                forall|j: int| 0 <= j < i ==> self.tickets@[j].address != *a,
            decreases self.tickets@.len() - i,
        {
            if same_address(&self.tickets[i].address, a) {
                proof {
                    self.lemma_ticket_at(*a, i as int);
                }
                return Some(i);
            }
            i = i + 1;
        }
        None
    }

    /// Finds the entry of the event at `a` and checks that `tier` holds its
    /// authoritative state.
    pub(crate) fn authority_index(&self, tier: Tier, a: &Address) -> (r: Result<usize, EventError>)
        requires
            self.wf(),
        ensures
            self.event_entry(*a) is None ==> r == Err::<usize, EventError>(EventError::NotFound),
            self.event_entry(*a) is Some && !self.authoritative(tier, *a) ==> r == Err::<
                usize,
                EventError,
            >(EventError::WrongTier),
            self.authoritative(tier, *a) ==> r is Ok,
            r matches Ok(i) ==> {
                &&& self.has_event_at(*a, i as int)
                &&& self.event_entry(*a) == Some(self.events@[i as int])
                &&& is_authority(tier, self.events@[i as int].location)
                &&& self.events@[i as int].fast is Some || tier is Base
            },
    {
        let i = match self.find_event(a) {
            Some(i) => i,
            None => return Err(EventError::NotFound),
        };
        let ok = match tier {
            Tier::Base => matches!(self.events[i].location, Location::Base),
            Tier::Fast => matches!(self.events[i].location, Location::Fast),
        };
        if !ok {
            return Err(EventError::WrongTier);
        }
        Ok(i)
    }

    /// The `tier` copy of the event in entry `i`.
    pub(crate) fn event_copy(&self, i: usize, tier: Tier) -> (r: &Event)
        requires
            i < self.events@.len(),
            tier is Base || self.events@[i as int].fast is Some,
        ensures
            copy_on(tier, self.events@[i as int].base, self.events@[i as int].fast) == Some(*r),
    {
        match tier {
            Tier::Base => &self.events[i].base,
            Tier::Fast => match &self.events[i].fast {
                Some(e) => e,
                None => &self.events[i].base,
            },
        }
    }

    /// Replaces the `tier` copy of the event in entry `i`.
    pub(crate) fn put_event(&mut self, i: usize, tier: Tier, e: Event)
        requires
            old(self).wf(),
            i < old(self).events@.len(),
            tier is Base || old(self).events@[i as int].fast is Some,
        ensures
            final(self).wf(),
            final(self).event_on(tier, old(self).events@[i as int].address) == Some(e),
            final(self).only_event_changed(*old(self), tier, old(self).events@[i as int].address),
            final(self).tickets == old(self).tickets,
    {
        let ghost a = self.events@[i as int].address;
        match tier {
            Tier::Base => {
                self.events[i].base = e;
            },
            Tier::Fast => {
                self.events[i].fast = Some(e);
            },
        }
        proof {
            assert(self.events@ == old(self).events@.update(i as int, self.events@[i as int]));
            assert(self.events@[i as int].address == a);
            assert forall|k: int| 0 <= k < self.events@.len() implies #[trigger] self.events@[k].address
                == old(self).events@[k].address && (self.events@[k].fast is Some <==> old(self).events@[k].fast is Some)
                && self.events@[k].location == old(self).events@[k].location by {
                if k != i {
                    assert(self.events@[k] == old(self).events@[k]);
                }
            }
            assert(self.tickets@ == old(self).tickets@);
            assert(forall|i: int, j: int|
                0 <= i < j < self.events@.len() ==> self.events@[i].address != self.events@[j].address);
            assert(self.wf());
            self.lemma_event_frame(*old(self), i as int);
            old(self).lemma_event_at(a, i as int);
            self.lemma_same_tickets(*old(self));
            assert forall|t: Tier, b: Address|
                (b != a || t != tier) implies #[trigger] self.event_on(t, b) == old(self).event_on(t, b) by {
                if b != a {
                    assert(self.event_entry(b) == old(self).event_entry(b));
                }
            }
            assert forall|b: Address| #[trigger] self.location(b) == old(self).location(b) by {
                if b != a {
                    assert(self.event_entry(b) == old(self).event_entry(b));
                }
            }
        }
    }

    /// All records other than the `tier` copy of the ticket at `a` are as in `old`.
    pub open spec fn only_ticket_changed(self, old: Ledger, tier: Tier, a: Address) -> bool {
        &&& self.program_id == old.program_id
        &&& self.require_organizer_signature_on_checkin == old.require_organizer_signature_on_checkin
        &&& forall|t: Tier, b: Address| #[trigger] self.event_on(t, b) == old.event_on(t, b)
        &&& forall|b: Address| #[trigger] self.location(b) == old.location(b)
        &&& forall|t: Tier, b: Address|
            (b != a || t != tier) ==> #[trigger] self.ticket_on(t, b) == old.ticket_on(t, b)
    }

    pub(crate) proof fn lemma_ticket_frame(self, old: Ledger, i: int)
        requires
            old.wf(),
            self.wf(),
            0 <= i < old.tickets@.len(),
            self.tickets@ == old.tickets@.update(i, self.tickets@[i]),
            self.tickets@[i].address == old.tickets@[i].address,
        ensures
            self.ticket_entry(old.tickets@[i].address) == Some(self.tickets@[i]),
            forall|b: Address|
                b != old.tickets@[i].address ==> #[trigger] self.ticket_entry(b) == old.ticket_entry(b),
    {
        self.lemma_ticket_at(old.tickets@[i].address, i);
        assert forall|b: Address| b != old.tickets@[i].address implies #[trigger] self.ticket_entry(b)
            == old.ticket_entry(b) by {
            if exists|j: int| old.has_ticket_at(b, j) {
                let j = choose|j: int| old.has_ticket_at(b, j);
                old.lemma_ticket_at(b, j);
                self.lemma_ticket_at(b, j);
            } else {
                assert(!exists|j: int| self.has_ticket_at(b, j)) by {
                    if exists|j: int| self.has_ticket_at(b, j) {
                        let j = choose|j: int| self.has_ticket_at(b, j);
                        assert(old.has_ticket_at(b, j));
                    }
                }
            }
        }
    }

    pub(crate) proof fn lemma_ticket_push(self, old: Ledger)
        requires
            old.wf(),
            self.wf(),
            self.tickets@.len() == old.tickets@.len() + 1,
            self.tickets@ == old.tickets@.push(self.tickets@.last()),
        ensures
            self.ticket_entry(self.tickets@.last().address) == Some(self.tickets@.last()),
            forall|b: Address|
                b != self.tickets@.last().address ==> #[trigger] self.ticket_entry(b) == old.ticket_entry(b),
    {
        let n = old.tickets@.len() as int;
        self.lemma_ticket_at(self.tickets@.last().address, n);
        assert forall|b: Address| b != self.tickets@.last().address implies #[trigger] self.ticket_entry(b)
            == old.ticket_entry(b) by {
            if exists|j: int| old.has_ticket_at(b, j) {
                let j = choose|j: int| old.has_ticket_at(b, j);
                old.lemma_ticket_at(b, j);
                self.lemma_ticket_at(b, j);
            } else {
                assert(!exists|j: int| self.has_ticket_at(b, j)) by {
                    if exists|j: int| self.has_ticket_at(b, j) {
                        let j = choose|j: int| self.has_ticket_at(b, j);
                        assert(old.has_ticket_at(b, j));
                    }
                }
            }
        }
    }

    pub(crate) proof fn lemma_event_push(self, old: Ledger)
        requires
            old.wf(),
            self.wf(),
            self.events@.len() == old.events@.len() + 1,
            self.events@ == old.events@.push(self.events@.last()),
        ensures
            self.event_entry(self.events@.last().address) == Some(self.events@.last()),
            forall|b: Address|
                b != self.events@.last().address ==> #[trigger] self.event_entry(b) == old.event_entry(b),
    {
        let n = old.events@.len() as int;
        self.lemma_event_at(self.events@.last().address, n);
        assert forall|b: Address| b != self.events@.last().address implies #[trigger] self.event_entry(b)
            == old.event_entry(b) by {
            if exists|j: int| old.has_event_at(b, j) {
                let j = choose|j: int| old.has_event_at(b, j);
                old.lemma_event_at(b, j);
                self.lemma_event_at(b, j);
            } else {
                assert(!exists|j: int| self.has_event_at(b, j)) by {
                    if exists|j: int| self.has_event_at(b, j) {
                        let j = choose|j: int| self.has_event_at(b, j);
                        assert(old.has_event_at(b, j));
                    }
                }
            }
        }
    }

    /// Stores `t` as the `tier` copy of the ticket at `a`.
    pub(crate) fn write_ticket(&mut self, tier: Tier, a: &Address, t: Ticket)
        requires
            old(self).wf(),
        ensures
            final(self).wf(),
            final(self).ticket_on(tier, *a) == Some(t),
            final(self).only_ticket_changed(*old(self), tier, *a),
            final(self).events == old(self).events,
    {
        match self.find_ticket(a) {
            Some(j) => {
                match tier {
                    Tier::Base => {
                        self.tickets[j].base = Some(t);
                    },
                    Tier::Fast => {
                        self.tickets[j].fast = Some(t);
                    },
                }
                proof {
                    assert(self.tickets@ == old(self).tickets@.update(j as int, self.tickets@[j as int]));
                    assert forall|k: int| 0 <= k < self.tickets@.len() implies #[trigger] self.tickets@[k].address
                        == old(self).tickets@[k].address by {
                        if k != j {
                            assert(self.tickets@[k] == old(self).tickets@[k]);
                        }
                    }
                    assert(self.wf());
                    self.lemma_ticket_frame(*old(self), j as int);
                    old(self).lemma_ticket_at(*a, j as int);
                }
            },
            None => {
                let entry = match tier {
                    Tier::Base => TicketEntry { address: *a, base: Some(t), fast: None },
                    Tier::Fast => TicketEntry { address: *a, base: None, fast: Some(t) },
                };
                self.tickets.push(entry);
                proof {
                    assert(self.tickets@ == old(self).tickets@.push(self.tickets@.last()));
                    assert forall|k: int| 0 <= k < old(self).tickets@.len() implies old(self).tickets@[k].address
                        != *a by {
                        if old(self).tickets@[k].address == *a {
                            assert(old(self).has_ticket_at(*a, k));
                        }
                    }
                    assert(self.wf());
                    self.lemma_ticket_push(*old(self));
                }
            },
        }
        proof {
            self.lemma_same_events(*old(self));
            assert forall|t: Tier, b: Address|
                (b != *a || t != tier) implies #[trigger] self.ticket_on(t, b) == old(self).ticket_on(t, b) by {
                if b != *a {
                    assert(self.ticket_entry(b) == old(self).ticket_entry(b));
                }
            }
        }
    }
}

} // verus!
