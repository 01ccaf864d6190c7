use crate::ledger::{EventEntry, Ledger, TicketEntry};
use crate::types::{same_address, Address, Event, EventError, Location, Tier};
use vstd::prelude::*;

verus! {

/// A request to delegate the event at `pda` to the fast tier, signed by `owner`.
pub struct Delegate {
    pub pda: Address,
    pub owner: Address,
}

/// A request to push the fast tier's state of the event at `pda` to the base tier.
pub struct Commit {
    pub pda: Address,
    pub owner: Address,
}

/// A request to hand authority over the event at `pda` back to the base tier.
pub struct Undelegate {
    pub pda: Address,
    pub owner: Address,
}

/// A commit followed by an undelegation, as one request.
pub struct CommitAndUndelegate {
    pub pda: Address,
    pub owner: Address,
}

/// A delegation request in the organizer's words.
pub struct DelegateEvent {
    pub event: Address,
    pub organizer: Address,
}

/// An undelegation request in the organizer's words.
pub struct UndelegateEvent {
    pub event: Address,
    pub organizer: Address,
}

/// Which ticket copies a tier transition writes.
pub enum Transfer {
    BaseToFast,
    FastToBase,
    DropFast,
}

/// Whether either copy of the ticket entry `e` belongs to the event at `a`.
pub open spec fn belongs_to(e: TicketEntry, a: Address) -> bool {
    ||| (e.base matches Some(t) && t.event == a)
    ||| (e.fast matches Some(t) && t.event == a)
}

/// The ticket entry `e` after a transition of the event at `a`.
pub open spec fn moved(e: TicketEntry, a: Address, d: Transfer) -> TicketEntry {
    if belongs_to(e, a) {
        match d {
            Transfer::BaseToFast => TicketEntry { fast: e.base, ..e },
            Transfer::FastToBase => TicketEntry { base: e.fast, ..e },
            Transfer::DropFast => TicketEntry { fast: None, ..e },
        }
    } else {
        e
    }
}

/// Why a tier request on the event at `a` by `owner` is refused, where the
/// event must stand at `from` and the engine answered `accepted`.
pub open spec fn request_refusal(l: Ledger, a: Address, owner: Address, from: Location, accepted: bool) -> Option<EventError> {
    match l.event_entry(a) {
        None => Some(EventError::NotFound),
        Some(e) => if e.base.organizer != owner {
            Some(EventError::Unauthorized)
        } else if e.location != from {
            Some(EventError::WrongTier)
        } else if !accepted {
            Some(EventError::EngineUnavailable)
        } else {
            None
        },
    }
}

impl Ledger {
    /// Every ticket entry of `self` is that of `old` after the transition `d`
    /// of the event at `a`.
    pub open spec fn tickets_moved(self, old: Ledger, a: Address, d: Transfer) -> bool {
        forall|b: Address| #[trigger] self.ticket_entry(b) == match old.ticket_entry(b) {
            Some(e) => Some(moved(e, a, d)),
            None => None,
        }
    }

    /// Only the entry of the event at `a` differs from `old`, and it is `e`.
    pub open spec fn only_entry_changed(self, old: Ledger, a: Address, e: EventEntry) -> bool {
        &&& self.program_id == old.program_id
        &&& self.require_organizer_signature_on_checkin == old.require_organizer_signature_on_checkin
        &&& self.event_entry(a) == Some(e)
        &&& forall|b: Address| b != a ==> #[trigger] self.event_entry(b) == old.event_entry(b)
    }

    fn check_request(&self, a: &Address, owner: &Address, from: Location, accepted: bool) -> (r: Result<usize, EventError>)
        requires
            self.wf(),
        ensures
            r matches Err(err) ==> request_refusal(*self, *a, *owner, from, accepted) == Some(err),
            r matches Ok(i) ==> {
                &&& request_refusal(*self, *a, *owner, from, accepted) is None
                &&& self.has_event_at(*a, i as int)
                &&& self.event_entry(*a) == Some(self.events@[i as int])
            },
    {
        let i = match self.find_event(a) {
            Some(i) => i,
            None => return Err(EventError::NotFound),
        };
        if !same_address(&self.events[i].base.organizer, owner) {
            return Err(EventError::Unauthorized);
        }
        if self.events[i].location != from {
            return Err(EventError::WrongTier);
        }
        if !accepted {
            return Err(EventError::EngineUnavailable);
        }
        Ok(i)
    }

    /// Sets both copies and the location of the event in entry `i`.
    fn retier(&mut self, i: usize, base: Event, fast: Option<Event>, location: Location)
        requires
            old(self).wf(),
            i < old(self).events@.len(),
            fast is Some <==> (location is Fast || location is UndelegatingToBase),
        ensures
            final(self).wf(),
            final(self).only_entry_changed(
                *old(self),
                old(self).events@[i as int].address,
                EventEntry { address: old(self).events@[i as int].address, base, fast, location },
            ),
            final(self).tickets == old(self).tickets,
            final(self).events@ == old(self).events@.update(
                i as int,
                EventEntry { address: old(self).events@[i as int].address, base, fast, location },
            ),
    {
        let ghost a = self.events@[i as int].address;
        self.events[i].base = base;
        self.events[i].fast = fast;
        self.events[i].location = location;
        proof {
            assert(self.events@ == old(self).events@.update(i as int, self.events@[i as int]));
            assert forall|k: int| 0 <= k < self.events@.len() implies #[trigger] self.events@[k].address
                == old(self).events@[k].address && (k != i ==> self.events@[k] == old(self).events@[k]) by {}
            assert(self.wf());
            self.lemma_event_frame(*old(self), i as int);
        }
    }

    /// Applies the transition `d` of the event at `a` to every ticket entry.
    fn move_tickets(&mut self, a: &Address, d: Transfer)
        requires
            old(self).wf(),
        ensures
            final(self).wf(),
            final(self).events == old(self).events,
            final(self).program_id == old(self).program_id,
            final(self).require_organizer_signature_on_checkin == old(self).require_organizer_signature_on_checkin,
            final(self).tickets_moved(*old(self), *a, d),
    {
        let mut k: usize = 0;
        while k < self.tickets.len()
            invariant
                self.wf(),
                self.events == old(self).events,
                self.program_id == old(self).program_id,
                self.require_organizer_signature_on_checkin == old(self).require_organizer_signature_on_checkin,
                self.tickets@.len() == old(self).tickets@.len(),
                0 <= k <= self.tickets@.len(),
                forall|j: int| 0 <= j < k ==> #[trigger] self.tickets@[j] == moved(old(self).tickets@[j], *a, d),
                forall|j: int| k <= j < self.tickets@.len() ==> #[trigger] self.tickets@[j] == old(self).tickets@[j],
            decreases self.tickets@.len() - k,
        {
            let e = self.tickets[k];
            let mine = match e.base {
                Some(t) => same_address(&t.event, a),
                None => false,
            } || match e.fast {
                Some(t) => same_address(&t.event, a),
                None => false,
            };
            if mine {
                let next = match d {
                    Transfer::BaseToFast => TicketEntry { fast: e.base, ..e },
                    Transfer::FastToBase => TicketEntry { base: e.fast, ..e },
                    Transfer::DropFast => TicketEntry { fast: None, ..e },
                };
                let ghost before = *self;
                self.tickets.set(k, next);
                proof {
                    assert forall|x: int, y: int|
                        0 <= x < y < self.tickets@.len() implies self.tickets@[x].address != self.tickets@[y].address by {
                        assert(self.tickets@[x].address == before.tickets@[x].address);
                        assert(self.tickets@[y].address == before.tickets@[y].address);
                    }
                }
            }
            k = k + 1;
        }
        proof {
            assert forall|b: Address| #[trigger] self.ticket_entry(b) == match old(self).ticket_entry(b) {
                Some(e) => Some(moved(e, *a, d)),
                None => None,
            } by {
                if exists|j: int| old(self).has_ticket_at(b, j) {
                    let j = choose|j: int| old(self).has_ticket_at(b, j);
                    old(self).lemma_ticket_at(b, j);
                    assert(self.tickets@[j] == moved(old(self).tickets@[j], *a, d));
                    self.lemma_ticket_at(b, j);
                } else {
                    assert(!exists|j: int| self.has_ticket_at(b, j)) by {
                        if exists|j: int| self.has_ticket_at(b, j) {
                            let j = choose|j: int| self.has_ticket_at(b, j);
                            assert(self.tickets@[j] == moved(old(self).tickets@[j], *a, d));
                            assert(old(self).has_ticket_at(b, j));
                        }
                    }
                }
            }
        }
    }

    /// Asks the engine to move authority over the event at `ctx.pda` to the
    /// fast tier; `engine_accepted` is the engine's answer. The event then
    /// stands in transit until the engine completes the move.
    pub fn delegate(&mut self, ctx: &Delegate, engine_accepted: bool) -> (r: Result<(), EventError>)
        requires
            old(self).wf(),
        ensures
            final(self).wf(),
            request_refusal(*old(self), ctx.pda, ctx.owner, Location::Base, engine_accepted) matches Some(err)
                ==> r == Err::<(), EventError>(err) && *final(self) == *old(self),
            request_refusal(*old(self), ctx.pda, ctx.owner, Location::Base, engine_accepted) is None ==> {
                &&& r is Ok
                &&& final(self).only_entry_changed(
                    *old(self),
                    ctx.pda,
                    EventEntry { location: Location::DelegatingToFast, ..old(self).event_entry(ctx.pda).unwrap() },
                )
                &&& final(self).tickets == old(self).tickets
            },
    {
        let i = match self.check_request(&ctx.pda, &ctx.owner, Location::Base, engine_accepted) {
            Ok(i) => i,
            Err(err) => return Err(err),
        };
        let base = self.events[i].base.copied();
        self.retier(i, base, None, Location::DelegatingToFast);
        Ok(())
    }

    /// The engine has finished moving the event at `event` to the fast tier:
    /// the fast tier now holds a copy of the event and of each of its tickets.
    pub fn complete_delegation(&mut self, event: &Address) -> (r: Result<(), EventError>)
        requires
            old(self).wf(),
        ensures
            final(self).wf(),
            old(self).event_entry(*event) is None ==> r == Err::<(), EventError>(EventError::NotFound)
                && *final(self) == *old(self),
            old(self).location(*event) matches Some(l) && l != Location::DelegatingToFast ==> r == Err::<
                (),
                EventError,
            >(EventError::WrongTier) && *final(self) == *old(self),
            old(self).location(*event) == Some(Location::DelegatingToFast) ==> {
                let e = old(self).event_entry(*event).unwrap();
                &&& r is Ok
                &&& final(self).only_entry_changed(
                    *old(self),
                    *event,
                    EventEntry { fast: Some(e.base), location: Location::Fast, ..e },
                )
                &&& final(self).tickets_moved(*old(self), *event, Transfer::BaseToFast)
            },
    {
        let i = match self.find_event(event) {
            Some(i) => i,
            None => return Err(EventError::NotFound),
        };
        if self.events[i].location != Location::DelegatingToFast {
            return Err(EventError::WrongTier);
        }
        let base = self.events[i].base.copied();
        let fast = self.events[i].base.copied();
        self.retier(i, base, Some(fast), Location::Fast);
        let ghost mid = *self;
        self.move_tickets(event, Transfer::BaseToFast);
        proof {
            self.lemma_same_events(mid);
            mid.lemma_same_tickets(*old(self));
        }
        Ok(())
    }

    /// Pushes the fast tier's state of the event at `ctx.pda`, and of each of
    /// its tickets, to the base tier; the fast tier keeps authority.
    pub fn commit(&mut self, ctx: &Commit, engine_accepted: bool) -> (r: Result<(), EventError>)
        requires
            old(self).wf(),
        ensures
            final(self).wf(),
            request_refusal(*old(self), ctx.pda, ctx.owner, Location::Fast, engine_accepted) matches Some(err)
                ==> r == Err::<(), EventError>(err) && *final(self) == *old(self),
            request_refusal(*old(self), ctx.pda, ctx.owner, Location::Fast, engine_accepted) is None ==> {
                let e = old(self).event_entry(ctx.pda).unwrap();
                &&& r is Ok
                &&& final(self).only_entry_changed(*old(self), ctx.pda, EventEntry { base: e.fast.unwrap(), ..e })
                &&& final(self).tickets_moved(*old(self), ctx.pda, Transfer::FastToBase)
            },
    {
        let i = match self.check_request(&ctx.pda, &ctx.owner, Location::Fast, engine_accepted) {
            Ok(i) => i,
            Err(err) => return Err(err),
        };
        self.push_to_base(i);
        Ok(())
    }

    /// Asks the engine to hand authority over the event at `ctx.pda` back to
    /// the base tier. Nothing is committed: what the fast tier did since the
    /// last commit is dropped when the engine completes the hand-back.
    pub fn undelegate(&mut self, ctx: &Undelegate, engine_accepted: bool) -> (r: Result<(), EventError>)
        requires
            old(self).wf(),
        ensures
            final(self).wf(),
            request_refusal(*old(self), ctx.pda, ctx.owner, Location::Fast, engine_accepted) matches Some(err)
                ==> r == Err::<(), EventError>(err) && *final(self) == *old(self),
            request_refusal(*old(self), ctx.pda, ctx.owner, Location::Fast, engine_accepted) is None ==> {
                &&& r is Ok
                &&& final(self).only_entry_changed(
                    *old(self),
                    ctx.pda,
                    EventEntry { location: Location::UndelegatingToBase, ..old(self).event_entry(ctx.pda).unwrap() },
                )
                &&& final(self).tickets == old(self).tickets
            },
    {
        let i = match self.check_request(&ctx.pda, &ctx.owner, Location::Fast, engine_accepted) {
            Ok(i) => i,
            Err(err) => return Err(err),
        };
        let base = self.events[i].base.copied();
        let fast = match &self.events[i].fast {
            Some(e) => e.copied(),
            None => self.events[i].base.copied(),
        };
        self.retier(i, base, Some(fast), Location::UndelegatingToBase);
        Ok(())
    }

    /// A commit and an undelegation of the event at `ctx.pda` as one request:
    /// the base tier receives the fast tier's state before authority returns.
    pub fn commit_and_undelegate(&mut self, ctx: &CommitAndUndelegate, engine_accepted: bool) -> (r: Result<
        (),
        EventError,
    >)
        requires
            old(self).wf(),
        ensures
            final(self).wf(),
            request_refusal(*old(self), ctx.pda, ctx.owner, Location::Fast, engine_accepted) matches Some(err)
                ==> r == Err::<(), EventError>(err) && *final(self) == *old(self),
            request_refusal(*old(self), ctx.pda, ctx.owner, Location::Fast, engine_accepted) is None ==> {
                let e = old(self).event_entry(ctx.pda).unwrap();
                &&& r is Ok
                &&& final(self).only_entry_changed(
                    *old(self),
                    ctx.pda,
                    EventEntry { base: e.fast.unwrap(), location: Location::UndelegatingToBase, ..e },
                )
                &&& final(self).tickets_moved(*old(self), ctx.pda, Transfer::FastToBase)
            },
    {
        let i = match self.check_request(&ctx.pda, &ctx.owner, Location::Fast, engine_accepted) {
            Ok(i) => i,
            Err(err) => return Err(err),
        };
        self.push_to_base(i);
        let ghost mid = *self;
        let base = self.events[i].base.copied();
        let fast = match &self.events[i].fast {
            Some(e) => e.copied(),
            None => self.events[i].base.copied(),
        };
        self.retier(i, base, Some(fast), Location::UndelegatingToBase);
        proof {
            assert forall|b: Address| #[trigger] self.ticket_entry(b) == mid.ticket_entry(b) by {
                self.lemma_same_tickets(mid);
            }
        }
        Ok(())
    }

    /// The engine has handed the event at `event` back to the base tier: the
    /// fast copies of the event and of its tickets are gone.
    pub fn complete_undelegation(&mut self, event: &Address) -> (r: Result<(), EventError>)
        requires
            old(self).wf(),
        ensures
            final(self).wf(),
            old(self).event_entry(*event) is None ==> r == Err::<(), EventError>(EventError::NotFound)
                && *final(self) == *old(self),
            old(self).location(*event) matches Some(l) && l != Location::UndelegatingToBase ==> r == Err::<
                (),
                EventError,
            >(EventError::WrongTier) && *final(self) == *old(self),
            old(self).location(*event) == Some(Location::UndelegatingToBase) ==> {
                let e = old(self).event_entry(*event).unwrap();
                &&& r is Ok
                &&& final(self).only_entry_changed(
                    *old(self),
                    *event,
                    EventEntry { fast: None, location: Location::Base, ..e },
                )
                &&& final(self).tickets_moved(*old(self), *event, Transfer::DropFast)
            },
    {
        let i = match self.find_event(event) {
            Some(i) => i,
            None => return Err(EventError::NotFound),
        };
        if self.events[i].location != Location::UndelegatingToBase {
            return Err(EventError::WrongTier);
        }
        let base = self.events[i].base.copied();
        self.retier(i, base, None, Location::Base);
        let ghost mid = *self;
        self.move_tickets(event, Transfer::DropFast);
        proof {
            self.lemma_same_events(mid);
            mid.lemma_same_tickets(*old(self));
        }
        Ok(())
    }

    /// Copies the fast tier's event in entry `i`, and its tickets, to the base tier.
    fn push_to_base(&mut self, i: usize)
        requires
            old(self).wf(),
            i < old(self).events@.len(),
            old(self).events@[i as int].fast is Some,
        ensures
            final(self).wf(),
            final(self).events@.len() == old(self).events@.len(),
            final(self).events@[i as int] == (EventEntry { base: old(self).events@[i as int].fast.unwrap(), ..old(self).events@[i as int] }),
            final(self).only_entry_changed(
                *old(self),
                old(self).events@[i as int].address,
                EventEntry { base: old(self).events@[i as int].fast.unwrap(), ..old(self).events@[i as int] },
            ),
            final(self).tickets_moved(*old(self), old(self).events@[i as int].address, Transfer::FastToBase),
    {
        let a = self.events[i].address;
        let (base, fast) = match &self.events[i].fast {
            Some(e) => (e.copied(), e.copied()),
            None => (self.events[i].base.copied(), self.events[i].base.copied()),
        };
        let location = self.events[i].location;
        self.retier(i, base, Some(fast), location);
        let ghost mid = *self;
        proof {
            self.lemma_event_at(a, i as int);
        }
        self.move_tickets(&a, Transfer::FastToBase);
        proof {
            self.lemma_same_events(mid);
            mid.lemma_same_tickets(*old(self));
        }
    }

    /// `delegate`, for the event at `ctx.event` and its organizer.
    pub fn delegate_event(&mut self, ctx: &DelegateEvent, engine_accepted: bool) -> (r: Result<(), EventError>)
        requires
            old(self).wf(),
        ensures
            final(self).wf(),
            request_refusal(*old(self), ctx.event, ctx.organizer, Location::Base, engine_accepted) matches Some(err)
                ==> r == Err::<(), EventError>(err) && *final(self) == *old(self),
            request_refusal(*old(self), ctx.event, ctx.organizer, Location::Base, engine_accepted) is None ==> {
                &&& r is Ok
                &&& final(self).only_entry_changed(
                    *old(self),
                    ctx.event,
                    EventEntry { location: Location::DelegatingToFast, ..old(self).event_entry(ctx.event).unwrap() },
                )
                &&& final(self).tickets == old(self).tickets
            },
    {
        self.delegate(&Delegate { pda: ctx.event, owner: ctx.organizer }, engine_accepted)
    }

    /// `undelegate`, for the event at `ctx.event` and its organizer.
    pub fn undelegate_event(&mut self, ctx: &UndelegateEvent, engine_accepted: bool) -> (r: Result<(), EventError>)
        requires
            old(self).wf(),
        ensures
            final(self).wf(),
            request_refusal(*old(self), ctx.event, ctx.organizer, Location::Fast, engine_accepted) matches Some(err)
                ==> r == Err::<(), EventError>(err) && *final(self) == *old(self),
            request_refusal(*old(self), ctx.event, ctx.organizer, Location::Fast, engine_accepted) is None ==> {
                &&& r is Ok
                &&& final(self).only_entry_changed(
                    *old(self),
                    ctx.event,
                    EventEntry { location: Location::UndelegatingToBase, ..old(self).event_entry(ctx.event).unwrap() },
                )
                &&& final(self).tickets == old(self).tickets
            },
    {
        self.undelegate(&Undelegate { pda: ctx.event, owner: ctx.organizer }, engine_accepted)
    }
}

} // verus!
