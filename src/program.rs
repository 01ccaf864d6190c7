use crate::address::{derive_event_address, derive_ticket_address, derived_view, event_seeds, program_address, ticket_seeds};
use crate::ledger::{EventEntry, Ledger};
use crate::types::{same_address, Address, Event, EventError, EventStats, Location, Ticket, Tier};
use vstd::prelude::*;
use vstd::utf8::encode_utf8;

verus! {

/// The organizer who creates an event.
pub struct InitializeEvent {
    pub organizer: Address,
}

/// A purchase that pays the ticket price to `organizer_account`.
pub struct PurchaseTicket {
    pub event: Address,
    pub buyer: Address,
    pub organizer_account: Address,
}

/// A purchase on the fast tier, whose payment that tier settles later.
pub struct PurchaseTicketAndCommit {
    pub event: Address,
    pub buyer: Address,
}

/// A check-in of the ticket at `ticket`, signed by `organizer`.
pub struct CheckInTicket {
    pub ticket: Address,
    pub organizer: Address,
}

/// A change of capacity, signed by `organizer`.
pub struct UpdateEventCapacity {
    pub event: Address,
    pub organizer: Address,
}

/// A read of an event's figures.
pub struct GetEventStats {
    pub event: Address,
}

/// Whether a sale may go ahead on `e`: the first failed check, if any.
pub open spec fn sale_refusal(e: Event) -> Option<EventError> {
    if e.tickets_sold >= e.capacity {
        Some(EventError::EventSoldOut)
    } else if !e.is_active {
        Some(EventError::EventInactive)
    } else {
        None
    }
}

/// `e` after one more ticket is sold.
pub open spec fn after_sale(e: Event) -> Event {
    Event { tickets_sold: (e.tickets_sold + 1) as u32, ..e }
}

/// The ticket issued for `event` to `buyer` while `sold` tickets were sold.
pub open spec fn issued_ticket(event: Address, buyer: Address, sold: u32, now: i64, bump: u8) -> Ticket {
    Ticket {
        event,
        buyer,
        ticket_id: sold,
        purchase_time: now,
        check_in_time: None,
        is_used: false,
        bump,
    }
}

/// `t` once checked in at `now`.
pub open spec fn checked_in(t: Ticket, now: i64) -> Ticket {
    Ticket { is_used: true, check_in_time: Some(now), ..t }
}

/// The figures reported for `e`.
pub open spec fn stats_of(e: Event) -> EventStats {
    EventStats {
        tickets_sold: e.tickets_sold,
        capacity: e.capacity,
        revenue: (e.tickets_sold as int * e.price_lamports as int) as u128,
        is_active: e.is_active,
    }
}

/// The event as `initialize_event` creates it.
pub open spec fn new_event(
    organizer: Address,
    title: String,
    description: String,
    price_lamports: u64,
    capacity: u32,
    starts_at: i64,
    ends_at: i64,
    bump: u8,
) -> Event {
    Event {
        organizer,
        title,
        description,
        price_lamports,
        capacity,
        tickets_sold: 0,
        starts_at,
        ends_at,
        is_active: true,
        bump,
    }
}

impl Ledger {
    /// What `update_event_capacity` does.
    pub open spec fn capacity_outcome(old: Ledger, new: Ledger, tier: Tier, ctx: UpdateEventCapacity, new_capacity: u32, r: Result<(), EventError>) -> bool {
        &&& (old.event_entry(ctx.event) is None ==> r == Err::<(), EventError>(EventError::NotFound))
        &&& (old.event_entry(ctx.event) is Some && !old.authoritative(tier, ctx.event) ==> r
                == Err::<(), EventError>(EventError::WrongTier))
        &&& (old.authoritative(tier, ctx.event) ==> {
                let e = old.event_on(tier, ctx.event).unwrap();
                if e.organizer != ctx.organizer {
                    r == Err::<(), EventError>(EventError::Unauthorized)
                } else {
                    &&& r is Ok
                    &&& new.event_on(tier, ctx.event) == Some(
                        Event { capacity: new_capacity, ..e },
                    )
                    &&& new.only_event_changed(old, tier, ctx.event)
                }
            })
        &&& (r is Err ==> new == old)
    }

    /// What `check_in_ticket` does.
    pub open spec fn check_in_outcome(old: Ledger, new: Ledger, tier: Tier, ctx: CheckInTicket, now: i64, r: Result<(), EventError>) -> bool {
        &&& (old.ticket_on(tier, ctx.ticket) is None ==> r == Err::<(), EventError>(EventError::NotFound))
        &&& (old.ticket_on(tier, ctx.ticket) is Some ==> {
                let t = old.ticket_on(tier, ctx.ticket).unwrap();
                if old.event_entry(t.event) is None {
                    r == Err::<(), EventError>(EventError::NotFound)
                } else if !old.authoritative(tier, t.event) {
                    r == Err::<(), EventError>(EventError::WrongTier)
                } else if old.require_organizer_signature_on_checkin
                    && old.event_on(tier, t.event).unwrap().organizer != ctx.organizer {
                    r == Err::<(), EventError>(EventError::Unauthorized)
                } else if t.is_used {
                    r == Err::<(), EventError>(EventError::TicketAlreadyUsed)
                } else {
                    &&& r is Ok
                    &&& new.ticket_on(tier, ctx.ticket) == Some(checked_in(t, now))
                    &&& new.only_ticket_changed(old, tier, ctx.ticket)
                }
            })
        &&& (r is Err ==> new == old)
    }

    /// What `initialize_event_at` does.
    pub open spec fn initialize_outcome<T>(old: Ledger, new: Ledger, ctx: InitializeEvent, address: Address, bump: u8, title: String, description: String, price_lamports: u64, capacity: u32, starts_at: i64, ends_at: i64, r: Result<T, EventError>) -> bool {
        &&& (old.event_entry(address) is Some ==> r == Err::<T, EventError>(EventError::AlreadyExists))
        &&& (old.event_entry(address) is None ==> {
                &&& r is Ok
                &&& new.event_entry(address) == Some(EventEntry {
                    address: address,
                    base: new_event(ctx.organizer, title, description, price_lamports, capacity, starts_at, ends_at, bump),
                    fast: None,
                    location: Location::Base,
                })
                &&& forall|b: Address| b != address ==> #[trigger] new.event_entry(b) == old.event_entry(b)
                &&& forall|t: Tier, b: Address| #[trigger] new.ticket_on(t, b) == old.ticket_on(t, b)
                &&& new.program_id == old.program_id
                &&& new.require_organizer_signature_on_checkin == old.require_organizer_signature_on_checkin
            })
        &&& (r is Err ==> new == old)
    }

    /// What `purchase_ticket_and_commit_at` does.
    pub open spec fn fast_purchase_outcome<T>(old: Ledger, new: Ledger, ctx: PurchaseTicketAndCommit, ticket: Address, bump: u8, now: i64, r: Result<T, EventError>) -> bool {
        &&& (old.event_entry(ctx.event) is None ==> r == Err::<T, EventError>(EventError::NotFound))
        &&& (old.event_entry(ctx.event) is Some && !old.authoritative(Tier::Fast, ctx.event)
                ==> r == Err::<T, EventError>(EventError::WrongTier))
        &&& (old.authoritative(Tier::Fast, ctx.event) ==> {
                let e = old.event_on(Tier::Fast, ctx.event).unwrap();
                if sale_refusal(e) is Some {
                    r == Err::<T, EventError>(sale_refusal(e).unwrap())
                } else if old.ticket_on(Tier::Fast, ticket) is Some {
                    r == Err::<T, EventError>(EventError::AlreadyExists)
                } else {
                    &&& r is Ok
                    &&& new.event_on(Tier::Fast, ctx.event) == Some(after_sale(e))
                    &&& new.ticket_on(Tier::Fast, ticket) == Some(
                        issued_ticket(ctx.event, ctx.buyer, e.tickets_sold, now, bump),
                    )
                    &&& new.only_sale_changed(old, Tier::Fast, ctx.event, ticket)
                }
            })
        &&& (r is Err ==> new == old)
    }

    /// What `purchase_ticket_at` does.
    pub open spec fn purchase_outcome<T>(old: Ledger, new: Ledger, tier: Tier, ctx: PurchaseTicket, ticket: Address, bump: u8, now: i64, payment_settled: bool, r: Result<T, EventError>) -> bool {
        &&& (old.event_entry(ctx.event) is None ==> r == Err::<T, EventError>(EventError::NotFound))
        &&& (old.event_entry(ctx.event) is Some && !old.authoritative(tier, ctx.event) ==> r
                == Err::<T, EventError>(EventError::WrongTier))
        &&& (old.authoritative(tier, ctx.event) ==> {
                let e = old.event_on(tier, ctx.event).unwrap();
                if sale_refusal(e) is Some {
                    r == Err::<T, EventError>(sale_refusal(e).unwrap())
                } else if !payment_settled || ctx.organizer_account != e.organizer {
                    r == Err::<T, EventError>(EventError::PaymentFailed)
                } else if old.ticket_on(tier, ticket) is Some {
                    r == Err::<T, EventError>(EventError::AlreadyExists)
                } else {
                    &&& r is Ok
                    &&& new.event_on(tier, ctx.event) == Some(after_sale(e))
                    &&& new.ticket_on(tier, ticket) == Some(
                        issued_ticket(ctx.event, ctx.buyer, e.tickets_sold, now, bump),
                    )
                    &&& new.only_sale_changed(old, tier, ctx.event, ticket)
                }
            })
        &&& (r is Err ==> new == old)
    }

    /// An empty ledger for the program `program_id` in which only an event's
    /// organizer checks its tickets in, the stricter of the two policies.
    pub fn new(program_id: Address) -> (r: Ledger)
        ensures
            r.wf(),
            r.program_id == program_id,
            r.require_organizer_signature_on_checkin,
            forall|a: Address| #[trigger] r.event_entry(a) is None,
            forall|a: Address| #[trigger] r.ticket_entry(a) is None,
    {
        Ledger::with_checkin_policy(program_id, true)
    }

    /// An empty ledger for the program `program_id`, with the check-in policy
    /// given.
    pub fn with_checkin_policy(program_id: Address, require_organizer_signature_on_checkin: bool) -> (r: Ledger)
        ensures
            r.wf(),
            r.program_id == program_id,
            r.require_organizer_signature_on_checkin == require_organizer_signature_on_checkin,
            forall|a: Address| #[trigger] r.event_entry(a) is None,
            forall|a: Address| #[trigger] r.ticket_entry(a) is None,
    {
        Ledger { program_id, require_organizer_signature_on_checkin, events: Vec::new(), tickets: Vec::new() }
    }

    /// The sale itself: `tier`'s copy of the event in entry `i` counts one more
    /// ticket and `tier` holds the new ticket at `ticket`.
    fn issue(&mut self, i: usize, tier: Tier, ticket: &Address, buyer: &Address, now: i64, bump: u8)
        requires
            old(self).wf(),
            i < old(self).events@.len(),
            tier is Base || old(self).events@[i as int].fast is Some,
            ({
                let e = copy_on_entry(tier, old(self).events@[i as int]);
                e.tickets_sold < e.capacity
            }),
        ensures
            final(self).wf(),
            ({
                let a = old(self).events@[i as int].address;
                let e = copy_on_entry(tier, old(self).events@[i as int]);
                &&& final(self).event_on(tier, a) == Some(after_sale(e))
                &&& final(self).ticket_on(tier, *ticket) == Some(
                    issued_ticket(a, *buyer, e.tickets_sold, now, bump),
                )
                &&& final(self).only_sale_changed(*old(self), tier, a, *ticket)
            }),
    {
        let ghost a = self.events@[i as int].address;
        let e = self.event_copy(i, tier);
        let sold = e.tickets_sold;
        let t = Ticket {
            event: self.events[i].address,
            buyer: *buyer,
            ticket_id: sold,
            purchase_time: now,
            check_in_time: None,
            is_used: false,
            bump,
        };
        let mut updated = e.copied();
        updated.tickets_sold = sold + 1;
        let ghost mid_start = *self;
        self.put_event(i, tier, updated);
        let ghost mid = *self;
        self.write_ticket(tier, ticket, t);
        proof {
            old(self).lemma_event_at(a, i as int);
            assert(mid.tickets == mid_start.tickets);
        }
    }

    /// Sells the ticket at the derived address `ticket` (with `bump`) for the
    /// event at `ctx.event` to `ctx.buyer`, on `tier`, at time `now`.
    /// `payment_settled` is whether the runtime moved the event's price from
    /// the buyer to `ctx.organizer_account` in the same transaction; the
    /// transfer is made to the organizer only, so any other payout account
    /// fails the payment. On any error the transaction, transfer included,
    /// is undone.
    pub fn purchase_ticket_at(
        &mut self,
        tier: Tier,
        ctx: &PurchaseTicket,
        ticket: &Address,
        bump: u8,
        now: i64,
        payment_settled: bool,
    ) -> (r: Result<(), EventError>)
        requires
            old(self).wf(),
        ensures
            final(self).wf(),
            Ledger::purchase_outcome(*old(self), *final(self), tier, *ctx, *ticket, bump, now, payment_settled, r),
    {
        let i = match self.authority_index(tier, &ctx.event) {
            Ok(i) => i,
            Err(err) => return Err(err),
        };
        let e = self.event_copy(i, tier);
        if e.tickets_sold >= e.capacity {
            return Err(EventError::EventSoldOut);
        }
        if !e.is_active {
            return Err(EventError::EventInactive);
        }
        if !payment_settled || !same_address(&ctx.organizer_account, &e.organizer) {
            return Err(EventError::PaymentFailed);
        }
        if self.ticket_held(tier, ticket) {
            return Err(EventError::AlreadyExists);
        }
        self.issue(i, tier, ticket, &ctx.buyer, now, bump);
        Ok(())
    }

    /// Sells the ticket at the derived address `ticket` (with `bump`) for the
    /// event at `ctx.event` to `ctx.buyer` on the fast tier, at time `now`,
    /// without a transfer: the fast tier settles payment when it commits.
    pub fn purchase_ticket_and_commit_at(
        &mut self,
        ctx: &PurchaseTicketAndCommit,
        ticket: &Address,
        bump: u8,
        now: i64,
    ) -> (r: Result<(), EventError>)
        requires
            old(self).wf(),
        ensures
            final(self).wf(),
            Ledger::fast_purchase_outcome(*old(self), *final(self), *ctx, *ticket, bump, now, r),
    {
        let i = match self.authority_index(Tier::Fast, &ctx.event) {
            Ok(i) => i,
            Err(err) => return Err(err),
        };
        let e = self.event_copy(i, Tier::Fast);
        if e.tickets_sold >= e.capacity {
            return Err(EventError::EventSoldOut);
        }
        if !e.is_active {
            return Err(EventError::EventInactive);
        }
        if self.ticket_held(Tier::Fast, ticket) {
            return Err(EventError::AlreadyExists);
        }
        self.issue(i, Tier::Fast, ticket, &ctx.buyer, now, bump);
        Ok(())
    }

    /// Checks in the ticket at `ctx.ticket` on `tier` at time `now`. Where the
    /// ledger requires it, only the organizer of the ticket's event may.
    pub fn check_in_ticket(&mut self, tier: Tier, ctx: &CheckInTicket, now: i64) -> (r: Result<(), EventError>)
        requires
            old(self).wf(),
        ensures
            final(self).wf(),
            Ledger::check_in_outcome(*old(self), *final(self), tier, *ctx, now, r),
    {
        let t = match self.find_ticket(&ctx.ticket) {
            Some(j) => match tier {
                Tier::Base => self.tickets[j].base,
                Tier::Fast => self.tickets[j].fast,
            },
            None => None,
        };
        let t = match t {
            Some(t) => t,
            None => return Err(EventError::NotFound),
        };
        let i = match self.authority_index(tier, &t.event) {
            Ok(i) => i,
            Err(err) => return Err(err),
        };
        if self.require_organizer_signature_on_checkin {
            let e = self.event_copy(i, tier);
            if !same_address(&e.organizer, &ctx.organizer) {
                return Err(EventError::Unauthorized);
            }
        }
        if t.is_used {
            return Err(EventError::TicketAlreadyUsed);
        }
        let updated = Ticket { is_used: true, check_in_time: Some(now), ..t };
        self.write_ticket(tier, &ctx.ticket, updated);
        Ok(())
    }

    /// Sets the capacity of the event at `ctx.event` on `tier`. Only the
    /// organizer may; nothing bounds the new capacity, not even the number of
    /// tickets already sold.
    pub fn update_event_capacity(
        &mut self,
        tier: Tier,
        ctx: &UpdateEventCapacity,
        new_capacity: u32,
    ) -> (r: Result<(), EventError>)
        requires
            old(self).wf(),
        ensures
            final(self).wf(),
            Ledger::capacity_outcome(*old(self), *final(self), tier, *ctx, new_capacity, r),
    {
        let i = match self.authority_index(tier, &ctx.event) {
            Ok(i) => i,
            Err(err) => return Err(err),
        };
        let e = self.event_copy(i, tier);
        if !same_address(&e.organizer, &ctx.organizer) {
            return Err(EventError::Unauthorized);
        }
        let mut updated = e.copied();
        updated.capacity = new_capacity;
        self.put_event(i, tier, updated);
        Ok(())
    }

    /// The figures of the event at `ctx.event` as `tier` holds it; the
    /// revenue is the exact product of tickets sold and price.
    pub fn get_event_stats(&self, tier: Tier, ctx: &GetEventStats) -> (r: Result<EventStats, EventError>)
        requires
            self.wf(),
        ensures
            self.event_on(tier, ctx.event) is None ==> r == Err::<EventStats, EventError>(EventError::NotFound),
            self.event_on(tier, ctx.event) is Some ==> r == Ok::<EventStats, EventError>(
                stats_of(self.event_on(tier, ctx.event).unwrap()),
            ),
    {
        let i = match self.find_event(&ctx.event) {
            Some(i) => i,
            None => return Err(EventError::NotFound),
        };
        let e = match tier {
            Tier::Base => &self.events[i].base,
            Tier::Fast => match &self.events[i].fast {
                Some(e) => e,
                None => return Err(EventError::NotFound),
            },
        };
        let sold = e.tickets_sold as u128;
        let price = e.price_lamports as u128;
        proof {
            assert(sold * price <= 0xffff_ffffu128 * 0xffff_ffff_ffff_ffffu128) by (nonlinear_arith)
                requires
                    sold <= 0xffff_ffffu128,
                    price <= 0xffff_ffff_ffff_ffffu128,
            ;
        }
        let revenue = sold * price;
        Ok(EventStats { tickets_sold: e.tickets_sold, capacity: e.capacity, revenue, is_active: e.is_active })
    }

    /// Creates the event at the derived address `address` (with `bump`) on the
    /// base tier, with no ticket sold and open for sale. Fails where the
    /// address is taken.
    pub fn initialize_event_at(
        &mut self,
        ctx: &InitializeEvent,
        address: &Address,
        bump: u8,
        title: String,
        description: String,
        price_lamports: u64,
        capacity: u32,
        starts_at: i64,
        ends_at: i64,
    ) -> (r: Result<(), EventError>)
        requires
            old(self).wf(),
        ensures
            final(self).wf(),
            Ledger::initialize_outcome(*old(self), *final(self), *ctx, *address, bump, title, description, price_lamports, capacity, starts_at, ends_at, r),
    {
        if self.find_event(address).is_some() {
            return Err(EventError::AlreadyExists);
        }
        let event = Event {
            organizer: ctx.organizer,
            title,
            description,
            price_lamports,
            capacity,
            tickets_sold: 0,
            starts_at,
            ends_at,
            is_active: true,
            bump,
        };
        self.events.push(EventEntry { address: *address, base: event, fast: None, location: Location::Base });
        proof {
            assert(self.events@ == old(self).events@.push(self.events@.last()));
            assert forall|k: int| 0 <= k < old(self).events@.len() implies old(self).events@[k].address
                != *address by {
                if old(self).events@[k].address == *address {
                    assert(old(self).has_event_at(*address, k));
                }
            }
            assert(self.wf());
            self.lemma_event_push(*old(self));
            self.lemma_same_tickets(*old(self));
        }
        Ok(())
    }

    /// Creates an event for `ctx.organizer` at the address derived from the
    /// organizer and the title, and returns that address.
    pub fn initialize_event(
        &mut self,
        ctx: &InitializeEvent,
        title: String,
        description: String,
        price_lamports: u64,
        capacity: u32,
        starts_at: i64,
        ends_at: i64,
    ) -> (r: Result<Address, EventError>)
        requires
            old(self).wf(),
        ensures
            final(self).wf(),
            ({
                let derived = program_address(event_seeds(ctx.organizer@, title@), old(self).program_id@);
                &&& derived is None ==> r == Err::<Address, EventError>(EventError::InvalidSeeds)
                    && *final(self) == *old(self)
                &&& derived is Some ==> exists|a: Address, bump: u8| {
                    &&& derived == Some((a@, bump))
                    &&& Ledger::initialize_outcome(*old(self), *final(self), *ctx, a, bump, title, description,
                        price_lamports, capacity, starts_at, ends_at, r)
                    &&& r is Ok ==> r == Ok::<Address, EventError>(a)
                }
            }),
            encode_utf8(title@).len() > 32 ==> r == Err::<Address, EventError>(EventError::InvalidSeeds),
    {
        let (a, bump) = match derive_event_address(&self.program_id, &ctx.organizer, &title) {
            Some(p) => p,
            None => return Err(EventError::InvalidSeeds),
        };
        let ghost t = title;
        let ghost d = description;
        let res = self.initialize_event_at(ctx, &a, bump, title, description, price_lamports, capacity, starts_at, ends_at);
        let out = match res {
            Ok(()) => Ok(a),
            Err(err) => Err(err),
        };
        proof {
            assert(Ledger::initialize_outcome(*old(self), *self, *ctx, a, bump, t, d, price_lamports, capacity, starts_at, ends_at, out));
            assert(derived_view(Some((a, bump))) == Some((a@, bump)));
        }
        out
    }

    /// Sells `ctx.buyer` a ticket for the event at `ctx.event` on `tier`, at
    /// the address derived from the event and the buyer, and returns that
    /// address; see `purchase_ticket_at`.
    pub fn purchase_ticket(&mut self, tier: Tier, ctx: &PurchaseTicket, now: i64, payment_settled: bool) -> (r:
        Result<Address, EventError>)
        requires
            old(self).wf(),
        ensures
            final(self).wf(),
            ({
                let derived = program_address(ticket_seeds(ctx.event@, ctx.buyer@), old(self).program_id@);
                &&& derived is None ==> r == Err::<Address, EventError>(EventError::InvalidSeeds)
                    && *final(self) == *old(self)
                &&& derived is Some ==> exists|a: Address, bump: u8| {
                    &&& derived == Some((a@, bump))
                    &&& Ledger::purchase_outcome(*old(self), *final(self), tier, *ctx, a, bump, now, payment_settled, r)
                    &&& r is Ok ==> r == Ok::<Address, EventError>(a)
                }
            }),
    {
        let (a, bump) = match derive_ticket_address(&self.program_id, &ctx.event, &ctx.buyer) {
            Some(p) => p,
            None => return Err(EventError::InvalidSeeds),
        };
        let res = self.purchase_ticket_at(tier, ctx, &a, bump, now, payment_settled);
        let out = match res {
            Ok(()) => Ok(a),
            Err(err) => Err(err),
        };
        proof {
            assert(Ledger::purchase_outcome(*old(self), *self, tier, *ctx, a, bump, now, payment_settled, out));
            assert(derived_view(Some((a, bump))) == Some((a@, bump)));
        }
        out
    }

    /// Sells `ctx.buyer` a ticket for the event at `ctx.event` on the fast
    /// tier, at the address derived from the event and the buyer, and returns
    /// that address; see `purchase_ticket_and_commit_at`.
    pub fn purchase_ticket_and_commit(&mut self, ctx: &PurchaseTicketAndCommit, now: i64) -> (r: Result<Address, EventError>)
        requires
            old(self).wf(),
        ensures
            final(self).wf(),
            ({
                let derived = program_address(ticket_seeds(ctx.event@, ctx.buyer@), old(self).program_id@);
                &&& derived is None ==> r == Err::<Address, EventError>(EventError::InvalidSeeds)
                    && *final(self) == *old(self)
                &&& derived is Some ==> exists|a: Address, bump: u8| {
                    &&& derived == Some((a@, bump))
                    &&& Ledger::fast_purchase_outcome(*old(self), *final(self), *ctx, a, bump, now, r)
                    &&& r is Ok ==> r == Ok::<Address, EventError>(a)
                }
            }),
    {
        let (a, bump) = match derive_ticket_address(&self.program_id, &ctx.event, &ctx.buyer) {
            Some(p) => p,
            None => return Err(EventError::InvalidSeeds),
        };
        let res = self.purchase_ticket_and_commit_at(ctx, &a, bump, now);
        let out = match res {
            Ok(()) => Ok(a),
            Err(err) => Err(err),
        };
        proof {
            assert(Ledger::fast_purchase_outcome(*old(self), *self, *ctx, a, bump, now, out));
            assert(derived_view(Some((a, bump))) == Some((a@, bump)));
        }
        out
    }

    /// The event at `a` as `tier` holds it.
    pub fn event_record(&self, tier: Tier, a: &Address) -> (r: Option<&Event>)
        requires
            self.wf(),
        ensures
            r is Some <==> self.event_on(tier, *a) is Some,
            r matches Some(e) ==> self.event_on(tier, *a) == Some(*e),
    {
        match self.find_event(a) {
            Some(i) => match tier {
                Tier::Base => Some(&self.events[i].base),
                Tier::Fast => match &self.events[i].fast {
                    Some(e) => Some(e),
                    None => None,
                },
            },
            None => None,
        }
    }

    /// The ticket at `a` as `tier` holds it.
    pub fn ticket_record(&self, tier: Tier, a: &Address) -> (r: Option<Ticket>)
        requires
            self.wf(),
        ensures
            r == self.ticket_on(tier, *a),
    {
        match self.find_ticket(a) {
            Some(j) => match tier {
                Tier::Base => self.tickets[j].base,
                Tier::Fast => self.tickets[j].fast,
            },
            None => None,
        }
    }

    /// Where the authoritative state of the event at `a` lives.
    pub fn location_of(&self, a: &Address) -> (r: Option<Location>)
        requires
            self.wf(),
        ensures
            r == self.location(*a),
    {
        match self.find_event(a) {
            Some(i) => Some(self.events[i].location),
            None => None,
        }
    }

    /// Whether `tier` holds a ticket at `a`.
    fn ticket_held(&self, tier: Tier, a: &Address) -> (r: bool)
        requires
            self.wf(),
        ensures
            r == (self.ticket_on(tier, *a) is Some),
    {
        match self.find_ticket(a) {
            Some(j) => match tier {
                Tier::Base => self.tickets[j].base.is_some(),
                Tier::Fast => self.tickets[j].fast.is_some(),
            },
            None => false,
        }
    }

    /// Every record other than the `tier` copies of the event at `a` and of
    /// the ticket at `ticket` is as in `old`.
    pub open spec fn only_sale_changed(self, old: Ledger, tier: Tier, a: Address, ticket: Address) -> bool {
        &&& self.program_id == old.program_id
        &&& self.require_organizer_signature_on_checkin == old.require_organizer_signature_on_checkin
        &&& forall|t: Tier, b: Address|
            (b != a || t != tier) ==> #[trigger] self.event_on(t, b) == old.event_on(t, b)
        &&& forall|b: Address| #[trigger] self.location(b) == old.location(b)
        &&& forall|t: Tier, b: Address|
            (b != ticket || t != tier) ==> #[trigger] self.ticket_on(t, b) == old.ticket_on(t, b)
    }
}

/// The `tier` copy of the event in entry `e`.
pub open spec fn copy_on_entry(tier: Tier, e: EventEntry) -> Event {
    match tier {
        Tier::Base => e.base,
        Tier::Fast => e.fast.unwrap(),
    }
}

} // verus!
