use crate::address::{program_address, ticket_seeds};
use crate::delegation::{moved, Transfer};
use crate::ledger::{EventEntry, Ledger};
use crate::program::{checked_in, stats_of, CheckInTicket, PurchaseTicket, UpdateEventCapacity};
use crate::types::{Address, Event, EventError, Location, Tier};
use vstd::prelude::*;

verus! {

/// A successful sale finds the event below its capacity, counts exactly one
/// more ticket, so that the count stays within the capacity, and numbers the
/// new ticket with the count of tickets sold before it. A failed sale
/// changes nothing.
pub proof fn lemma_sale_within_capacity(
    old: Ledger,
    new: Ledger,
    tier: Tier,
    ctx: PurchaseTicket,
    ticket: Address,
    bump: u8,
    now: i64,
    payment_settled: bool,
    r: Result<(), EventError>,
)
    requires
        old.wf(),
        Ledger::purchase_outcome(old, new, tier, ctx, ticket, bump, now, payment_settled, r),
    ensures
        r is Ok ==> {
            let before = old.event_on(tier, ctx.event).unwrap();
            let after = new.event_on(tier, ctx.event).unwrap();
            &&& old.event_on(tier, ctx.event) is Some
            &&& before.tickets_sold < before.capacity
            &&& after.tickets_sold == before.tickets_sold + 1
            &&& after.tickets_sold <= after.capacity
            &&& after.capacity == before.capacity
            &&& new.ticket_on(tier, ticket).unwrap().ticket_id == before.tickets_sold
        },
        r is Err ==> new == old,
{
}

/// The number of successes in `rs`.
pub open spec fn successes(rs: Seq<Result<(), EventError>>) -> nat
    decreases rs.len(),
{
    if rs.len() == 0 {
        0
    } else {
        successes(rs.drop_last()) + if rs.last() is Ok {
            1nat
        } else {
            0nat
        }
    }
}

/// The run of sales `states[0] -> states[1] -> ...` of the event at `event`
/// on `tier`, with results `rs`.
pub open spec fn sales_run(
    states: Seq<Ledger>,
    tier: Tier,
    event: Address,
    ctxs: Seq<PurchaseTicket>,
    tickets: Seq<Address>,
    bumps: Seq<u8>,
    nows: Seq<i64>,
    settled: Seq<bool>,
    rs: Seq<Result<(), EventError>>,
) -> bool {
    &&& states.len() == rs.len() + 1
    &&& ctxs.len() == rs.len()
    &&& tickets.len() == rs.len()
    &&& bumps.len() == rs.len()
    &&& nows.len() == rs.len()
    &&& settled.len() == rs.len()
    &&& forall|i: int| 0 <= i < states.len() ==> (#[trigger] states[i]).wf()
    &&& forall|i: int| 0 <= i < rs.len() ==> {
        &&& (#[trigger] ctxs[i]).event == event
        &&& Ledger::purchase_outcome(states[i], states[i + 1], tier, ctxs[i], tickets[i], bumps[i], nows[i], settled[i], rs[i])
    }
}

proof fn lemma_sales_prefix(
    states: Seq<Ledger>,
    tier: Tier,
    event: Address,
    ctxs: Seq<PurchaseTicket>,
    tickets: Seq<Address>,
    bumps: Seq<u8>,
    nows: Seq<i64>,
    settled: Seq<bool>,
    rs: Seq<Result<(), EventError>>,
    k: int,
)
    requires
        sales_run(states, tier, event, ctxs, tickets, bumps, nows, settled, rs),
        states[0].event_on(tier, event) is Some,
        states[0].event_on(tier, event).unwrap().tickets_sold == 0,
        0 <= k < states.len(),
    ensures
        states[k].event_on(tier, event) is Some,
        states[k].event_on(tier, event).unwrap().tickets_sold == successes(rs.take(k)),
        states[k].event_on(tier, event).unwrap().capacity == states[0].event_on(tier, event).unwrap().capacity,
        states[k].event_on(tier, event).unwrap().tickets_sold <= states[k].event_on(tier, event).unwrap().capacity,
        k > 0 && rs[k - 1] is Ok ==> states[k].ticket_on(tier, tickets[k - 1]).unwrap().ticket_id == successes(rs.take(k - 1)),
    decreases k,
{
    if k == 0 {
        assert(rs.take(0).len() == 0);
    } else {
        lemma_sales_prefix(states, tier, event, ctxs, tickets, bumps, nows, settled, rs, k - 1);
        let i = k - 1;
        assert(ctxs[i].event == event);
        assert(Ledger::purchase_outcome(states[i], states[i + 1], tier, ctxs[i], tickets[i], bumps[i], nows[i], settled[i], rs[i]));
        assert(rs.take(k).drop_last() =~= rs.take(i));
        assert(rs.take(k).last() == rs[i]);
    }
}

/// Over a run of sales of one event on one tier that starts with no ticket
/// sold, the count of tickets sold is always the number of successful sales
/// so far and never exceeds the capacity, and the n-th successful sale issues
/// ticket number n - 1.
pub proof fn lemma_sales_run(
    states: Seq<Ledger>,
    tier: Tier,
    event: Address,
    ctxs: Seq<PurchaseTicket>,
    tickets: Seq<Address>,
    bumps: Seq<u8>,
    nows: Seq<i64>,
    settled: Seq<bool>,
    rs: Seq<Result<(), EventError>>,
)
    requires
        sales_run(states, tier, event, ctxs, tickets, bumps, nows, settled, rs),
        states[0].event_on(tier, event) is Some,
        states[0].event_on(tier, event).unwrap().tickets_sold == 0,
    ensures
        forall|k: int| 0 <= k < states.len() ==> {
            let e = (#[trigger] states[k]).event_on(tier, event).unwrap();
            &&& states[k].event_on(tier, event) is Some
            &&& e.tickets_sold == successes(rs.take(k))
            &&& e.tickets_sold <= e.capacity
        },
        forall|i: int| 0 <= i < rs.len() && (#[trigger] rs[i]) is Ok ==>
            states[i + 1].ticket_on(tier, tickets[i]).unwrap().ticket_id == successes(rs.take(i)),
{
    assert forall|k: int| 0 <= k < states.len() implies {
        let e = (#[trigger] states[k]).event_on(tier, event).unwrap();
        &&& states[k].event_on(tier, event) is Some
        &&& e.tickets_sold == successes(rs.take(k))
        &&& e.tickets_sold <= e.capacity
    } by {
        lemma_sales_prefix(states, tier, event, ctxs, tickets, bumps, nows, settled, rs, k);
    }
    assert forall|i: int| 0 <= i < rs.len() && (#[trigger] rs[i]) is Ok implies
        states[i + 1].ticket_on(tier, tickets[i]).unwrap().ticket_id == successes(rs.take(i)) by {
        lemma_sales_prefix(states, tier, event, ctxs, tickets, bumps, nows, settled, rs, i + 1);
    }
}

/// A buyer holds at most one ticket per event: once a purchase at the
/// derived address succeeded, a second purchase by the same buyer for the
/// same event on the same tier never succeeds, and where it passes the sale
/// and payment checks it fails with `AlreadyExists`.
pub proof fn lemma_one_ticket_per_buyer(
    l0: Ledger,
    l1: Ledger,
    l2: Ledger,
    tier: Tier,
    first: PurchaseTicket,
    second: PurchaseTicket,
    a1: Address,
    b1: u8,
    a2: Address,
    b2: u8,
    now1: i64,
    now2: i64,
    settled1: bool,
    settled2: bool,
    r1: Result<(), EventError>,
    r2: Result<(), EventError>,
)
    requires
        l0.wf(),
        l1.wf(),
        second.event == first.event,
        second.buyer == first.buyer,
        l1.program_id == l0.program_id,
        program_address(ticket_seeds(first.event@, first.buyer@), l0.program_id@) == Some((a1@, b1)),
        program_address(ticket_seeds(second.event@, second.buyer@), l1.program_id@) == Some((a2@, b2)),
        Ledger::purchase_outcome(l0, l1, tier, first, a1, b1, now1, settled1, r1),
        r1 is Ok,
        Ledger::purchase_outcome(l1, l2, tier, second, a2, b2, now2, settled2, r2),
    ensures
        r2 is Err,
        ({
            let e = l1.event_on(tier, second.event).unwrap();
            l1.authoritative(tier, second.event) && e.tickets_sold < e.capacity && e.is_active
                && settled2 && second.organizer_account == e.organizer
        }) ==> r2 == Err::<(), EventError>(EventError::AlreadyExists),
{
    broadcast use vstd::array::group_array_axioms;

    assert(a1 =~= a2);
    assert(l0.authoritative(tier, first.event));
    assert(l1.location(first.event) == l0.location(first.event));
}

/// Checking a ticket in twice: where the first call succeeds, the second
/// fails with `TicketAlreadyUsed` and leaves the check-in time of the first.
pub proof fn lemma_check_in_once(
    l0: Ledger,
    l1: Ledger,
    l2: Ledger,
    tier: Tier,
    ctx: CheckInTicket,
    now1: i64,
    now2: i64,
    r1: Result<(), EventError>,
    r2: Result<(), EventError>,
)
    requires
        l0.wf(),
        l1.wf(),
        Ledger::check_in_outcome(l0, l1, tier, ctx, now1, r1),
        r1 is Ok,
        Ledger::check_in_outcome(l1, l2, tier, ctx, now2, r2),
    ensures
        r2 == Err::<(), EventError>(EventError::TicketAlreadyUsed),
        l2 == l1,
        l2.ticket_on(tier, ctx.ticket).unwrap().is_used,
        l2.ticket_on(tier, ctx.ticket).unwrap().check_in_time == Some(now1),
{
    let t = l0.ticket_on(tier, ctx.ticket).unwrap();
    assert(l1.ticket_on(tier, ctx.ticket) == Some(checked_in(t, now1)));
    assert(l1.event_on(tier, t.event) == l0.event_on(tier, t.event));
    assert(l1.location(t.event) == l0.location(t.event));
    assert(l1.event_entry(t.event) is Some) by {
        assert(l1.location(t.event) is Some);
    }
}

/// Only the recorded organizer changes an event's capacity: any other caller
/// fails with `Unauthorized` and changes nothing, whatever the capacity asked for.
pub proof fn lemma_capacity_organizer_only(
    old: Ledger,
    new: Ledger,
    tier: Tier,
    ctx: UpdateEventCapacity,
    new_capacity: u32,
    r: Result<(), EventError>,
)
    requires
        old.wf(),
        old.authoritative(tier, ctx.event),
        old.event_on(tier, ctx.event).unwrap().organizer != ctx.organizer,
        Ledger::capacity_outcome(old, new, tier, ctx, new_capacity, r),
    ensures
        r == Err::<(), EventError>(EventError::Unauthorized),
        new == old,
{
}

/// The reported revenue is the exact product of tickets sold and price.
pub proof fn lemma_revenue_exact(e: Event)
    ensures
        stats_of(e).revenue as int == e.tickets_sold as int * e.price_lamports as int,
{
    let sold = e.tickets_sold as int;
    let price = e.price_lamports as int;
    assert(0 <= sold * price <= 0xffff_ffff * 0xffff_ffff_ffff_ffff) by (nonlinear_arith)
        requires
            0 <= sold <= 0xffff_ffff,
            0 <= price <= 0xffff_ffff_ffff_ffff,
    ;
}

/// A commit loses nothing: where the base copy of the event at `a` became
/// its fast copy and the tickets moved from the fast tier to the base tier,
/// as `commit` and `commit_and_undelegate` do, the base tier holds the fast
/// tier's event and every ticket of it that the fast tier held.
pub proof fn lemma_commit_keeps_fast_state(old: Ledger, new: Ledger, a: Address, location: Location)
    requires
        old.wf(),
        new.wf(),
        old.event_on(Tier::Fast, a) is Some,
        new.only_entry_changed(
            old,
            a,
            EventEntry { base: old.event_entry(a).unwrap().fast.unwrap(), location, ..old.event_entry(a).unwrap() },
        ),
        new.tickets_moved(old, a, Transfer::FastToBase),
    ensures
        new.event_on(Tier::Base, a) == old.event_on(Tier::Fast, a),
        forall|b: Address|
            old.ticket_on(Tier::Fast, b) matches Some(t) && t.event == a ==> #[trigger] new.ticket_on(Tier::Base, b)
                == old.ticket_on(Tier::Fast, b),
{
    assert forall|b: Address|
        old.ticket_on(Tier::Fast, b) matches Some(t) && t.event == a implies #[trigger] new.ticket_on(Tier::Base, b)
            == old.ticket_on(Tier::Fast, b) by {
        assert(new.ticket_entry(b) == Some(moved(old.ticket_entry(b).unwrap(), a, Transfer::FastToBase)));
    }
}

} // verus!
