use soluma::address::{derive_event_address, derive_ticket_address};
use soluma::delegation::{Commit, CommitAndUndelegate, Delegate, DelegateEvent, Undelegate, UndelegateEvent};
use soluma::ledger::Ledger;
use soluma::program::{
    CheckInTicket, GetEventStats, InitializeEvent, PurchaseTicket, PurchaseTicketAndCommit,
    UpdateEventCapacity,
};
use soluma::types::{Address, EventError, EventStats, Location, Tier};

fn key(n: u8) -> Address {
    [n; 32]
}

const ORGANIZER: u8 = 1;

fn ledger() -> Ledger {
    Ledger::new(key(200))
}

fn create(l: &mut Ledger, title: &str, price: u64, capacity: u32) -> Address {
    l.initialize_event(
        &InitializeEvent { organizer: key(ORGANIZER) },
        title.to_string(),
        "an evening".to_string(),
        price,
        capacity,
        1_000,
        2_000,
    )
    .unwrap()
}

fn buy(l: &mut Ledger, event: Address, buyer: u8) -> Result<Address, EventError> {
    l.purchase_ticket(
        Tier::Base,
        &PurchaseTicket { event, buyer: key(buyer), organizer_account: key(ORGANIZER) },
        50,
        true,
    )
}

fn stats(l: &Ledger, tier: Tier, event: Address) -> EventStats {
    l.get_event_stats(tier, &GetEventStats { event }).unwrap()
}

#[test]
fn sells_up_to_capacity_then_sold_out() {
    let mut l = ledger();
    let ev = create(&mut l, "concert", 100, 2);
    let a = buy(&mut l, ev, 10).unwrap();
    assert_eq!(l.ticket_record(Tier::Base, &a).unwrap().ticket_id, 0);
    assert_eq!(stats(&l, Tier::Base, ev).tickets_sold, 1);
    let b = buy(&mut l, ev, 11).unwrap();
    assert_eq!(l.ticket_record(Tier::Base, &b).unwrap().ticket_id, 1);
    assert_eq!(stats(&l, Tier::Base, ev).tickets_sold, 2);
    assert_eq!(buy(&mut l, ev, 12), Err(EventError::EventSoldOut));
    assert_eq!(stats(&l, Tier::Base, ev).tickets_sold, 2);
}

#[test]
fn nth_sale_gets_number_n_minus_one() {
    let mut l = ledger();
    let ev = create(&mut l, "festival", 5, 4);
    for n in 0..4u8 {
        let t = buy(&mut l, ev, 20 + n).unwrap();
        let ticket = l.ticket_record(Tier::Base, &t).unwrap();
        assert_eq!(ticket.ticket_id, n as u32);
        assert_eq!(ticket.buyer, key(20 + n));
        assert_eq!(ticket.event, ev);
        assert_eq!(ticket.purchase_time, 50);
        assert!(!ticket.is_used);
        assert_eq!(ticket.check_in_time, None);
        let s = stats(&l, Tier::Base, ev);
        assert!(s.tickets_sold <= s.capacity);
    }
    assert_eq!(buy(&mut l, ev, 99), Err(EventError::EventSoldOut));
}

#[test]
fn second_ticket_for_same_buyer_already_exists() {
    let mut l = ledger();
    let ev = create(&mut l, "play", 10, 5);
    buy(&mut l, ev, 7).unwrap();
    assert_eq!(buy(&mut l, ev, 7), Err(EventError::AlreadyExists));
    assert_eq!(stats(&l, Tier::Base, ev).tickets_sold, 1);
}

#[test]
fn check_in_succeeds_once() {
    let mut l = ledger();
    let ev = create(&mut l, "talk", 0, 3);
    let t = buy(&mut l, ev, 5).unwrap();
    let ctx = CheckInTicket { ticket: t, organizer: key(ORGANIZER) };
    assert_eq!(l.check_in_ticket(Tier::Base, &ctx, 1_500), Ok(()));
    assert_eq!(l.check_in_ticket(Tier::Base, &ctx, 1_600), Err(EventError::TicketAlreadyUsed));
    let ticket = l.ticket_record(Tier::Base, &t).unwrap();
    assert!(ticket.is_used);
    assert_eq!(ticket.check_in_time, Some(1_500));
}

#[test]
fn check_in_by_stranger_refused_when_signature_required() {
    let mut l = ledger();
    let ev = create(&mut l, "talk", 0, 3);
    let t = buy(&mut l, ev, 5).unwrap();
    let ctx = CheckInTicket { ticket: t, organizer: key(77) };
    assert_eq!(l.check_in_ticket(Tier::Base, &ctx, 1_500), Err(EventError::Unauthorized));
    assert!(!l.ticket_record(Tier::Base, &t).unwrap().is_used);
}

#[test]
fn check_in_by_anyone_when_signature_not_required() {
    let mut l = Ledger::with_checkin_policy(key(200), false);
    let ev = create(&mut l, "talk", 0, 3);
    let t = buy(&mut l, ev, 5).unwrap();
    let ctx = CheckInTicket { ticket: t, organizer: key(77) };
    assert_eq!(l.check_in_ticket(Tier::Base, &ctx, 1_500), Ok(()));
}

#[test]
fn check_in_unknown_ticket_not_found() {
    let mut l = ledger();
    let ctx = CheckInTicket { ticket: key(3), organizer: key(ORGANIZER) };
    assert_eq!(l.check_in_ticket(Tier::Base, &ctx, 1), Err(EventError::NotFound));
}

#[test]
fn capacity_update_by_other_caller_unauthorized() {
    let mut l = ledger();
    let ev = create(&mut l, "gala", 1, 10);
    for cap in [0u32, 5, 10, 11, u32::MAX] {
        let ctx = UpdateEventCapacity { event: ev, organizer: key(42) };
        assert_eq!(l.update_event_capacity(Tier::Base, &ctx, cap), Err(EventError::Unauthorized));
    }
    assert_eq!(stats(&l, Tier::Base, ev).capacity, 10);
    let ctx = UpdateEventCapacity { event: ev, organizer: key(ORGANIZER) };
    assert_eq!(l.update_event_capacity(Tier::Base, &ctx, 3), Ok(()));
    assert_eq!(stats(&l, Tier::Base, ev).capacity, 3);
}

#[test]
fn revenue_is_exact_product() {
    let mut l = ledger();
    let ev = create(&mut l, "big", u64::MAX, 3);
    buy(&mut l, ev, 1).unwrap();
    buy(&mut l, ev, 2).unwrap();
    let s = stats(&l, Tier::Base, ev);
    assert_eq!(s, EventStats { tickets_sold: 2, capacity: 3, revenue: 2 * (u64::MAX as u128), is_active: true });
    let ev2 = create(&mut l, "small", 100, 3);
    buy(&mut l, ev2, 1).unwrap();
    assert_eq!(stats(&l, Tier::Base, ev2).revenue, 100);
}

#[test]
fn capacity_lowered_to_zero_blocks_sales_but_keeps_ticket() {
    let mut l = ledger();
    let ev = create(&mut l, "show", 10, 5);
    let t = buy(&mut l, ev, 3).unwrap();
    let ctx = UpdateEventCapacity { event: ev, organizer: key(ORGANIZER) };
    assert_eq!(l.update_event_capacity(Tier::Base, &ctx, 0), Ok(()));
    assert_eq!(buy(&mut l, ev, 4), Err(EventError::EventSoldOut));
    let s = stats(&l, Tier::Base, ev);
    assert_eq!((s.tickets_sold, s.capacity), (1, 0));
    let check = CheckInTicket { ticket: t, organizer: key(ORGANIZER) };
    assert_eq!(l.check_in_ticket(Tier::Base, &check, 1_200), Ok(()));
    assert!(l.ticket_record(Tier::Base, &t).unwrap().is_used);
}

#[test]
fn fast_tier_sale_survives_commit_and_undelegate() {
    let mut l = ledger();
    let ev = create(&mut l, "rollup night", 10, 5);
    let early = buy(&mut l, ev, 1).unwrap();
    let owner = key(ORGANIZER);
    assert_eq!(l.delegate(&Delegate { pda: ev, owner }, true), Ok(()));
    assert_eq!(l.location_of(&ev), Some(Location::DelegatingToFast));
    assert_eq!(l.complete_delegation(&ev), Ok(()));
    assert_eq!(l.location_of(&ev), Some(Location::Fast));
    assert!(l.ticket_record(Tier::Fast, &early).is_some());
    let t = l
        .purchase_ticket_and_commit(&PurchaseTicketAndCommit { event: ev, buyer: key(2) }, 70)
        .unwrap();
    assert!(l.ticket_record(Tier::Base, &t).is_none());
    assert_eq!(l.commit_and_undelegate(&CommitAndUndelegate { pda: ev, owner }, true), Ok(()));
    assert_eq!(l.location_of(&ev), Some(Location::UndelegatingToBase));
    assert_eq!(l.complete_undelegation(&ev), Ok(()));
    assert_eq!(l.location_of(&ev), Some(Location::Base));
    let ticket = l.ticket_record(Tier::Base, &t).unwrap();
    assert_eq!(ticket.ticket_id, 1);
    assert_eq!(ticket.buyer, key(2));
    assert_eq!(stats(&l, Tier::Base, ev).tickets_sold, 2);
    assert!(l.ticket_record(Tier::Fast, &t).is_none());
    assert!(l.event_record(Tier::Fast, &ev).is_none());
}

#[test]
fn undelegate_without_commit_drops_fast_sales() {
    let mut l = ledger();
    let ev = create(&mut l, "draft", 10, 5);
    let owner = key(ORGANIZER);
    l.delegate_event(&DelegateEvent { event: ev, organizer: owner }, true).unwrap();
    l.complete_delegation(&ev).unwrap();
    let t = l
        .purchase_ticket_and_commit(&PurchaseTicketAndCommit { event: ev, buyer: key(2) }, 70)
        .unwrap();
    l.undelegate_event(&UndelegateEvent { event: ev, organizer: owner }, true).unwrap();
    l.complete_undelegation(&ev).unwrap();
    assert!(l.ticket_record(Tier::Base, &t).is_none());
    assert_eq!(stats(&l, Tier::Base, ev).tickets_sold, 0);
}

#[test]
fn commit_keeps_fast_authority() {
    let mut l = ledger();
    let ev = create(&mut l, "stream", 10, 5);
    let owner = key(ORGANIZER);
    l.delegate(&Delegate { pda: ev, owner }, true).unwrap();
    l.complete_delegation(&ev).unwrap();
    l.purchase_ticket_and_commit(&PurchaseTicketAndCommit { event: ev, buyer: key(2) }, 70).unwrap();
    assert_eq!(stats(&l, Tier::Base, ev).tickets_sold, 0);
    assert_eq!(l.commit(&Commit { pda: ev, owner }, true), Ok(()));
    assert_eq!(stats(&l, Tier::Base, ev).tickets_sold, 1);
    assert_eq!(l.location_of(&ev), Some(Location::Fast));
    assert_eq!(l.undelegate(&Undelegate { pda: ev, owner }, true), Ok(()));
    assert_eq!(l.location_of(&ev), Some(Location::UndelegatingToBase));
}

#[test]
fn tier_requests_refused() {
    let mut l = ledger();
    let ev = create(&mut l, "gig", 10, 5);
    let owner = key(ORGANIZER);
    assert_eq!(l.delegate(&Delegate { pda: ev, owner: key(9) }, true), Err(EventError::Unauthorized));
    assert_eq!(l.delegate(&Delegate { pda: ev, owner }, false), Err(EventError::EngineUnavailable));
    assert_eq!(l.delegate(&Delegate { pda: key(5), owner }, true), Err(EventError::NotFound));
    assert_eq!(l.commit(&Commit { pda: ev, owner }, true), Err(EventError::WrongTier));
    assert_eq!(l.complete_delegation(&ev), Err(EventError::WrongTier));
    assert_eq!(l.location_of(&ev), Some(Location::Base));
    l.delegate(&Delegate { pda: ev, owner }, true).unwrap();
    assert_eq!(buy(&mut l, ev, 3), Err(EventError::WrongTier));
    l.complete_delegation(&ev).unwrap();
    assert_eq!(buy(&mut l, ev, 3), Err(EventError::WrongTier));
    assert_eq!(l.undelegate(&Undelegate { pda: ev, owner }, false), Err(EventError::EngineUnavailable));
}

#[test]
fn fast_purchase_needs_delegated_event() {
    let mut l = ledger();
    let ev = create(&mut l, "base only", 10, 5);
    let r = l.purchase_ticket_and_commit(&PurchaseTicketAndCommit { event: ev, buyer: key(2) }, 70);
    assert_eq!(r, Err(EventError::WrongTier));
}

#[test]
fn payment_failures() {
    let mut l = ledger();
    let ev = create(&mut l, "paid", 10, 5);
    let unsettled = PurchaseTicket { event: ev, buyer: key(4), organizer_account: key(ORGANIZER) };
    assert_eq!(l.purchase_ticket(Tier::Base, &unsettled, 1, false), Err(EventError::PaymentFailed));
    let wrong_payee = PurchaseTicket { event: ev, buyer: key(4), organizer_account: key(8) };
    assert_eq!(l.purchase_ticket(Tier::Base, &wrong_payee, 1, true), Err(EventError::PaymentFailed));
    assert_eq!(stats(&l, Tier::Base, ev).tickets_sold, 0);
    assert!(buy(&mut l, ev, 4).is_ok());
}

#[test]
fn inactive_event_refuses_sales() {
    let mut l = ledger();
    let ev = create(&mut l, "closed", 10, 5);
    l.events[0].base.is_active = false;
    assert_eq!(buy(&mut l, ev, 4), Err(EventError::EventInactive));
}

#[test]
fn duplicate_title_already_exists() {
    let mut l = ledger();
    create(&mut l, "same", 10, 5);
    let r = l.initialize_event(
        &InitializeEvent { organizer: key(ORGANIZER) },
        "same".to_string(),
        String::new(),
        1,
        1,
        0,
        0,
    );
    assert_eq!(r, Err(EventError::AlreadyExists));
    let other = l.initialize_event(
        &InitializeEvent { organizer: key(2) },
        "same".to_string(),
        String::new(),
        1,
        1,
        0,
        0,
    );
    assert!(other.is_ok());
}

#[test]
fn long_title_has_no_address() {
    let mut l = ledger();
    let title = "a title that is much longer than thirty-two bytes".to_string();
    let r = l.initialize_event(&InitializeEvent { organizer: key(ORGANIZER) }, title, String::new(), 1, 1, 0, 0);
    assert_eq!(r, Err(EventError::InvalidSeeds));
}

#[test]
fn zero_capacity_event_is_sold_out() {
    let mut l = ledger();
    let ev = create(&mut l, "empty", 10, 0);
    assert_eq!(buy(&mut l, ev, 4), Err(EventError::EventSoldOut));
}

#[test]
fn stats_of_unknown_event_not_found() {
    let l = ledger();
    assert_eq!(l.get_event_stats(Tier::Base, &GetEventStats { event: key(1) }), Err(EventError::NotFound));
}

#[test]
fn derived_addresses_are_deterministic_and_distinct() {
    let pid = key(200);
    let a = derive_event_address(&pid, &key(1), &"x".to_string()).unwrap();
    let b = derive_event_address(&pid, &key(1), &"x".to_string()).unwrap();
    let c = derive_event_address(&pid, &key(1), &"y".to_string()).unwrap();
    assert_eq!(a, b);
    assert_ne!(a.0, c.0);
    assert_ne!(a.0, key(1));
    let t1 = derive_ticket_address(&pid, &a.0, &key(3)).unwrap();
    let t2 = derive_ticket_address(&pid, &a.0, &key(4)).unwrap();
    assert_ne!(t1.0, t2.0);
    assert_ne!(t1.0, a.0);
}
