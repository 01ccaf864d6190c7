use vstd::prelude::*;

verus! {

/// A 32-byte account identity: a principal's key or a derived record address.
pub type Address = [u8; 32];

/// Compares two addresses byte by byte.
pub fn same_address(a: &Address, b: &Address) -> (r: bool)
    ensures
        r == (*a == *b),
{
    broadcast use vstd::array::group_array_axioms;

    let mut i: usize = 0;
    while i < 32
        invariant
            0 <= i <= 32,
            forall|j: int| 0 <= j < i ==> a[j] == b[j],
        decreases 32 - i,
    {
        if a[i] != b[i] {
            return false;
        }
        i = i + 1;
    }
    assert(*a =~= *b);
    true
}

/// The durable record of an event.
pub struct Event {
    pub organizer: Address,
    pub title: String,
    pub description: String,
    pub price_lamports: u64,
    pub capacity: u32,
    pub tickets_sold: u32,
    pub starts_at: i64,
    pub ends_at: i64,
    pub is_active: bool,
    pub bump: u8,
}

impl Event {
    /// A field-for-field copy.
    pub fn copied(&self) -> (r: Event)
        ensures
            r == *self,
    {
        Event {
            organizer: self.organizer,
            title: self.title.clone(),
            description: self.description.clone(),
            price_lamports: self.price_lamports,
            capacity: self.capacity,
            tickets_sold: self.tickets_sold,
            starts_at: self.starts_at,
            ends_at: self.ends_at,
            is_active: self.is_active,
            bump: self.bump,
        }
    }
}

/// The durable record of one buyer's ticket for one event.
#[derive(Clone, Copy)]
pub struct Ticket {
    pub event: Address,
    pub buyer: Address,
    pub ticket_id: u32,
    pub purchase_time: i64,
    pub check_in_time: Option<i64>,
    pub is_used: bool,
    pub bump: u8,
}

/// Figures reported for an event; revenue is derived, never stored.
#[derive(Clone, Copy, PartialEq, Eq, Structural, Debug)]
pub struct EventStats {
    pub tickets_sold: u32,
    pub capacity: u32,
    pub revenue: u128,
    pub is_active: bool,
}

/// Every way an operation on the ledger can fail. A failed operation changes nothing.
#[derive(Clone, Copy, PartialEq, Eq, Structural, Debug)]
pub enum EventError {
    /// The derived address is already occupied.
    AlreadyExists,
    EventSoldOut,
    EventInactive,
    TicketAlreadyUsed,
    /// The caller is not the event's organizer.
    Unauthorized,
    /// The transfer of the ticket price did not go through.
    PaymentFailed,
    /// No record at the given address on the tier asked for.
    NotFound,
    /// The tier engine did not accept the request.
    EngineUnavailable,
    /// The event's authoritative state is not on the tier asked for, or a tier
    /// transition is requested from a location that does not allow it.
    WrongTier,
    /// No address can be derived from the seeds (a seed longer than 32 bytes).
    InvalidSeeds,
}

/// Where an event's authoritative state lives.
#[derive(Clone, Copy, PartialEq, Eq, Structural, Debug)]
pub enum Location {
    Base,
    DelegatingToFast,
    Fast,
    UndelegatingToBase,
}

/// The tier that executes an operation.
#[derive(Clone, Copy, PartialEq, Eq, Structural, Debug)]
pub enum Tier {
    Base,
    Fast,
}

} // verus!
