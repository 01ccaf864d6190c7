use anchor_lang::prelude::Pubkey;
use crate::types::Address;
use vstd::prelude::*;
use vstd::utf8::encode_utf8;

verus! {

/// The address and bump seed that the runtime derives from `seeds` under
/// `program_id`, or `None` where it finds none.
pub uninterp spec fn program_address(seeds: Seq<Seq<u8>>, program_id: Seq<u8>) -> Option<(Seq<u8>, u8)>;

/// The bytes of the domain tag `event`.
pub open spec fn event_tag() -> Seq<u8> {
    seq![101u8, 118u8, 101u8, 110u8, 116u8]
}

/// The bytes of the domain tag `ticket`.
pub open spec fn ticket_tag() -> Seq<u8> {
    seq![116u8, 105u8, 99u8, 107u8, 101u8, 116u8]
}

/// The seeds of an event's address: the tag, the organizer, the title's bytes.
pub open spec fn event_seeds(organizer: Seq<u8>, title: Seq<char>) -> Seq<Seq<u8>> {
    seq![event_tag(), organizer, encode_utf8(title)]
}

/// The seeds of a ticket's address: the tag, the event's address, the buyer.
pub open spec fn ticket_seeds(event: Seq<u8>, buyer: Seq<u8>) -> Seq<Seq<u8>> {
    seq![ticket_tag(), event, buyer]
}

/// A derived address and bump seed, by value.
pub open spec fn derived_view(r: Option<(Address, u8)>) -> Option<(Seq<u8>, u8)> {
    match r {
        Some(p) => Some((p.0@, p.1)),
        None => None,
    }
}

/// Relies on `Pubkey::try_find_program_address` (solana-program, through
/// anchor-lang): a deterministic function of the seeds and the program id,
/// `None` where more than 15 seeds are given or a seed is longer than 32 bytes.
#[verifier::external_body]
fn try_find_program_address(seeds: &Vec<Vec<u8>>, program_id: &Address) -> (r: Option<
    (Address, u8),
>)
    ensures
        derived_view(r) == program_address(seeds.deep_view(), program_id@),
        seeds@.len() >= 16 || (exists|i: int| 0 <= i < seeds@.len() && seeds@[i]@.len() > 32)
            ==> r is None,
{
    let refs: Vec<&[u8]> = seeds.iter().map(|s| s.as_slice()).collect();
    match Pubkey::try_find_program_address(&refs, &Pubkey::new_from_array(*program_id)) {
        Some((key, bump)) => Some((key.to_bytes(), bump)),
        None => None,
    }
}

/// Derives the address of the event that `organizer` creates under `title`.
/// No address exists for a title longer than 32 bytes.
pub fn derive_event_address(program_id: &Address, organizer: &Address, title: &String) -> (r:
    Option<(Address, u8)>)
    ensures
        derived_view(r) == program_address(event_seeds(organizer@, title@), program_id@),
        encode_utf8(title@).len() > 32 ==> r is None,
{
    let tag: Vec<u8> = vec![101u8, 118u8, 101u8, 110u8, 116u8];
    let title_bytes = vstd::slice::slice_to_vec(title.as_str().as_bytes());
    let org = vstd::slice::slice_to_vec(vstd::array::array_as_slice(organizer));
    let seeds: Vec<Vec<u8>> = vec![tag, org, title_bytes];
    proof {
        assert(seeds@[0]@ =~= event_tag());
        assert(seeds.deep_view()[0] == seeds@[0]@);
        assert(seeds.deep_view()[1] == seeds@[1]@);
        assert(seeds.deep_view()[2] == seeds@[2]@);
        assert(seeds.deep_view() =~= event_seeds(organizer@, title@));
        assert(seeds@[2]@.len() == encode_utf8(title@).len());
    }
    try_find_program_address(&seeds, program_id)
}

/// Derives the address of the ticket that `buyer` holds for the event at `event`.
pub fn derive_ticket_address(program_id: &Address, event: &Address, buyer: &Address) -> (r:
    Option<(Address, u8)>)
    ensures
        derived_view(r) == program_address(ticket_seeds(event@, buyer@), program_id@),
{
    let tag: Vec<u8> = vec![116u8, 105u8, 99u8, 107u8, 101u8, 116u8];
    let ev = vstd::slice::slice_to_vec(vstd::array::array_as_slice(event));
    let by = vstd::slice::slice_to_vec(vstd::array::array_as_slice(buyer));
    let seeds: Vec<Vec<u8>> = vec![tag, ev, by];
    proof {
        assert(seeds@[0]@ =~= ticket_tag());
        assert(seeds.deep_view()[0] == seeds@[0]@);
        assert(seeds.deep_view()[1] == seeds@[1]@);
        assert(seeds.deep_view()[2] == seeds@[2]@);
        assert(seeds.deep_view() =~= ticket_seeds(event@, buyer@));
    }
    try_find_program_address(&seeds, program_id)
}

} // verus!
