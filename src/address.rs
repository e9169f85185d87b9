use anchor_lang::prelude::Pubkey;
use vstd::prelude::*;

verus! {

/// A 32-byte identity or storage address.
#[derive(Clone, Copy, Debug, PartialEq, Eq)]
pub struct Address {
    pub bytes: [u8; 32],
}

impl View for Address {
    type V = Seq<u8>;

    open spec fn view(&self) -> Seq<u8> {
        self.bytes@
    }
}

/// Domain tag of Button record addresses.
pub open spec fn button_tag() -> Seq<u8> {
    seq![98u8, 117u8, 116u8, 116u8, 111u8, 110u8]
}

/// Domain tag of Like marker addresses.
pub open spec fn like_tag() -> Seq<u8> {
    seq![108u8, 105u8, 107u8, 101u8]
}

/// The seeds of the Button record of `creator`.
pub open spec fn button_seeds(creator: Seq<u8>) -> Seq<Seq<u8>> {
    seq![button_tag(), creator]
}

/// The seeds of the Like marker of `user` on the button at `button`.
pub open spec fn like_seeds(button: Seq<u8>, user: Seq<u8>) -> Seq<Seq<u8>> {
    seq![like_tag(), button, user]
}

/// The program-derived address and bump seed that the seeds give under a
/// program id, or `None` when no bump seed yields an address off the curve,
/// or when there are more than 16 seeds or a seed is longer than 32 bytes.
pub uninterp spec fn program_address(seeds: Seq<Seq<u8>>, program_id: Seq<u8>) -> Option<(Seq<u8>, u8)>;

/// The address that `seeds` derive under `program_id`, if any.
pub open spec fn derived_address(seeds: Seq<Seq<u8>>, program_id: Seq<u8>) -> Option<Seq<u8>> {
    match program_address(seeds, program_id) {
        Some(p) => Some(p.0),
        None => None,
    }
}

/// Relies on `Pubkey::try_find_program_address`: a deterministic function of
/// the seeds and the program id (a hash searched over bump seeds), which
/// returns `None` where no bump seed gives an address or the seeds are too
/// many or too long.
#[verifier::external_body]
fn find_program_address(seeds: &Vec<Vec<u8>>, program_id: &Address) -> (r: Option<(Address, u8)>)
    ensures
        match program_address(seeds.deep_view(), program_id@) {
            None => r is None,
            Some(p) => r matches Some(q) && q.0@ == p.0 && q.1 == p.1,
        },
{
    let s: Vec<&[u8]> = seeds.iter().map(|v| v.as_slice()).collect();
    let id = Pubkey::new_from_array(program_id.bytes);
    Pubkey::try_find_program_address(&s, &id).map(|(p, b)| (Address { bytes: p.to_bytes() }, b))
}

impl Address {
    /// The address with the given bytes.
    pub fn new(bytes: [u8; 32]) -> (r: Address)
        ensures
            r.bytes == bytes,
    {
        Address { bytes }
    }

    /// Whether the two addresses hold the same bytes.
    pub fn equals(&self, other: &Address) -> (r: bool)
        ensures
            r == (self@ == other@),
    {
        let mut i: usize = 0;
        while i < 32
            invariant
                i <= 32,
                self@.len() == 32,
                other@.len() == 32,
                forall|j: int| 0 <= j < i ==> self@[j] == other@[j],
            decreases 32 - i,
        {
            if self.bytes[i] != other.bytes[i] {
                return false;
            }
            i = i + 1;
        }
        assert(self@ =~= other@);
        true
    }

    /// The bytes of the address as a vector.
    pub fn to_vec(&self) -> (r: Vec<u8>)
        ensures
            r@ == self@,
    {
        let mut v: Vec<u8> = Vec::new();
        let mut i: usize = 0;
        while i < 32
            invariant
                i <= 32,
                self@.len() == 32,
                v@ == self@.subrange(0, i as int),
            decreases 32 - i,
        {
            v.push(self.bytes[i]);
            i = i + 1;
            assert(v@ =~= self@.subrange(0, i as int));
        }
        assert(self@.subrange(0, 32) =~= self@);
        v
    }
}

/// The address of the Button record of `creator` under `program_id`.
pub fn button_address(program_id: &Address, creator: &Address) -> (r: Option<Address>)
    ensures
        match derived_address(button_seeds(creator@), program_id@) {
            None => r is None,
            Some(a) => r matches Some(b) && b@ == a,
        },
{
    let tag: Vec<u8> = vec![98u8, 117u8, 116u8, 116u8, 111u8, 110u8];
    let c = creator.to_vec();
    assert(tag.deep_view() =~= button_tag());
    assert(c.deep_view() =~= creator@);
    let seeds: Vec<Vec<u8>> = vec![tag, c];
    assert(seeds.deep_view() =~= button_seeds(creator@));
    match find_program_address(&seeds, program_id) {
        Some(p) => Some(p.0),
        None => None,
    }
}

/// The address of the Like marker of `user` on the button at `button`,
/// under `program_id`.
pub fn like_address(program_id: &Address, button: &Address, user: &Address) -> (r: Option<Address>)
    ensures
        match derived_address(like_seeds(button@, user@), program_id@) {
            None => r is None,
            Some(a) => r matches Some(b) && b@ == a,
        },
{
    let tag: Vec<u8> = vec![108u8, 105u8, 107u8, 101u8];
    let b = button.to_vec();
    let u = user.to_vec();
    assert(tag.deep_view() =~= like_tag());
    assert(b.deep_view() =~= button@);
    assert(u.deep_view() =~= user@);
    let seeds: Vec<Vec<u8>> = vec![tag, b, u];
    assert(seeds.deep_view() =~= like_seeds(button@, user@));
    match find_program_address(&seeds, program_id) {
        Some(p) => Some(p.0),
        None => None,
    }
}

} // verus!
