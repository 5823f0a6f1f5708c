use vstd::prelude::*;
use vstd::bytes::spec_u64_to_le_bytes;
use vstd::bytes::u64_to_le_bytes;
use crate::addr::Address;

verus! {

// ---------------------------------------------------------------------------
// The derivation itself is an outside computation (a hash together with a
// curve-membership test). Its result depends on the seed material and the
// program id alone, so it is given a name here and every contract speaks
// of that name.
// ---------------------------------------------------------------------------

/// What `Pubkey::try_find_program_address` returns for the given seed
/// material: the derived address together with the chosen bump, or `None`
/// when no bump yields a valid derived address.
pub uninterp spec fn find_pda(seeds: Seq<Seq<u8>>, program_id: Seq<u8>) -> Option<(Seq<u8>, u8)>;

/// What `Pubkey::create_program_address` returns for the given seed
/// material (the bump standing last among the seeds): the derived address,
/// or `None` when the seeds are rejected.
pub uninterp spec fn create_pda(seeds: Seq<Seq<u8>>, program_id: Seq<u8>) -> Option<Seq<u8>>;

/// Relies on solana_program's `Pubkey::try_find_program_address`: the result
/// is a function of the seeds and the program id alone. When it returns an
/// address and a bump, its source shows that `Pubkey::create_program_address`
/// on the same seeds with that bump appended returns that same address.
#[verifier::external_body]
fn solana_find_pda(seeds: &Vec<Vec<u8>>, program_id: &Address) -> (r: Option<(Address, u8)>)
    ensures
        match r {
            Some(p) => find_pda(seeds.deep_view(), program_id@) == Some((p.0@, p.1))
                && create_pda(seeds.deep_view().push(seq![p.1]), program_id@) == Some(p.0@),
            None => find_pda(seeds.deep_view(), program_id@) is None,
        },
{
    let refs: Vec<&[u8]> = seeds.iter().map(|s| s.as_slice()).collect();
    let pid = solana_program::pubkey::Pubkey::new_from_array(program_id.bytes);
    solana_program::pubkey::Pubkey::try_find_program_address(&refs, &pid)
        .map(|(a, b)| (Address { bytes: a.to_bytes() }, b))
}

/// Relies on solana_program's `Pubkey::create_program_address`: the result
/// is a function of the seeds and the program id alone; a rejection of the
/// seeds surfaces as `None`.
#[verifier::external_body]
fn solana_create_pda(seeds: &Vec<Vec<u8>>, bump: u8, program_id: &Address) -> (r: Option<Address>)
    ensures
        match r {
            Some(a) => create_pda(seeds.deep_view().push(seq![bump]), program_id@) == Some(a@),
            None => create_pda(seeds.deep_view().push(seq![bump]), program_id@) is None,
        },
{
    let mut refs: Vec<&[u8]> = seeds.iter().map(|s| s.as_slice()).collect();
    let bump_seed = [bump];
    refs.push(&bump_seed);
    let pid = solana_program::pubkey::Pubkey::new_from_array(program_id.bytes);
    match solana_program::pubkey::Pubkey::create_program_address(&refs, &pid) {
        Ok(a) => Some(Address { bytes: a.to_bytes() }),
        Err(_) => None,
    }
}

// ---------------------------------------------------------------------------
// Seed material. Each custody account's address is derived from a fixed
// domain tag plus its distinguishing fields.
// ---------------------------------------------------------------------------

/// The domain tag b"state" of a vault's state record.
pub open spec fn state_tag() -> Seq<u8> {
    seq![115u8, 116u8, 97u8, 116u8, 101u8]
}

/// The domain tag b"vault" of a vault's custody account.
pub open spec fn vault_tag() -> Seq<u8> {
    seq![118u8, 97u8, 117u8, 108u8, 116u8]
}

/// The domain tag b"escrow" of an escrow record.
pub open spec fn escrow_tag() -> Seq<u8> {
    seq![101u8, 115u8, 99u8, 114u8, 111u8, 119u8]
}

/// Seeds of a vault state record: tag "state" plus the owner's address.
pub open spec fn state_seeds(owner: Seq<u8>) -> Seq<Seq<u8>> {
    seq![state_tag(), owner]
}

/// Seeds of a vault custody account: tag "vault" plus the state record's address.
pub open spec fn vault_seeds(state_addr: Seq<u8>) -> Seq<Seq<u8>> {
    seq![vault_tag(), state_addr]
}

/// Seeds of an escrow record: tag "escrow", the maker's address, and the
/// discriminator in little-endian bytes.
pub open spec fn escrow_seeds(maker: Seq<u8>, discriminator: u64) -> Seq<Seq<u8>> {
    seq![escrow_tag(), maker, spec_u64_to_le_bytes(discriminator)]
}

/// Address a stored state-record bump re-derives for the given owner.
pub open spec fn state_pda(owner: Seq<u8>, bump: u8, program_id: Seq<u8>) -> Option<Seq<u8>> {
    create_pda(state_seeds(owner).push(seq![bump]), program_id)
}

/// Address a stored vault bump re-derives for the given state record.
pub open spec fn vault_pda(state_addr: Seq<u8>, bump: u8, program_id: Seq<u8>) -> Option<Seq<u8>> {
    create_pda(vault_seeds(state_addr).push(seq![bump]), program_id)
}

/// Address a stored escrow bump re-derives for the given maker and discriminator.
pub open spec fn escrow_pda(
    maker: Seq<u8>,
    discriminator: u64,
    bump: u8,
    program_id: Seq<u8>,
) -> Option<Seq<u8>> {
    create_pda(escrow_seeds(maker, discriminator).push(seq![bump]), program_id)
}

fn state_tag_bytes() -> (r: Vec<u8>)
    ensures
        r@ == state_tag(),
{
    let mut v: Vec<u8> = Vec::new();
    v.push(115u8);
    v.push(116u8);
    v.push(97u8);
    v.push(116u8);
    v.push(101u8);
    proof {
        assert(v@ =~= state_tag());
    }
    v
}

fn vault_tag_bytes() -> (r: Vec<u8>)
    ensures
        r@ == vault_tag(),
{
    let mut v: Vec<u8> = Vec::new();
    v.push(118u8);
    v.push(97u8);
    v.push(117u8);
    v.push(108u8);
    v.push(116u8);
    proof {
        assert(v@ =~= vault_tag());
    }
    v
}

fn escrow_tag_bytes() -> (r: Vec<u8>)
    ensures
        r@ == escrow_tag(),
{
    let mut v: Vec<u8> = Vec::new();
    v.push(101u8);
    v.push(115u8);
    v.push(99u8);
    v.push(114u8);
    v.push(111u8);
    v.push(119u8);
    proof {
        assert(v@ =~= escrow_tag());
    }
    v
}

// ---------------------------------------------------------------------------
// Proof of authority: the exact seed tuple (tag, fields, bump). Whoever
// holds it may ask the ledger to move assets out of the derived address it
// re-derives — there is no private key for such an address.
// ---------------------------------------------------------------------------

/// A capability standing for signing authority over a derived address:
/// the seed material together with the persisted bump.
pub struct AuthorityProof {
    pub seeds: Vec<Vec<u8>>,
    pub bump: u8,
}

impl AuthorityProof {
    /// The address this proof re-derives, if its bump is valid for its seeds.
    pub open spec fn derives(&self, program_id: Seq<u8>) -> Option<Seq<u8>> {
        create_pda(self.seeds.deep_view().push(seq![self.bump]), program_id)
    }

    /// Whether this proof stands for authority over `addr`.
    pub open spec fn authorizes(&self, addr: Seq<u8>, program_id: Seq<u8>) -> bool {
        self.derives(program_id) == Some(addr)
    }

    /// The runtime's seed-constraint check: re-derive the address from the
    /// seed tuple and compare it with the account actually presented.
    pub fn check(&self, addr: &Address, program_id: &Address) -> (r: bool)
        ensures
            r == self.authorizes(addr@, program_id@),
    {
        match solana_create_pda(&self.seeds, self.bump, program_id) {
            Some(a) => a.eq_addr(addr),
            None => false,
        }
    }
}

/// Authority proof of a vault state record, from the owner and the stored bump.
pub fn state_authority(owner: &Address, bump: u8) -> (r: AuthorityProof)
    ensures
        r.seeds.deep_view() == state_seeds(owner@),
        r.bump == bump,
{
    let mut seeds: Vec<Vec<u8>> = Vec::new();
    seeds.push(state_tag_bytes());
    seeds.push(owner.to_vec());
    proof {
        assert(seeds.deep_view() =~~= state_seeds(owner@));
    }
    AuthorityProof { seeds, bump }
}

/// Authority proof of a vault custody account, from the state record's
/// address and the stored bump.
pub fn vault_authority(state_addr: &Address, bump: u8) -> (r: AuthorityProof)
    ensures
        r.seeds.deep_view() == vault_seeds(state_addr@),
        r.bump == bump,
{
    let mut seeds: Vec<Vec<u8>> = Vec::new();
    seeds.push(vault_tag_bytes());
    seeds.push(state_addr.to_vec());
    proof {
        assert(seeds.deep_view() =~~= vault_seeds(state_addr@));
    }
    AuthorityProof { seeds, bump }
}

/// Authority proof of an escrow record, from the maker, the discriminator
/// and the stored bump.
pub fn escrow_authority(maker: &Address, discriminator: u64, bump: u8) -> (r: AuthorityProof)
    ensures
        r.seeds.deep_view() == escrow_seeds(maker@, discriminator),
        r.bump == bump,
{
    let mut seeds: Vec<Vec<u8>> = Vec::new();
    seeds.push(escrow_tag_bytes());
    seeds.push(maker.to_vec());
    seeds.push(u64_to_le_bytes(discriminator));
    proof {
        assert(seeds.deep_view() =~~= escrow_seeds(maker@, discriminator));
    }
    AuthorityProof { seeds, bump }
}

// ---------------------------------------------------------------------------
// Bump search, done once at creation time and persisted.
// ---------------------------------------------------------------------------

/// Derive a vault state record's address for `owner`, searching for the
/// bump: the returned bump re-derives the returned address.
pub fn find_state_address(owner: &Address, program_id: &Address) -> (r: Option<(Address, u8)>)
    ensures
        match r {
            Some(p) => find_pda(state_seeds(owner@), program_id@) == Some((p.0@, p.1))
                && state_pda(owner@, p.1, program_id@) == Some(p.0@),
            None => find_pda(state_seeds(owner@), program_id@) is None,
        },
{
    let mut seeds: Vec<Vec<u8>> = Vec::new();
    seeds.push(state_tag_bytes());
    seeds.push(owner.to_vec());
    proof {
        assert(seeds.deep_view() =~~= state_seeds(owner@));
    }
    solana_find_pda(&seeds, program_id)
}

/// Derive a vault custody account's address for its state record,
/// searching for the bump.
pub fn find_vault_address(state_addr: &Address, program_id: &Address) -> (r: Option<(Address, u8)>)
    ensures
        match r {
            Some(p) => find_pda(vault_seeds(state_addr@), program_id@) == Some((p.0@, p.1))
                && vault_pda(state_addr@, p.1, program_id@) == Some(p.0@),
            None => find_pda(vault_seeds(state_addr@), program_id@) is None,
        },
{
    let mut seeds: Vec<Vec<u8>> = Vec::new();
    seeds.push(vault_tag_bytes());
    seeds.push(state_addr.to_vec());
    proof {
        assert(seeds.deep_view() =~~= vault_seeds(state_addr@));
    }
    solana_find_pda(&seeds, program_id)
}

/// Derive an escrow record's address for a maker and discriminator,
/// searching for the bump.
pub fn find_escrow_address(
    maker: &Address,
    discriminator: u64,
    program_id: &Address,
) -> (r: Option<(Address, u8)>)
    ensures
        match r {
            Some(p) => find_pda(escrow_seeds(maker@, discriminator), program_id@) == Some(
                (p.0@, p.1),
            ) && escrow_pda(maker@, discriminator, p.1, program_id@) == Some(p.0@),
            None => find_pda(escrow_seeds(maker@, discriminator), program_id@) is None,
        },
{
    let mut seeds: Vec<Vec<u8>> = Vec::new();
    seeds.push(escrow_tag_bytes());
    seeds.push(maker.to_vec());
    seeds.push(u64_to_le_bytes(discriminator));
    proof {
        assert(seeds.deep_view() =~~= escrow_seeds(maker@, discriminator));
    }
    solana_find_pda(&seeds, program_id)
}

/// Law: derivation is deterministic. Re-deriving with identical seed
/// material and program id yields an identical result, both for the bump
/// search and for re-derivation with a stored bump.
pub proof fn lemma_derivation_deterministic(
    seeds1: Seq<Seq<u8>>,
    pid1: Seq<u8>,
    seeds2: Seq<Seq<u8>>,
    pid2: Seq<u8>,
)
    requires
        seeds1 == seeds2,
        pid1 == pid2,
    ensures
        find_pda(seeds1, pid1) == find_pda(seeds2, pid2),
        create_pda(seeds1, pid1) == create_pda(seeds2, pid2),
{
}

} // verus!
