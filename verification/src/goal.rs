use vstd::prelude::*;

use crate::errors::ErrorCode;

verus! {

/// An opaque 32-byte identity, as the ledger substrate hands it to the core.
/// The core only ever compares identities and folds them into the escrow
/// derivation; it never inspects their structure.
pub type Identity = [u8; 32];

/// The storage substrate's limit on one derivation seed, and therefore on a
/// goal identifier.
pub const MAX_IDENTIFIER_LEN: usize = 32;

/// An identifier is valid when it is non-empty and within the storage key
/// limit.
pub open spec fn identifier_valid(identifier: Seq<u8>) -> bool {
    1 <= identifier.len() && identifier.len() <= MAX_IDENTIFIER_LEN
}

/// One step of the derivation fold.
pub open spec fn fold_byte(acc: u8, b: u8) -> u8 {
    ((acc * 31 + b) % 256) as u8
}

/// Folds a byte sequence into the running derivation accumulator.
pub open spec fn fold_bytes(acc: u8, bytes: Seq<u8>) -> u8
    decreases bytes.len(),
{
    if bytes.len() == 0 {
        acc
    } else {
        fold_byte(fold_bytes(acc, bytes.drop_last()), bytes.last())
    }
}

/// The authority proof is a pure, deterministic function of the creator's
/// identity and the goal identifier alone: any party can recompute it from
/// public data, and no external randomness enters the derivation.
pub open spec fn derive_proof(creator: Seq<u8>, identifier: Seq<u8>) -> u8 {
    fold_bytes(fold_bytes(0, creator), identifier)
}

/// One persistent goal record. `creator`, `identifier` and `target_amount`
/// never change after creation; `collected_amount` grows with every
/// successful contribution.
pub struct Goal {
    pub creator: Identity,
    pub identifier: Vec<u8>,
    pub target_amount: u64,
    pub collected_amount: u64,
    pub authority_proof: u8,
}

pub ghost struct GoalView {
    pub creator: Seq<u8>,
    pub identifier: Seq<u8>,
    pub target_amount: u64,
    pub collected_amount: u64,
    pub authority_proof: u8,
}

impl View for Goal {
    type V = GoalView;

    open spec fn view(&self) -> GoalView {
        GoalView {
            creator: self.creator@,
            identifier: self.identifier@,
            target_amount: self.target_amount,
            collected_amount: self.collected_amount,
            authority_proof: self.authority_proof,
        }
    }
}

impl Goal {
    /// A well-formed record carries a valid identifier and stores exactly
    /// the proof that re-derivation from its public fields yields.
    pub open spec fn wf(self) -> bool {
        &&& identifier_valid(self@.identifier)
        &&& self.authority_proof == derive_proof(self@.creator, self@.identifier)
    }
}

/// The delegated signer for one escrow holding: a value object carrying the
/// derivation inputs and the derived proof, never an actual key. The escrow
/// holding's address is the (creator, identifier) pair itself.
pub struct EscrowAuthority {
    pub creator: Identity,
    pub identifier: Vec<u8>,
    pub proof: u8,
}

pub ghost struct AuthorityView {
    pub creator: Seq<u8>,
    pub identifier: Seq<u8>,
    pub proof: u8,
}

impl View for EscrowAuthority {
    type V = AuthorityView;

    open spec fn view(&self) -> AuthorityView {
        AuthorityView {
            creator: self.creator@,
            identifier: self.identifier@,
            proof: self.proof,
        }
    }
}

/// What derivation yields for the given public inputs.
pub open spec fn derived_authority(creator: Seq<u8>, identifier: Seq<u8>) -> AuthorityView {
    AuthorityView {
        creator: creator,
        identifier: identifier,
        proof: derive_proof(creator, identifier),
    }
}

/// Distinct identifiers of one creator always derive distinct escrow
/// authorities, so two goals of the same creator can never address the same
/// escrow holding.
pub proof fn lemma_distinct_identifiers_distinct_authorities(
    creator: Seq<u8>,
    id1: Seq<u8>,
    id2: Seq<u8>,
)
    requires
        id1 != id2,
    ensures
        derived_authority(creator, id1) != derived_authority(creator, id2),
{
    assert(derived_authority(creator, id1).identifier == id1);
    assert(derived_authority(creator, id2).identifier == id2);
}

fn fold_byte_exec(acc: u8, b: u8) -> (r: u8)
    ensures
        r == fold_byte(acc, b),
{
    (((acc as u32) * 31 + (b as u32)) % 256) as u8
}

/// Checks whether an identifier may key a new goal.
pub fn validate_identifier(identifier: &Vec<u8>) -> (r: bool)
    ensures
        r <==> identifier_valid(identifier@),
{
    1 <= identifier.len() && identifier.len() <= MAX_IDENTIFIER_LEN
}

/// Compares two identities byte for byte.
pub fn identity_eq(a: &Identity, b: &Identity) -> (r: bool)
    ensures
        r <==> a@ == b@,
{
    let mut i: usize = 0;
    while i < 32
        invariant
            0 <= i <= 32,
            forall|k: int| 0 <= k < i ==> a@[k] == b@[k],
        decreases 32 - i,
    {
        if a[i] != b[i] {
            return false;
        }
        i = i + 1;
    }
    proof {
        assert(a@ =~= b@);
    }
    true
}

/// Compares two byte strings.
pub fn bytes_eq(a: &Vec<u8>, b: &Vec<u8>) -> (r: bool)
    ensures
        r <==> a@ == b@,
{
    if a.len() != b.len() {
        return false;
    }
    let mut i: usize = 0;
    while i < a.len()
        invariant
            0 <= i <= a@.len(),
            a@.len() == b@.len(),
            forall|k: int| 0 <= k < i ==> a@[k] == b@[k],
        decreases a@.len() - i,
    {
        if a[i] != b[i] {
            return false;
        }
        i = i + 1;
    }
    proof {
        assert(a@ =~= b@);
    }
    true
}

/// Copies a byte string.
pub fn clone_bytes(src: &Vec<u8>) -> (r: Vec<u8>)
    ensures
        r@ == src@,
{
    let mut out: Vec<u8> = Vec::new();
    let mut i: usize = 0;
    while i < src.len()
        invariant
            0 <= i <= src@.len(),
            out@ == src@.take(i as int),
        decreases src@.len() - i,
    {
        out.push(src[i]);
        proof {
            assert(out@ =~= src@.take(i as int + 1));
        }
        i = i + 1;
    }
    proof {
        assert(src@.take(src@.len() as int) =~= src@);
    }
    out
}

/// Re-runs the pure derivation for the given public inputs and returns the
/// delegated signer for the goal's escrow holding.
pub fn derive_escrow_authority(creator: &Identity, identifier: &Vec<u8>) -> (r: EscrowAuthority)
    ensures
        r@ == derived_authority(creator@, identifier@),
{
    let mut acc: u8 = 0;
    let mut i: usize = 0;
    while i < 32
        invariant
            0 <= i <= 32,
            acc == fold_bytes(0, creator@.take(i as int)),
        decreases 32 - i,
    {
        proof {
            assert(creator@.take(i + 1).drop_last() =~= creator@.take(i as int));
            assert(creator@.take(i + 1).last() == creator@[i as int]);
        }
        acc = fold_byte_exec(acc, creator[i]);
        i = i + 1;
    }
    proof {
        assert(creator@.take(32) =~= creator@);
    }
    let base: Ghost<u8> = Ghost(fold_bytes(0, creator@));
    let mut j: usize = 0;
    while j < identifier.len()
        invariant
            0 <= j <= identifier@.len(),
            base@ == fold_bytes(0, creator@),
            acc == fold_bytes(base@, identifier@.take(j as int)),
        decreases identifier@.len() - j,
    {
        proof {
            assert(identifier@.take(j + 1).drop_last() =~= identifier@.take(j as int));
            assert(identifier@.take(j + 1).last() == identifier@[j as int]);
        }
        acc = fold_byte_exec(acc, identifier[j]);
        j = j + 1;
    }
    proof {
        assert(identifier@.take(identifier@.len() as int) =~= identifier@);
    }
    EscrowAuthority { creator: *creator, identifier: clone_bytes(identifier), proof: acc }
}

/// Re-derives the authority proof from the record's public fields and
/// checks that the stored proof matches: the capability check that gates
/// outgoing transfers on behalf of the escrow's derived address.
pub fn verify_authority(goal: &Goal) -> (r: bool)
    ensures
        r <==> goal.authority_proof == derive_proof(goal@.creator, goal@.identifier),
{
    let derived = derive_escrow_authority(&goal.creator, &goal.identifier);
    goal.authority_proof == derived.proof
}

/// The contribution rule on one record: a zero amount is invalid, and the
/// collected total must stay representable — the addition is checked, never
/// wrapping. Returns the new collected total. Over-collection past the
/// target is deliberately permitted: contributions are not capped.
pub fn apply_contribution(collected: u64, amount: u64) -> (r: Result<u64, ErrorCode>)
    ensures
        amount == 0 ==> r == Err::<u64, ErrorCode>(ErrorCode::InvalidAmount),
        amount != 0 && collected + amount > u64::MAX ==> r == Err::<u64, ErrorCode>(
            ErrorCode::ArithmeticOverflow,
        ),
        amount != 0 && collected + amount <= u64::MAX ==> r == Ok::<u64, ErrorCode>(
            (collected + amount) as u64,
        ),
{
    if amount == 0 {
        return Err(ErrorCode::InvalidAmount);
    }
    match collected.checked_add(amount) {
        Some(total) => Ok(total),
        None => Err(ErrorCode::ArithmeticOverflow),
    }
}

/// The withdrawal gate on one record: the caller must be the creator and the
/// stored authority proof must re-derive (otherwise `Unauthorized`, whatever
/// the collected amount), and the collected total must have reached the
/// target (otherwise `TargetNotReached`).
pub fn check_withdrawal(goal: &Goal, caller: &Identity) -> (r: Result<(), ErrorCode>)
    ensures
        r == Err::<(), ErrorCode>(ErrorCode::Unauthorized) <==> !(caller@ == goal@.creator
            && goal.authority_proof == derive_proof(goal@.creator, goal@.identifier)),
        r == Err::<(), ErrorCode>(ErrorCode::TargetNotReached) <==> caller@ == goal@.creator
            && goal.authority_proof == derive_proof(goal@.creator, goal@.identifier)
            && goal.collected_amount < goal.target_amount,
        r == Ok::<(), ErrorCode>(()) <==> caller@ == goal@.creator && goal.authority_proof
            == derive_proof(goal@.creator, goal@.identifier) && goal.collected_amount
            >= goal.target_amount,
{
    if !identity_eq(caller, &goal.creator) || !verify_authority(goal) {
        return Err(ErrorCode::Unauthorized);
    }
    if goal.collected_amount < goal.target_amount {
        return Err(ErrorCode::TargetNotReached);
    }
    Ok(())
}

} // verus!
