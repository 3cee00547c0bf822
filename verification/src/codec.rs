//! Canonical byte encodings: the fixed-width oracle message for a bet, the
//! preimage of a bet's derived address, and the reduction of signature bytes
//! to a game outcome.

use vstd::prelude::*;
use vstd::bytes::*;
use vstd::slice::slice_subrange;

verus! {

/// The canonical message the oracle must sign for a bet: the player key,
/// the seed and the wager amount in little-endian fixed width, the roll
/// threshold as one byte, and the bet's derived address. Every field is
/// fixed-width, so the encoding is unambiguous (see
/// [`crate::laws::lemma_message_binding`]).
pub open spec fn message_bytes(
    player: Seq<u8>,
    seed: u64,
    roll: u8,
    amount: u64,
    address: Seq<u8>,
) -> Seq<u8> {
    player + spec_u64_to_le_bytes(seed) + seq![roll] + spec_u64_to_le_bytes(amount) + address
}

/// The preimage from which a bet's address is derived: the player key
/// followed by the seed in little-endian fixed width.
pub open spec fn address_preimage(player: Seq<u8>, seed: u64) -> Seq<u8> {
    player + spec_u64_to_le_bytes(seed)
}

/// The outcome derived from a signature: the first 16 signature bytes read
/// as a little-endian integer, reduced modulo 100. The result lies in
/// [0, 100) and depends on the signature bytes alone, so any observer can
/// recompute it from the public signature.
pub open spec fn outcome_of(sig: Seq<u8>) -> int
    recommends
        sig.len() >= 16,
{
    (spec_u128_from_le_bytes(sig.subrange(0, 16)) as int) % 100
}

/// The canonical message encoding is injective: messages for bets that
/// differ in player, seed, roll or amount are distinct byte strings, so a
/// signature over one can never match the canonical message of the other.
pub proof fn lemma_message_bytes_injective(
    p1: Seq<u8>,
    s1: u64,
    r1: u8,
    a1: u64,
    d1: Seq<u8>,
    p2: Seq<u8>,
    s2: u64,
    r2: u8,
    a2: u64,
    d2: Seq<u8>,
)
    requires
        p1.len() == 32,
        p2.len() == 32,
        message_bytes(p1, s1, r1, a1, d1) == message_bytes(p2, s2, r2, a2, d2),
    ensures
        p1 == p2,
        s1 == s2,
        r1 == r2,
        a1 == a2,
        d1 == d2,
{
    lemma_auto_spec_u64_to_from_le_bytes();
    let m1 = message_bytes(p1, s1, r1, a1, d1);
    let m2 = message_bytes(p2, s2, r2, a2, d2);
    assert(p1 =~= m1.subrange(0, 32));
    assert(p2 =~= m2.subrange(0, 32));
    assert(spec_u64_to_le_bytes(s1) =~= m1.subrange(32, 40));
    assert(spec_u64_to_le_bytes(s2) =~= m2.subrange(32, 40));
    assert(s1 == spec_u64_from_le_bytes(spec_u64_to_le_bytes(s1)));
    assert(s2 == spec_u64_from_le_bytes(spec_u64_to_le_bytes(s2)));
    assert(r1 == m1[40]);
    assert(r2 == m2[40]);
    assert(spec_u64_to_le_bytes(a1) =~= m1.subrange(41, 49));
    assert(spec_u64_to_le_bytes(a2) =~= m2.subrange(41, 49));
    assert(a1 == spec_u64_from_le_bytes(spec_u64_to_le_bytes(a1)));
    assert(a2 == spec_u64_from_le_bytes(spec_u64_to_le_bytes(a2)));
    assert(d1 =~= m1.subrange(49, m1.len() as int));
    assert(d2 =~= m2.subrange(49, m2.len() as int));
}

/// Appends the 32 bytes of `b` to `v`.
fn push_bytes32(v: &mut Vec<u8>, b: &[u8; 32])
    ensures
        final(v)@ == old(v)@ + b@,
{
    let ghost prefix: Seq<u8> = v@;
    let mut i: usize = 0;
    while i < 32
        invariant
            i <= 32,
            v@ == prefix + b@.take(i as int),
        decreases 32 - i,
    {
        v.push(b[i]);
        proof {
            assert(b@.take(i + 1) =~= b@.take(i as int).push(b@[i as int]));
        }
        i = i + 1;
    }
    proof {
        assert(b@.take(32) =~= b@);
    }
}

/// Builds the canonical oracle message for a bet.
pub fn encode_message(
    player: &[u8; 32],
    seed: u64,
    roll: u8,
    amount: u64,
    address: &[u8; 32],
) -> (r: Vec<u8>)
    ensures
        r@ == message_bytes(player@, seed, roll, amount, address@),
{
    let mut v: Vec<u8> = Vec::new();
    push_bytes32(&mut v, player);
    let mut seed_bytes = u64_to_le_bytes(seed);
    v.append(&mut seed_bytes);
    v.push(roll);
    let mut amount_bytes = u64_to_le_bytes(amount);
    v.append(&mut amount_bytes);
    push_bytes32(&mut v, address);
    proof {
        assert(v@ =~= message_bytes(player@, seed, roll, amount, address@));
    }
    v
}

/// Builds the preimage of a bet's derived address.
pub fn encode_address_preimage(player: &[u8; 32], seed: u64) -> (r: Vec<u8>)
    ensures
        r@ == address_preimage(player@, seed),
{
    let mut v: Vec<u8> = Vec::new();
    push_bytes32(&mut v, player);
    let mut seed_bytes = u64_to_le_bytes(seed);
    v.append(&mut seed_bytes);
    proof {
        assert(v@ =~= address_preimage(player@, seed));
    }
    v
}

/// Compares two 32-byte keys.
pub fn bytes32_eq(a: &[u8; 32], b: &[u8; 32]) -> (r: bool)
    ensures
        r <==> a@ == b@,
{
    let mut i: usize = 0;
    while i < 32
        invariant
            i <= 32,
            forall|j: int| 0 <= j < i ==> a@[j] == b@[j],
        decreases 32 - i,
    {
        if a[i] != b[i] {
            return false;
        }
        i = i + 1;
    }
    proof {
        assert(a@ =~= b@);
    }
    true
}

/// Derives the outcome in [0, 100) from a signature's bytes.
pub fn derive_outcome(sig: &[u8]) -> (r: u8)
    requires
        sig@.len() >= 16,
    ensures
        r == outcome_of(sig@),
        r < 100,
{
    let head = slice_subrange(sig, 0, 16);
    let x = u128_from_le_bytes(head);
    (x % 100) as u8
}

} // verus!
