//! Fiat-Shamir challenge derivation: the public transcript is canonically
//! encoded, hashed into a 32-byte seed, and the seed pins a deterministic
//! CSPRNG from which the challenge booleans are drawn in commitment order.
//! Identical transcripts always yield identical challenge bits, so a
//! verifier recomputes the challenges rather than trusting any.

use rand::Rng;
use rand::SeedableRng;
use vstd::prelude::*;

verus! {

/// The bytes bincode's fixed-integer encoding yields for the transcript
/// tuple `(a, b, p, hs, nonce)`.
pub uninterp spec fn transcript_bytes(a: u128, b: u128, p: u128, hs: Seq<u128>, nonce: Seq<u8>) -> Seq<u8>;

/// The 32-byte digest blake3 yields for the given input bytes.
pub uninterp spec fn blake3_digest(data: Seq<u8>) -> Seq<u8>;

/// The i-th boolean that rand's `Standard` distribution draws from a
/// ChaCha20 stream freshly seeded with `seed`.
pub uninterp spec fn chacha_bit(seed: Seq<u8>, i: nat) -> bool;

/// The seed a challenge stream was created from.
pub uninterp spec fn stream_seed(rng: rand_chacha::ChaCha20Rng) -> Seq<u8>;

/// How many booleans have been drawn from a challenge stream so far.
pub uninterp spec fn stream_pos(rng: rand_chacha::ChaCha20Rng) -> nat;

#[verifier::external_type_specification]
#[verifier::external_body]
pub struct ExChaCha20Rng(rand_chacha::ChaCha20Rng);

/// Relies on `bincode::serialize` (default fixed-integer options): a
/// deterministic encoding of the transcript tuple. Encoding plain integers,
/// a vector of integers and a byte array cannot fail, so the `expect` is
/// unreachable.
#[verifier::external_body]
pub(crate) fn encode_transcript(
    a: u128,
    b: u128,
    p: u128,
    hs: &Vec<u128>,
    nonce: &[u8; 32],
) -> (r: Vec<u8>)
    ensures
        r@ == transcript_bytes(a, b, p, hs@, nonce@),
{
    bincode::serialize(&(&a, &b, &p, hs, nonce)).expect("encoding integers cannot fail")
}

/// Relies on `blake3::hash`: a deterministic 32-byte digest of the input,
/// a function of the input bytes alone.
#[verifier::external_body]
pub(crate) fn hash32(data: &[u8]) -> (r: [u8; 32])
    ensures
        r@ == blake3_digest(data@),
{
    *blake3::hash(data).as_bytes()
}

/// Relies on `ChaCha20Rng::from_seed`: a deterministic stream wholly pinned
/// by the 32-byte seed, positioned at its start.
#[verifier::external_body]
pub(crate) fn challenge_stream(seed: &[u8; 32]) -> (r: rand_chacha::ChaCha20Rng)
    ensures
        stream_seed(r) == seed@,
        stream_pos(r) == 0,
{
    rand_chacha::ChaCha20Rng::from_seed(*seed)
}

/// Relies on `Rng::sample` with the `Standard` distribution on `bool`: the
/// sign bit of the next 32-bit word of the deterministic ChaCha20 stream,
/// so a function of the seed and of how many draws came before.
#[verifier::external_body]
pub(crate) fn next_challenge_bit(rng: &mut rand_chacha::ChaCha20Rng) -> (b: bool)
    ensures
        stream_seed(*final(rng)) == stream_seed(*old(rng)),
        stream_pos(*final(rng)) == stream_pos(*old(rng)) + 1,
        b == chacha_bit(stream_seed(*old(rng)), stream_pos(*old(rng))),
{
    rng.sample(rand::distributions::Standard)
}

/// The challenge bit the Fiat-Shamir derivation yields for repetition `i`
/// of the transcript `(a, b, p, hs, nonce)`.
pub open spec fn challenge_bit_of(
    a: u128,
    b: u128,
    p: u128,
    hs: Seq<u128>,
    nonce: Seq<u8>,
    i: nat,
) -> bool {
    chacha_bit(blake3_digest(transcript_bytes(a, b, p, hs, nonce)), i)
}

/// Derive `m` challenge booleans from the public transcript: encode it,
/// hash the encoding into a seed, and draw the booleans in order from a
/// CSPRNG seeded with exactly that digest. Pure in the transcript: the
/// same transcript and count always yield the same bits.
pub fn derive_challenges(
    a: u128,
    b: u128,
    p: u128,
    hs: &Vec<u128>,
    nonce: &[u8; 32],
    m: usize,
) -> (r: Vec<bool>)
    ensures
        r@.len() == m,
        forall|i: int|
            0 <= i < m ==> r@[i] == challenge_bit_of(a, b, p, hs@, nonce@, i as nat),
{
    let ctx = encode_transcript(a, b, p, hs, nonce);
    let seed = hash32(ctx.as_slice());
    let mut rng = challenge_stream(&seed);
    let mut bits: Vec<bool> = Vec::new();
    let mut i: usize = 0;
    while i < m
        invariant
            i <= m,
            bits@.len() == i,
            stream_seed(rng) == blake3_digest(transcript_bytes(a, b, p, hs@, nonce@)),
            stream_pos(rng) == i,
            forall|j: int|
                0 <= j < i ==> bits@[j] == challenge_bit_of(a, b, p, hs@, nonce@, j as nat),
        decreases m - i,
    {
        let bit = next_challenge_bit(&mut rng);
        bits.push(bit);
        i = i + 1;
    }
    bits
}

} // verus!
