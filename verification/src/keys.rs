//! Key pairs and the signature scheme: a signature wraps a discrete-log
//! proof whose nonce is the digest of the signed content, so the proof's
//! challenge derivation — and with it the whole proof — is bound to the
//! exact message rather than merely accompanying it.

use crate::challenge::blake3_digest;
use crate::challenge::hash32;
use crate::dlog::DiscreteLogPf;
use crate::modarith::MODULUS_LIMIT;
use vstd::prelude::*;

verus! {

/// Public identity for an individual. Safe to reveal.
pub struct PublicKey {
    /// Generator, a residue mod p.
    pub a: u128,
    /// Public value a^x mod p, a residue mod p.
    pub b: u128,
    /// Prime modulus.
    pub p: u128,
}

impl PublicKey {
    /// The key's parameters lie within the fixed-width arithmetic's range.
    pub open spec fn wf(self) -> bool {
        &&& 2 < self.p <= MODULUS_LIMIT
        &&& self.a < self.p
        &&& self.b < self.p
    }
}

/// Secret identity for an individual. Not safe to reveal: it exclusively
/// owns the witness x, which no proof or signature field exposes.
pub struct PrivateKey {
    /// The shareable half.
    pub pubkey: PublicKey,
    /// The secret exponent with a^x ≡ b (mod p).
    pub x: u128,
}

impl PrivateKey {
    /// The public half is well formed and the witness is in range.
    pub open spec fn wf(self) -> bool {
        &&& self.pubkey.wf()
        &&& self.x < self.pubkey.p
    }

    /// Sign content at the given security level: the nonce is the content's
    /// digest, folded into the transcript of a fresh proof of knowledge of
    /// x. When the key's parameters are bound to the witness, the signature
    /// this returns verifies against the same content.
    pub fn sign(&self, content: &[u8], security_level: usize) -> (r: Signature)
        requires
            self.wf(),
            1 <= security_level,
        ensures
            r.pf.p == self.pubkey.p,
            r.pf.a == self.pubkey.a,
            r.pf.b == self.pubkey.b,
            r.pf.nonce@ == blake3_digest(content@),
            r.pf.hs@.len() == security_level,
            r.pf.ss@.len() == security_level,
            r.pf.wf(),
            DiscreteLogPf::witness_bound(self.pubkey.a, self.pubkey.b, self.pubkey.p, self.x)
                ==> r.accepted_for(content@),
    {
        let nonce = hash32(content);
        Signature {
            pf: DiscreteLogPf::prove(
                self.pubkey.a,
                self.pubkey.b,
                self.pubkey.p,
                self.x,
                nonce,
                security_level,
            ),
        }
    }
}

/// A signature: a proof of knowledge of the discrete log, bound to the
/// signed content through its nonce.
pub struct Signature {
    /// The wrapped proof; its nonce is the signed content's digest.
    pub pf: DiscreteLogPf,
}

impl Signature {
    /// The signature's acceptance predicate for some content: the stored
    /// nonce is that content's digest, and the wrapped proof is accepted.
    pub open spec fn accepted_for(self, content: Seq<u8>) -> bool {
        &&& self.pf.nonce@ == blake3_digest(content)
        &&& self.pf.accepted()
    }

    /// Verify the signature against the content: the content's digest must
    /// equal the stored nonce — altered content changes the digest — and
    /// the wrapped proof must verify.
    pub fn verify(&self, content: &[u8]) -> (r: bool)
        requires
            self.pf.wf(),
        ensures
            r == self.accepted_for(content@),
    {
        let digest = hash32(content);
        let same = eq32(&digest, &self.pf.nonce);
        same && self.pf.verify()
    }

    /// The wrapped proof's soundness exponent: the probability of a prover,
    /// in one go, constructing a verifying but false proof is about 2^-n.
    pub fn security(&self) -> (r: usize)
        ensures
            r == self.pf.hs@.len(),
    {
        self.pf.hs.len()
    }
}

/// Byte-for-byte equality of two 32-byte buffers.
fn eq32(u: &[u8; 32], v: &[u8; 32]) -> (r: bool)
    ensures
        r == (u@ == v@),
{
    let mut i: usize = 0;
    while i < 32
        invariant
            i <= 32,
            forall|j: int| 0 <= j < i ==> u@[j] == v@[j],
        decreases 32 - i,
    {
        if u[i] != v[i] {
            return false;
        }
        i = i + 1;
    }
    proof {
        assert(u@ =~= v@);
    }
    true
}

} // verus!
