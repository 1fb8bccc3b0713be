//! The Sigma-protocol engine: commit, derive challenges, respond, verify,
//! repeated `m` times for soundness amplification.

use crate::challenge::challenge_bit_of;
use crate::challenge::derive_challenges;
use crate::modarith::{
    lemma_response_checks, mod_exp_u128, pow_mod, MODULUS_LIMIT,
};
use rand::Rng;
use vstd::arithmetic::div_mod::lemma_small_mod;
use vstd::arithmetic::mul::lemma_mul_upper_bound;
use vstd::arithmetic::power::{lemma_pow0, lemma_pow1, pow};
use vstd::prelude::*;

verus! {

/// Relies on rand's `OsRng` and `Rng::gen_range`: a value drawn fresh from
/// the operating system's entropy, below the given bound. Nothing beyond
/// the bound holds of any draw, and no draw is linked to another.
#[verifier::external_body]
fn fresh_below(bound: u128) -> (r: u128)
    requires
        1 <= bound,
    ensures
        r < bound,
{
    rand::rngs::OsRng.gen_range(0..bound)
}

/// A zero-knowledge proof that there exists x such that b = a^x (mod p).
///
/// An immutable value: `prove` creates it atomically and `verify` only
/// reads it.
pub struct DiscreteLogPf {
    /// Prime modulus.
    pub p: u128,
    /// Generator, a residue mod p.
    pub a: u128,
    /// Public value a^x mod p, a residue mod p.
    pub b: u128,
    /// Arbitrary 32-byte nonce folded into the transcript.
    pub nonce: [u8; 32],
    /// The m commitments a^{r_i} mod p, fixed before any challenge.
    pub hs: Vec<u128>,
    /// The m responses (r_i + c_i * x) mod (p - 1).
    pub ss: Vec<u128>,
}

impl DiscreteLogPf {
    /// The parameters lie within the fixed-width arithmetic's range and
    /// every commitment is a residue mod p. Left to the caller to uphold,
    /// as parameter validation is outside the core's contract.
    pub open spec fn wf(self) -> bool {
        &&& 2 < self.p <= MODULUS_LIMIT
        &&& self.a < self.p
        &&& self.b < self.p
        &&& forall|i: int| 0 <= i < self.hs@.len() ==> self.hs@[i] < self.p
    }

    /// The challenge bit the stored transcript yields for repetition `i`.
    pub open spec fn challenge(self, i: nat) -> bool {
        challenge_bit_of(self.a, self.b, self.p, self.hs@, self.nonce@, i)
    }

    /// Repetition i's verification equation:
    /// `a^{s_i} ≡ h_i * b^{c_i} (mod p)`.
    pub open spec fn check_at(self, i: int) -> bool {
        pow_mod(self.a as int, self.ss@[i] as nat, self.p as int) == (self.hs@[i] * (if self
            .challenge(i as nat) {
            self.b as int
        } else {
            1
        })) % (self.p as int)
    }

    /// The verifier's acceptance predicate: as many responses as
    /// commitments, and every repetition's equation holds against the
    /// challenge bits the stored transcript re-derives.
    pub open spec fn accepted(self) -> bool {
        &&& self.hs@.len() == self.ss@.len()
        &&& forall|i: int| 0 <= i < self.hs@.len() ==> self.check_at(i)
    }

    /// The transcript parameters are bound to the witness x: b is a^x mod p,
    /// and a's multiplicative order divides p - 1. The latter holds of every
    /// element of Z_p* when p is prime — Fermat's little theorem — and in
    /// particular of a generator; the core assumes rather than validates it.
    pub open spec fn witness_bound(a: u128, b: u128, p: u128, x: u128) -> bool {
        &&& pow(a as int, (p - 1) as nat) % (p as int) == 1
        &&& b as int == pow_mod(a as int, x as nat, p as int)
    }

    /// Prove knowledge of x with a^x ≡ b (mod p), amplified over m
    /// independent repetitions so that a prover without the witness passes
    /// verification with probability about 2^-m.
    ///
    /// Each repetition draws its blinding exponent from fresh entropy,
    /// commits to a^{r_i} mod p, and only then derives the challenge bits
    /// from the full committed transcript; the responses reveal x only
    /// masked by the blinding. Completeness stands in the last clause:
    /// whenever the parameters are bound to the witness, the proof this
    /// returns is accepted.
    pub fn prove(a: u128, b: u128, p: u128, x: u128, nonce: [u8; 32], m: usize) -> (r: Self)
        requires
            2 < p <= MODULUS_LIMIT,
            a < p,
            b < p,
            x < p,
            1 <= m,
        ensures
            r.p == p,
            r.a == a,
            r.b == b,
            r.nonce@ == nonce@,
            r.hs@.len() == m,
            r.ss@.len() == m,
            r.wf(),
            forall|i: int| 0 <= i < m ==> r.ss@[i] < p - 1,
            Self::witness_bound(a, b, p, x) ==> r.accepted(),
    {
        let mut rs: Vec<u128> = Vec::new();
        let mut hs: Vec<u128> = Vec::new();
        let mut i: usize = 0;
        while i < m
            invariant
                i <= m,
                2 < p <= MODULUS_LIMIT,
                a < p,
                rs@.len() == i,
                hs@.len() == i,
                forall|j: int| 0 <= j < i ==> rs@[j] < p - 1,
                forall|j: int|
                    0 <= j < i ==> hs@[j] as int == pow_mod(a as int, rs@[j] as nat, p as int),
                forall|j: int| 0 <= j < i ==> hs@[j] < p,
            decreases m - i,
        {
            let ri = fresh_below(p - 1);
            let hi = mod_exp_u128(a, ri, p);
            rs.push(ri);
            hs.push(hi);
            i = i + 1;
        }
        let bools = derive_challenges(a, b, p, &hs, &nonce, m);
        let mut ss: Vec<u128> = Vec::new();
        let mut i: usize = 0;
        while i < m
            invariant
                i <= m,
                2 < p <= MODULUS_LIMIT,
                x < p,
                m == rs@.len(),
                m == bools@.len(),
                ss@.len() == i,
                forall|j: int| 0 <= j < m ==> rs@[j] < p - 1,
                forall|j: int| 0 <= j < i ==> ss@[j] < p - 1,
                forall|j: int|
                    0 <= j < i ==> ss@[j] as int == (rs@[j] + (if bools@[j] {
                        x as int
                    } else {
                        0
                    })) % (p - 1),
            decreases m - i,
        {
            let add: u128 = if bools[i] {
                x
            } else {
                0
            };
            let si = (rs[i] + add) % (p - 1);
            ss.push(si);
            i = i + 1;
        }
        let r = DiscreteLogPf { p, a, b, nonce, hs, ss };
        proof {
            if Self::witness_bound(a, b, p, x) {
                assert forall|i: int| 0 <= i < m implies r.check_at(i) by {
                    let c = r.challenge(i as nat);
                    assert(bools@[i] == c);
                    lemma_response_checks(a as int, x as nat, rs@[i] as nat, c, p as int);
                    if c {
                        assert(r.ss@[i] as nat == (rs@[i] as nat + x as nat) % ((p - 1) as nat));
                    } else {
                        assert(r.ss@[i] as nat == (rs@[i] as nat + 0 as nat) % ((p - 1) as nat));
                    }
                }
            }
        }
        r
    }

    /// Check the proof against its stored transcript. A proof with as many
    /// responses as commitments is accepted iff every repetition's equation
    /// holds against freshly re-derived challenge bits — never against bits
    /// a prover could transmit; one with mismatched lengths is malformed
    /// and rejected outright, indistinguishable from a wrong witness.
    pub fn verify(&self) -> (r: bool)
        requires
            self.wf(),
        ensures
            r == self.accepted(),
    {
        if self.hs.len() != self.ss.len() {
            return false;
        }
        let m = self.hs.len();
        let bools = derive_challenges(self.a, self.b, self.p, &self.hs, &self.nonce, m);
        let mut i: usize = 0;
        while i < m
            invariant
                i <= m,
                self.wf(),
                m == self.hs@.len(),
                m == self.ss@.len(),
                m == bools@.len(),
                forall|j: int|
                    0 <= j < m ==> bools@[j] == challenge_bit_of(
                        self.a,
                        self.b,
                        self.p,
                        self.hs@,
                        self.nonce@,
                        j as nat,
                    ),
                forall|j: int| 0 <= j < i ==> self.check_at(j),
            decreases m - i,
        {
            let lhs = mod_exp_u128(self.a, self.ss[i], self.p);
            let e: u128 = if bools[i] {
                1
            } else {
                0
            };
            let t = mod_exp_u128(self.b, e, self.p);
            proof {
                if bools@[i as int] {
                    lemma_pow1(self.b as int);
                    lemma_small_mod(self.b as nat, self.p as nat);
                } else {
                    lemma_pow0(self.b as int);
                    lemma_small_mod(1, self.p as nat);
                }
                lemma_mul_upper_bound(
                    self.hs@[i as int] as int,
                    (MODULUS_LIMIT - 1) as int,
                    t as int,
                    (MODULUS_LIMIT - 1) as int,
                );
            }
            let rhs = (self.hs[i] * t) % self.p;
            if lhs != rhs {
                assert(!self.check_at(i as int));
                return false;
            }
            i = i + 1;
        }
        true
    }

    /// The realized soundness exponent m: how many independent repetitions
    /// the proof carries, so that cheating in one go succeeds with
    /// probability about 2^-m.
    pub fn security(&self) -> (r: usize)
        ensures
            r == self.hs@.len(),
    {
        self.hs.len()
    }
}

} // verus!
