//! Fixed-width modular exponentiation and the exponent arithmetic behind
//! the proof system's verification equation.

use vstd::arithmetic::div_mod::{
    lemma_mod_sub_multiples_vanish, lemma_mod_twice, lemma_mul_mod_noop_general, lemma_small_mod,
};
use vstd::arithmetic::power::{lemma0_pow, lemma_pow_adds, lemma_pow_positive, pow};
use vstd::prelude::*;

verus! {

/// Largest modulus the fixed-width arithmetic accepts: any two residues of
/// a modulus up to this bound multiply without leaving `u128`.
pub const MODULUS_LIMIT: u128 = 0x1_0000_0000_0000_0000;

/// `a^e mod p` over the mathematical integers.
pub open spec fn pow_mod(a: int, e: nat, p: int) -> int {
    pow(a, e) % p
}

/// Relies on `mod_exp::mod_exp`: right-to-left binary exponentiation,
/// returning `base^exponent mod modulus`. Its own overflow guard admits
/// every `u128` modulus up to `MODULUS_LIMIT` and panics above it, so the
/// bound stands here as a precondition.
#[verifier::external_body]
pub(crate) fn mod_exp_u128(base: u128, exponent: u128, modulus: u128) -> (r: u128)
    requires
        2 <= modulus <= MODULUS_LIMIT,
    ensures
        r as int == pow_mod(base as int, exponent as nat, modulus as int),
        r < modulus,
{
    mod_exp::mod_exp(base, exponent, modulus)
}

/// An element whose order divides `p - 1` has cyclic powers: its exponents
/// may be reduced mod `p - 1` without changing the residue mod `p`.
pub proof fn lemma_pow_mod_cycle(a: int, e: nat, p: int)
    requires
        2 < p,
        0 <= a,
        pow(a, (p - 1) as nat) % p == 1,
    ensures
        pow(a, e) % p == pow(a, e % ((p - 1) as nat)) % p,
    decreases e,
{
    let n = (p - 1) as nat;
    if a == 0 {
        lemma0_pow(n);
        lemma_small_mod(0, p as nat);
        assert(false);
    }
    if e < n {
        lemma_small_mod(e, n);
    } else {
        let e2 = (e - n) as nat;
        lemma_pow_adds(a, n, e2);
        lemma_mul_mod_noop_general(pow(a, n), pow(a, e2), p);
        assert(pow(a, e) % p == (1 * (pow(a, e2) % p)) % p);
        lemma_pow_positive(a, e2);
        lemma_mod_twice(pow(a, e2), p);
        lemma_mod_sub_multiples_vanish(e as int, n as int);
        assert(e2 % n == e % n);
        lemma_pow_mod_cycle(a, e2, p);
    }
}

/// The completeness argument for one repetition: with commitment
/// `h = a^r mod p`, public value `b = a^x mod p`, challenge bit `c` and
/// response `s = (r + c*x) mod (p-1)`, the verification equation
/// `a^s ≡ h * b^c (mod p)` holds whenever a's order divides `p - 1`.
pub proof fn lemma_response_checks(a: int, x: nat, r: nat, c: bool, p: int)
    requires
        2 < p,
        0 <= a,
        pow(a, (p - 1) as nat) % p == 1,
    ensures
        pow(a, (r + (if c {
            x
        } else {
            0 as nat
        })) % ((p - 1) as nat)) % p == ((pow(a, r) % p) * (if c {
            pow(a, x) % p
        } else {
            1
        })) % p,
{
    let n = (p - 1) as nat;
    let e = r + (if c {
        x
    } else {
        0 as nat
    });
    lemma_pow_mod_cycle(a, e, p);
    if c {
        lemma_pow_adds(a, r, x);
        lemma_mul_mod_noop_general(pow(a, r), pow(a, x), p);
    } else {
        lemma_mod_twice(pow(a, r), p);
        assert(((pow(a, r) % p) * 1) % p == pow(a, r) % p);
    }
}

} // verus!
