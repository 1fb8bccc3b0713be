use dlog_sig::{DiscreteLogPf, PrivateKey, PublicKey};
use mod_exp::mod_exp;

// The prime modulus the concrete scenario uses.
const P: u128 = 569873509;

#[test]
fn test_signature_scheme() {
    let p = 569873509u128;
    let a = rand::random::<u128>() % p;
    let x: u128 = rand::random::<u128>() % p;
    let b = mod_exp(a, x, p);
    let pubkey = PublicKey { p, a, b };
    let private_key = PrivateKey { pubkey, x };
    let signature = private_key.sign(b"uhh hello?", 32);
    assert!(signature.verify(b"uhh hello?"))
}

#[test]
fn completeness_concrete_scenario() {
    let a = rand::random::<u128>() % P;
    let x = rand::random::<u128>() % P;
    let b = mod_exp(a, x, P);
    let pf = DiscreteLogPf::prove(a, b, P, x, [0u8; 32], 32);
    assert!(pf.verify());
}

#[test]
fn completeness_small_parameters() {
    // 2 generates Z_5* (order 4) and 3 generates Z_7* (order 6).
    let pf = DiscreteLogPf::prove(2, 3, 5, 3, [7u8; 32], 1);
    assert!(pf.verify());
    let pf = DiscreteLogPf::prove(3, 6, 7, 3, [7u8; 32], 16);
    assert!(pf.verify());
}

#[test]
fn completeness_many_witnesses() {
    for x in 1u128..40 {
        let a = 2 + rand::random::<u128>() % (P - 2);
        let b = mod_exp(a, x, P);
        let pf = DiscreteLogPf::prove(a, b, P, x, [0u8; 32], 8);
        assert!(pf.verify());
    }
}

#[test]
fn soundness_forged_proofs_fail() {
    // Proofs whose hs/ss were not derived from any witness pass with
    // probability about 2^-32 each; none of these should.
    let a = 5u128;
    let x = 12345u128;
    let b = mod_exp(a, x, P);
    for _ in 0..50 {
        let m = 32;
        let hs: Vec<u128> = (0..m).map(|_| rand::random::<u128>() % P).collect();
        let ss: Vec<u128> = (0..m).map(|_| rand::random::<u128>() % (P - 1)).collect();
        let forged = DiscreteLogPf { p: P, a, b, nonce: [0u8; 32], hs, ss };
        assert!(!forged.verify());
    }
}

#[test]
fn tamper_any_element_rejected() {
    let a = 7u128;
    let x = 99991u128;
    let b = mod_exp(a, x, P);
    let pf = DiscreteLogPf::prove(a, b, P, x, [3u8; 32], 8);
    assert!(pf.verify());
    for i in 0..8 {
        let mut t = DiscreteLogPf {
            p: pf.p,
            a: pf.a,
            b: pf.b,
            nonce: pf.nonce,
            hs: pf.hs.clone(),
            ss: pf.ss.clone(),
        };
        t.hs[i] = (t.hs[i] + 1) % P;
        assert!(!t.verify());
    }
    for i in 0..8 {
        let mut t = DiscreteLogPf {
            p: pf.p,
            a: pf.a,
            b: pf.b,
            nonce: pf.nonce,
            hs: pf.hs.clone(),
            ss: pf.ss.clone(),
        };
        t.ss[i] = (t.ss[i] + 1) % (P - 1);
        assert!(!t.verify());
    }
}

#[test]
fn tampered_nonce_rejected() {
    // The nonce is part of the transcript, so altering it re-derives
    // different challenge bits than the responses were built for.
    let a = 11u128;
    let x = 31337u128;
    let b = mod_exp(a, x, P);
    let mut pf = DiscreteLogPf::prove(a, b, P, x, [9u8; 32], 32);
    assert!(pf.verify());
    pf.nonce[0] ^= 1;
    assert!(!pf.verify());
}

#[test]
fn length_mismatch_is_malformed() {
    let a = 13u128;
    let x = 2024u128;
    let b = mod_exp(a, x, P);
    let mut pf = DiscreteLogPf::prove(a, b, P, x, [0u8; 32], 4);
    assert!(pf.verify());
    pf.ss.pop();
    assert!(!pf.verify());
}

#[test]
fn security_reports_repetitions() {
    let a = 17u128;
    let x = 5u128;
    let b = mod_exp(a, x, P);
    let pf = DiscreteLogPf::prove(a, b, P, x, [0u8; 32], 7);
    assert_eq!(pf.security(), 7);
    assert_eq!(pf.hs.len(), 7);
    assert_eq!(pf.ss.len(), 7);
    let key = PrivateKey { pubkey: PublicKey { a, b, p: P }, x };
    let sig = key.sign(b"some content", 9);
    assert_eq!(sig.security(), 9);
    assert_eq!(sig.pf.hs.len(), 9);
    assert_eq!(sig.pf.ss.len(), 9);
}

#[test]
fn signature_binding_to_content() {
    let a = rand::random::<u128>() % P;
    let x = rand::random::<u128>() % P;
    let b = mod_exp(a, x, P);
    let key = PrivateKey { pubkey: PublicKey { a, b, p: P }, x };
    let sig = key.sign(b"uhh hello?", 32);
    assert!(sig.verify(b"uhh hello?"));
    // Altered content fails the digest gate even though the wrapped
    // proof still stands on its own.
    assert!(!sig.verify(b"different content"));
    assert!(sig.pf.verify());
}

#[test]
fn freshness_of_repeated_proofs() {
    let a = 23u128;
    let x = 424242u128;
    let b = mod_exp(a, x, P);
    let pf1 = DiscreteLogPf::prove(a, b, P, x, [0u8; 32], 8);
    let pf2 = DiscreteLogPf::prove(a, b, P, x, [0u8; 32], 8);
    assert!(pf1.verify());
    assert!(pf2.verify());
    // Fresh blinding entropy: a collision of all eight commitments has
    // probability about (1/P)^8.
    assert_ne!(pf1.hs, pf2.hs);
}
