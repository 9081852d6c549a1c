//! Protocol round trips over the published 1024-bit group.

use anonvote::bignum::generate_random_below;
use anonvote::params::GroupParams;
use anonvote::zkp::{generate_challenge, PublicKey, SecretKey};
use num_bigint::BigUint;

#[test]
fn test_random() {
    let g = GroupParams::standard().expect("standard parameters must be accepted");
    for _ in 0..10 {
        let secret = generate_random_below(g.p());
        let secret_key = SecretKey::new(secret);
        let public_key = secret_key.generate_public_key(&g);

        let (k, ka, kb) = public_key.generate_challenge_request(&g);

        let challenge = generate_challenge(&g);

        let solution = secret_key.solve(&g, &k, &challenge);

        let result = public_key.verify(&g, &ka, &kb, &challenge, &solution);
        assert!(result);
    }
}

#[test]
fn lib_test_random() {
    // the same flow with every value carried as raw bytes between steps,
    // as a foreign runtime would drive it
    let g = GroupParams::standard().expect("standard parameters must be accepted");
    for _ in 0..10 {
        let secret_bytes = SecretKey::generate(&g).secret().clone();
        let secret_key = SecretKey::from_bytes_be(&secret_bytes);
        let public = secret_key.generate_public_key(&g);
        let public_bytes =
            (public.a().clone(), public.b().clone(), public.alpha().clone(), public.beta().clone());
        let public_key = PublicKey::from_bytes_be(
            &public_bytes.0,
            &public_bytes.1,
            &public_bytes.2,
            &public_bytes.3,
        );
        let (k, ka, kb) = public_key.generate_challenge_request(&g);
        let challenge = generate_challenge(&g);
        let solution = SecretKey::from_bytes_be(&secret_bytes).solve(&g, &k, &challenge);
        let result = public_key.verify(&g, &ka, &kb, &challenge, &solution);
        assert!(result);
    }
}

#[test]
fn test_wrong_solution_rejected() {
    let g = GroupParams::standard().expect("standard parameters must be accepted");
    let secret_key = SecretKey::new(BigUint::from(987654321u32).to_bytes_be());
    let public_key = secret_key.generate_public_key(&g);
    let (k, ka, kb) = public_key.generate_challenge_request(&g);
    let challenge = generate_challenge(&g);
    let solution = secret_key.solve(&g, &k, &challenge);
    let forged = (BigUint::from_bytes_be(&solution) + 1u32).to_bytes_be();
    assert!(!public_key.verify(&g, &ka, &kb, &challenge, &forged));
}

#[test]
fn test_solve_known_values() {
    // under the tiny profile (Q = 11): with x = 7, k = 5, c = 9 the
    // response is 11 - ((9*7 - 5) mod 11) = 11 - 3 = 8
    let g = GroupParams::small();
    let sk = SecretKey::new(vec![7u8]);
    let s = sk.solve(&g, &vec![5u8], &vec![9u8]);
    assert_eq!(s, vec![8u8]);
    // with k >= c*x the response is the plain difference mod Q:
    // x = 1, k = 9, c = 4 gives (9 - 4) mod 11 = 5
    let sk = SecretKey::new(vec![1u8]);
    let s = sk.solve(&g, &vec![9u8], &vec![4u8]);
    assert_eq!(s, vec![5u8]);
    // a multiple of Q folds to zero, carried as the empty string:
    // x = 4, k = 1, c = 3 gives (1 - 12) mod 11 = 0
    let sk = SecretKey::new(vec![4u8]);
    let s = sk.solve(&g, &vec![1u8], &vec![3u8]);
    assert_eq!(s, Vec::<u8>::new());
}

#[test]
fn test_small_group_completeness_all_challenges() {
    // x = 7, r = 3, k = 5 under (P, Q, alpha) = (23, 11, 4): the honest
    // response verifies for every possible challenge
    let g = GroupParams::small();
    let pk = PublicKey::from_bytes_be(&vec![8u8], &vec![6u8], &vec![4u8], &vec![18u8]);
    let sk = SecretKey::new(vec![7u8]);
    let ka = vec![12u8]; // 4^5 mod 23
    let kb = vec![3u8]; // 18^5 mod 23
    for c in 0u8..11 {
        let challenge = if c == 0 { Vec::new() } else { vec![c] };
        let solution = sk.solve(&g, &vec![5u8], &challenge);
        assert!(pk.verify(&g, &ka, &kb, &challenge, &solution), "challenge {} failed", c);
    }
}

#[test]
fn test_small_group_soundness_all_forgeries() {
    // for the same commitment and a fixed challenge, every response other
    // than the honest one is rejected
    let g = GroupParams::small();
    let pk = PublicKey::from_bytes_be(&vec![8u8], &vec![6u8], &vec![4u8], &vec![18u8]);
    let sk = SecretKey::new(vec![7u8]);
    let ka = vec![12u8];
    let kb = vec![3u8];
    let challenge = vec![9u8];
    let honest = sk.solve(&g, &vec![5u8], &challenge);
    for s in 0u8..11 {
        let cand = if s == 0 { Vec::new() } else { vec![s] };
        let accepted = pk.verify(&g, &ka, &kb, &challenge, &cand);
        assert_eq!(accepted, cand == honest, "response {} misjudged", s);
    }
}

#[test]
fn test_public_key_round_trip() {
    let g = GroupParams::standard().expect("standard parameters must be accepted");
    let sk = SecretKey::new(BigUint::from(123456789u32).to_bytes_be());
    let pk = sk.generate_public_key(&g);
    let rebuilt = PublicKey::from_bytes_be(pk.a(), pk.b(), pk.alpha(), pk.beta());
    assert_eq!(rebuilt.a(), pk.a());
    assert_eq!(rebuilt.b(), pk.b());
    assert_eq!(rebuilt.alpha(), pk.alpha());
    assert_eq!(rebuilt.beta(), pk.beta());
    // leading zero bytes are stripped on the way in, so padded encodings
    // name the same key
    let mut padded = vec![0u8, 0u8];
    padded.extend_from_slice(pk.a());
    let repadded = PublicKey::from_bytes_be(&padded, pk.b(), pk.alpha(), pk.beta());
    assert_eq!(repadded.a(), pk.a());
}

#[test]
fn test_generated_key_values() {
    // the derived commitment is a pure modular power of the generator:
    // 4^7 mod 23 == 8 whatever blinding exponent was drawn
    let g = GroupParams::small();
    let sk = SecretKey::new(vec![7u8]);
    let pk = sk.generate_public_key(&g);
    assert_eq!(pk.a(), &vec![8u8]);
    assert_eq!(pk.alpha(), &vec![4u8]);
    let beta = BigUint::from_bytes_be(pk.beta());
    assert!(beta < BigUint::from(23u32));
    let b = BigUint::from_bytes_be(pk.b());
    assert_eq!(b, beta.modpow(&BigUint::from(7u32), &BigUint::from(23u32)));
}
