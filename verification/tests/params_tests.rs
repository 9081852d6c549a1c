//! The group parameters: byte identity of the published constants and the
//! run-time subgroup checks.

use anonvote::params::{standard_alpha, standard_p, standard_q, GroupParams};

fn decode_hex(s: &str) -> Vec<u8> {
    let digits: Vec<u32> = s.chars().map(|c| c.to_digit(16).expect("hex digit")).collect();
    assert!(digits.len() % 2 == 0);
    digits.chunks(2).map(|p| (p[0] * 16 + p[1]) as u8).collect()
}

#[test]
fn test_standard_constants_byte_identity() {
    let p = decode_hex(
        "B10B8F96A080E01DDE92DE5EAE5D54EC52C99FBCFB06A3C69A6A9DCA52D23B61\
         6073E28675A23D189838EF1E2EE652C013ECB4AEA906112324975C3CD49B83BF\
         ACCBDD7D90C4BD7098488E9C219A73724EFFD6FAE5644738FAA31A4FF55BCCC0\
         A151AF5F0DC8B4BD45BF37DF365C1A65E68CFDA76D4DA708DF1FB2BC2E4A4371",
    );
    let q = decode_hex("F518AA8781A8DF278ABA4E7D64B7CB9D49462353");
    let alpha = decode_hex(
        "A4D1CBD5C3FD34126765A442EFB99905F8104DD258AC507FD6406CFF14266D31\
         266FEA1E5C41564B777E690F5504F213160217B4B01B886A5E91547F9E2749F4\
         D7FBD7D3B9A92EE1909D0D2263F80A76A6A24C087A091F531DBF0A0169B6A28A\
         D662A4D18E73AFA32D779D5918D08BC8858F4DCEF97C2A24855E6EEB22B3B2E5",
    );
    assert_eq!(standard_p(), p);
    assert_eq!(standard_q(), q);
    assert_eq!(standard_alpha(), alpha);
}

#[test]
fn test_standard_parameters_accepted() {
    // acceptance runs the subgroup checks (alpha^Q mod P == 1, Q | P - 1)
    // over the real multi-precision arithmetic
    let g = GroupParams::standard().expect("the published constants form a valid group");
    assert_eq!(g.p(), &standard_p());
    assert_eq!(g.q(), &standard_q());
    assert_eq!(g.alpha(), &standard_alpha());
}

#[test]
fn test_invalid_parameters_rejected() {
    // alpha = 5 has order 22, not dividing 11: 5^11 mod 23 == 22
    assert!(GroupParams::new(vec![23], vec![11], vec![5]).is_none());
    // alpha below 2
    assert!(GroupParams::new(vec![23], vec![11], vec![1]).is_none());
    // alpha not below P
    assert!(GroupParams::new(vec![23], vec![11], vec![24]).is_none());
    // Q below 2
    assert!(GroupParams::new(vec![23], vec![1], vec![4]).is_none());
    // Q does not divide P - 1
    assert!(GroupParams::new(vec![24], vec![11], vec![4]).is_none());
    // the tiny profile itself is accepted, with padded encodings too
    assert!(GroupParams::new(vec![0, 23], vec![0, 0, 11], vec![4]).is_some());
}

#[test]
fn test_small_profile_values() {
    let g = GroupParams::small();
    assert_eq!(g.p(), &vec![23]);
    assert_eq!(g.q(), &vec![11]);
    assert_eq!(g.alpha(), &vec![4]);
}
