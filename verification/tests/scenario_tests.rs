//! End-to-end scenarios over the tiny deterministic group profile
//! (P = 23, Q = 11, alpha = 4), with three vote options.

use anonvote::db::AnonVoteDB;
use anonvote::messages::{RegisterReq, StatusCode, ValidateIdReq, ValidateVoteReq, VoteReq};
use anonvote::params::GroupParams;
use anonvote::server_impl::AnonVoteImpl;
use anonvote::zkp::SecretKey;

fn new_small_server() -> AnonVoteImpl {
    AnonVoteImpl::new(AnonVoteDB::connect(), 3, GroupParams::small())
}

#[test]
fn test_scenario_validate_id_duplicate() {
    let mut server = new_small_server();
    let res = server.validate_id(ValidateIdReq { id: String::from("12345") });
    let key = res.expect("first validation must mint a code").registration_key;
    assert_eq!(key.len(), 16);
    assert!(key.chars().all(|c| c.is_ascii_alphanumeric()));

    let res = server.validate_id(ValidateIdReq { id: String::from("12345") });
    let err = res.expect_err("second validation of the same ID must fail");
    assert_eq!(err.code(), StatusCode::AlreadyExists);
}

#[test]
fn test_scenario_validate_id_short() {
    let mut server = new_small_server();
    let res = server.validate_id(ValidateIdReq { id: String::from("1234") });
    let err = res.expect_err("a four-character ID must be rejected");
    assert_eq!(err.code(), StatusCode::InvalidArgument);
    assert_eq!(err.message(), "User identification failed!");
}

#[test]
fn test_scenario_full_round() {
    // x = 7 and r = 3 under (23, 11, 4): the public key is
    // (a, b, alpha, beta) = (4^7 mod 23, 18^7 mod 23, 4, 4^3 mod 23)
    //                     = (8, 6, 4, 18)
    let mut server = new_small_server();
    let g = GroupParams::small();

    let res = server.validate_id(ValidateIdReq { id: String::from("12345") });
    let r1 = res.expect("validation must mint a code").registration_key;

    let res = server.register(RegisterReq {
        registration_key: r1.clone(),
        a: vec![8],
        b: vec![6],
        alpha: vec![4],
        beta: vec![18],
    });
    assert!(res.is_ok(), "registration with the honest key must succeed: {:?}", res);

    // a second registration on the consumed code fails, whatever key it
    // carries (here one built from x = 2: a = 4^2 mod 23 = 16,
    // b = 18^2 mod 23 = 2)
    let res = server.register(RegisterReq {
        registration_key: r1.clone(),
        a: vec![16],
        b: vec![2],
        alpha: vec![4],
        beta: vec![18],
    });
    let err = res.expect_err("a consumed code must be rejected");
    assert_eq!(err.code(), StatusCode::InvalidArgument);

    // vote 1 with ephemeral k = 5: ka = 4^5 mod 23 = 12, kb = 18^5 mod 23 = 3
    let res = server.vote(VoteReq {
        vote: 1,
        a: vec![8],
        b: vec![6],
        alpha: vec![4],
        beta: vec![18],
        ka: vec![12],
        kb: vec![3],
    });
    let res = res.expect("the vote must open a session");
    let sid = res.auth_session_id;
    let c = res.challenge;

    let sk = SecretKey::new(vec![7]);
    let solution = sk.solve(&g, &vec![5], &c);
    let res = server.validate_vote(ValidateVoteReq {
        auth_session_id: sid.clone(),
        vote: 1,
        solution,
    });
    assert!(res.is_ok(), "the honest solution must verify: {:?}", res);

    // index 0 unused: wire votes are 1-based
    let tally = server.get_vote_results();
    assert_eq!(tally, vec![0, 1, 0, 0]);

    // out-of-range vote
    let res = server.vote(VoteReq {
        vote: 4,
        a: vec![8],
        b: vec![6],
        alpha: vec![4],
        beta: vec![18],
        ka: vec![12],
        kb: vec![3],
    });
    let err = res.expect_err("vote 4 is out of range for three options");
    assert_eq!(err.code(), StatusCode::InvalidArgument);

    // voting again after a recorded ballot
    let res = server.vote(VoteReq {
        vote: 1,
        a: vec![8],
        b: vec![6],
        alpha: vec![4],
        beta: vec![18],
        ka: vec![12],
        kb: vec![3],
    });
    let err = res.expect_err("a voter with a recorded ballot must be rejected");
    assert_eq!(err.code(), StatusCode::AlreadyExists);
}

#[test]
fn test_scenario_register_restores_code_on_duplicate_key() {
    let mut server = new_small_server();

    let r1 = server
        .validate_id(ValidateIdReq { id: String::from("11111") })
        .expect("validation must mint a code")
        .registration_key;
    let res = server.register(RegisterReq {
        registration_key: r1.clone(),
        a: vec![8],
        b: vec![6],
        alpha: vec![4],
        beta: vec![18],
    });
    assert!(res.is_ok());

    // a second identity tries the same public key: the conflict must put
    // the code back
    let r2 = server
        .validate_id(ValidateIdReq { id: String::from("22222") })
        .expect("validation must mint a code")
        .registration_key;
    let res = server.register(RegisterReq {
        registration_key: r2.clone(),
        a: vec![8],
        b: vec![6],
        alpha: vec![4],
        beta: vec![18],
    });
    let err = res.expect_err("a duplicate public key must be rejected");
    assert_eq!(err.code(), StatusCode::AlreadyExists);

    // the restored code is consumable exactly once more
    let res = server.register(RegisterReq {
        registration_key: r2.clone(),
        a: vec![16],
        b: vec![2],
        alpha: vec![4],
        beta: vec![18],
    });
    assert!(res.is_ok(), "the restored code must be consumable again: {:?}", res);

    let res = server.register(RegisterReq {
        registration_key: r2,
        a: vec![9],
        b: vec![13],
        alpha: vec![4],
        beta: vec![18],
    });
    let err = res.expect_err("the code is spent after the retry");
    assert_eq!(err.code(), StatusCode::InvalidArgument);
}

#[test]
fn test_scenario_second_vote_while_pending() {
    let mut server = new_small_server();

    let r1 = server
        .validate_id(ValidateIdReq { id: String::from("44444") })
        .expect("validation must mint a code")
        .registration_key;
    server
        .register(RegisterReq {
            registration_key: r1,
            a: vec![8],
            b: vec![6],
            alpha: vec![4],
            beta: vec![18],
        })
        .expect("registration must succeed");
    server
        .vote(VoteReq {
            vote: 1,
            a: vec![8],
            b: vec![6],
            alpha: vec![4],
            beta: vec![18],
            ka: vec![12],
            kb: vec![3],
        })
        .expect("the first vote must open a session");

    // a second ballot while one is pending is refused
    let err = server
        .vote(VoteReq {
            vote: 2,
            a: vec![8],
            b: vec![6],
            alpha: vec![4],
            beta: vec![18],
            ka: vec![12],
            kb: vec![3],
        })
        .expect_err("a voter with a pending ballot must be rejected");
    assert_eq!(err.code(), StatusCode::AlreadyExists);
}

#[test]
fn test_scenario_pending_vote_mismatch() {
    let mut server = new_small_server();
    let g = GroupParams::small();

    let r1 = server
        .validate_id(ValidateIdReq { id: String::from("33333") })
        .expect("validation must mint a code")
        .registration_key;
    server
        .register(RegisterReq {
            registration_key: r1,
            a: vec![8],
            b: vec![6],
            alpha: vec![4],
            beta: vec![18],
        })
        .expect("registration must succeed");
    let res = server
        .vote(VoteReq {
            vote: 2,
            a: vec![8],
            b: vec![6],
            alpha: vec![4],
            beta: vec![18],
            ka: vec![12],
            kb: vec![3],
        })
        .expect("the vote must open a session");

    let sk = SecretKey::new(vec![7]);
    let solution = sk.solve(&g, &vec![5], &res.challenge);

    // submitting a different vote than the pending one fails and leaves
    // the session open
    let err = server
        .validate_vote(ValidateVoteReq {
            auth_session_id: res.auth_session_id.clone(),
            vote: 3,
            solution: solution.clone(),
        })
        .expect_err("a mismatched vote must be rejected");
    assert_eq!(err.code(), StatusCode::InvalidArgument);

    // the matching vote then still goes through
    let ok = server.validate_vote(ValidateVoteReq {
        auth_session_id: res.auth_session_id,
        vote: 2,
        solution,
    });
    assert!(ok.is_ok(), "the pending ballot must still close: {:?}", ok);
    assert_eq!(server.get_vote_results(), vec![0, 0, 1, 0]);
}
