//! The four-operation engine over the published group.

use anonvote::db::AnonVoteDB;
use anonvote::messages::{RegisterReq, ValidateIdReq, ValidateVoteReq, VoteReq};
use anonvote::params::GroupParams;
use anonvote::server_impl::AnonVoteImpl;
use anonvote::zkp::{PublicKey, SecretKey};
use num_bigint::BigUint;

fn new_server() -> AnonVoteImpl {
    let db = AnonVoteDB::connect();
    let params = GroupParams::standard().expect("standard parameters must be accepted");
    AnonVoteImpl::new(db, 3, params)
}

fn group() -> GroupParams {
    GroupParams::standard().expect("standard parameters must be accepted")
}

#[test]
fn test_validate_id() {
    let mut server_impl = new_server();

    let validate_res = server_impl.validate_id(ValidateIdReq { id: String::from("123456") });
    assert!(validate_res.is_err(), "Did not throw error while passing invalid ID");

    let validate_res = server_impl.validate_id(ValidateIdReq { id: String::from("12345") });
    assert!(validate_res.is_ok(), "Did throw error while passing valid ID");

    let validate_res = server_impl.validate_id(ValidateIdReq { id: String::from("12345") });
    assert!(validate_res.is_err(), "Did not throw error while passing same ID twice");
}

#[test]
fn test_register() {
    let mut server_impl = new_server();
    let g = group();

    let validate_res = server_impl.validate_id(ValidateIdReq { id: String::from("12345") });
    assert!(validate_res.is_ok(), "Did throw error while passing valid ID");

    let registration_key = validate_res.unwrap().registration_key;

    let secret_key = SecretKey::new(BigUint::from(123456789u32).to_bytes_be());
    let public_key = secret_key.generate_public_key(&g);

    let secret_key2 = SecretKey::new(BigUint::from(742524531u32).to_bytes_be());
    let public_key2 = secret_key2.generate_public_key(&g);

    let register_res = server_impl.register(RegisterReq {
        registration_key: registration_key.clone(),
        a: public_key.a().clone(),
        b: public_key.b().clone(),
        alpha: public_key.alpha().clone(),
        beta: vec![],
    });
    assert!(register_res.is_err(), "Did not throw error while passing invalid public key");

    let register_res = server_impl.register(RegisterReq {
        registration_key: String::from("asdsafsafad"),
        a: public_key.a().clone(),
        b: public_key.b().clone(),
        alpha: public_key.alpha().clone(),
        beta: public_key.beta().clone(),
    });
    assert!(register_res.is_err(), "Did not throw error while passing invalid registration key");

    let register_res = server_impl.register(RegisterReq {
        registration_key: registration_key.clone(),
        a: public_key.a().clone(),
        b: public_key.b().clone(),
        alpha: public_key.alpha().clone(),
        beta: public_key.beta().clone(),
    });
    assert!(register_res.is_ok(), "Did throw error while passing valid registration");

    let register_res = server_impl.register(RegisterReq {
        registration_key: registration_key.clone(),
        a: public_key2.a().clone(),
        b: public_key2.b().clone(),
        alpha: public_key2.alpha().clone(),
        beta: public_key2.beta().clone(),
    });
    assert!(register_res.is_err(), "Did not throw error while trying to register twice");

    let validate_res = server_impl.validate_id(ValidateIdReq { id: String::from("64532") });
    assert!(validate_res.is_ok(), "Did throw error while passing valid ID");

    let registration_key = validate_res.unwrap().registration_key;

    let register_res = server_impl.register(RegisterReq {
        registration_key: registration_key.clone(),
        a: public_key.a().clone(),
        b: public_key.b().clone(),
        alpha: public_key.alpha().clone(),
        beta: public_key.beta().clone(),
    });
    assert!(
        register_res.is_err(),
        "Did not throw error while trying to register with same public key twice"
    );
}

struct TestUserData(String, SecretKey, PublicKey);

fn generate_user(g: &GroupParams, id: &str, secret_key: u32) -> TestUserData {
    let sk = SecretKey::new(BigUint::from(secret_key).to_bytes_be());
    let pk = sk.generate_public_key(g);
    TestUserData(String::from(id), sk, pk)
}

fn register_user(server_impl: &mut AnonVoteImpl, user: &TestUserData) {
    let validate_res = server_impl.validate_id(ValidateIdReq { id: user.0.clone() });
    assert!(validate_res.is_ok(), "Did throw error while passing valid ID");

    let registration_key = validate_res.unwrap().registration_key;

    let register_res = server_impl.register(RegisterReq {
        registration_key,
        a: user.2.a().clone(),
        b: user.2.b().clone(),
        alpha: user.2.alpha().clone(),
        beta: user.2.beta().clone(),
    });
    assert!(register_res.is_ok(), "Did throw error while passing valid registration");
}

#[test]
fn test_vote() {
    let mut server_impl = new_server();
    let g = group();

    let user1 = generate_user(&g, "12345", 123456789u32);
    register_user(&mut server_impl, &user1);

    let (_, ka, kb) = user1.2.generate_challenge_request(&g);
    let vote_res = server_impl.vote(VoteReq {
        vote: 1,
        alpha: user1.2.alpha().clone(),
        beta: user1.2.beta().clone(),
        a: user1.2.a().clone(),
        b: user1.2.b().clone(),
        ka,
        kb,
    });
    assert!(vote_res.is_ok(), "Did throw error while voting correctly. Error: {:?}", vote_res);

    let (_, ka, kb) = user1.2.generate_challenge_request(&g);
    let vote_res = server_impl.vote(VoteReq {
        vote: 0,
        alpha: user1.2.alpha().clone(),
        beta: user1.2.beta().clone(),
        a: user1.2.a().clone(),
        b: user1.2.b().clone(),
        ka,
        kb,
    });
    assert!(vote_res.is_err(), "Did not throw error while voting again");

    let user2 = generate_user(&g, "54321", 4135164u32);
    let other_secret_key = SecretKey::new(BigUint::from(5315314u32).to_bytes_be());
    let other_public_key = other_secret_key.generate_public_key(&g);

    register_user(&mut server_impl, &user2);

    let (_, ka, kb) = user2.2.generate_challenge_request(&g);
    let vote_res = server_impl.vote(VoteReq {
        vote: 2,
        alpha: vec![],
        beta: user2.2.beta().clone(),
        a: user2.2.a().clone(),
        b: user2.2.b().clone(),
        ka,
        kb,
    });
    assert!(vote_res.is_err(), "Did not throw error while passing invalid user data");

    let (_, ka, kb) = user2.2.generate_challenge_request(&g);
    let vote_res = server_impl.vote(VoteReq {
        vote: 10,
        alpha: user2.2.alpha().clone(),
        beta: user2.2.beta().clone(),
        a: user2.2.a().clone(),
        b: user2.2.b().clone(),
        ka,
        kb,
    });
    assert!(vote_res.is_err(), "Did not throw error while passing invalid vote");

    let (_, ka, kb) = other_public_key.generate_challenge_request(&g);
    let vote_res = server_impl.vote(VoteReq {
        vote: 2,
        alpha: other_public_key.alpha().clone(),
        beta: other_public_key.beta().clone(),
        a: other_public_key.a().clone(),
        b: other_public_key.b().clone(),
        ka,
        kb,
    });
    assert!(vote_res.is_err(), "Did not throw error while passing unregistered user");
}

fn vote(
    server_impl: &mut AnonVoteImpl,
    g: &GroupParams,
    user: &TestUserData,
    vote: u32,
) -> (String, Vec<u8>, Vec<u8>) {
    register_user(server_impl, user);

    let (k, ka, kb) = user.2.generate_challenge_request(g);
    let vote_res = server_impl.vote(VoteReq {
        vote,
        alpha: user.2.alpha().clone(),
        beta: user.2.beta().clone(),
        a: user.2.a().clone(),
        b: user.2.b().clone(),
        ka,
        kb,
    });
    assert!(vote_res.is_ok(), "Did throw error while voting correctly. Error: {:?}", vote_res);

    let vote_res = vote_res.unwrap();
    (vote_res.auth_session_id, k, vote_res.challenge)
}

#[test]
fn test_verify() {
    let mut server_impl = new_server();
    let g = group();

    let user = generate_user(&g, "12345", 12341u32);
    let (auth_session_id, k, c) = vote(&mut server_impl, &g, &user, 1);

    let solution = user.1.solve(&g, &k, &c);

    let validate_res = server_impl.validate_vote(ValidateVoteReq {
        auth_session_id: auth_session_id.clone(),
        solution: solution.clone(),
        vote: 1,
    });
    assert!(
        validate_res.is_ok(),
        "Did throw error while voting correctly. Error: {:?}",
        validate_res
    );

    let validate_res = server_impl.validate_vote(ValidateVoteReq {
        auth_session_id: auth_session_id.clone(),
        solution: solution.clone(),
        vote: 1,
    });
    assert!(validate_res.is_err(), "Did not throw error while trying to validate correctly twice");

    let user = generate_user(&g, "13345", 423211u32);
    let (auth_session_id, k, c) = vote(&mut server_impl, &g, &user, 1);

    let solution =
        (BigUint::from_bytes_be(&user.1.solve(&g, &k, &c)) - BigUint::from(1u32)).to_bytes_be();

    let validate_res = server_impl.validate_vote(ValidateVoteReq {
        auth_session_id: auth_session_id.clone(),
        solution: solution.clone(),
        vote: 1,
    });
    assert!(validate_res.is_err(), "Did not throw error while not giving correct solution.");

    let validate_res = server_impl.validate_vote(ValidateVoteReq {
        auth_session_id: auth_session_id.clone(),
        solution: solution.clone(),
        vote: 2,
    });
    assert!(validate_res.is_err(), "Did not throw error while not giving valid vote.");

    let validate_res = server_impl.validate_vote(ValidateVoteReq {
        auth_session_id: "dsadasadas".to_string(),
        solution: solution.clone(),
        vote: 1,
    });
    assert!(validate_res.is_err(), "Did not throw error while not giving valid auth session id.");
}
