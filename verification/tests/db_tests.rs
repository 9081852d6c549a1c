//! The store's collections in isolation.

use anonvote::db::AnonVoteDB;
use anonvote::model::{ChallengeData, UserData};
use anonvote::zkp::PublicKey;

#[test]
fn test_registration_codes_one_shot() {
    let mut db = AnonVoteDB::connect();
    assert!(db.add_registration_code(String::from("codecodecodecode")));
    assert!(!db.add_registration_code(String::from("codecodecodecode")));
    assert!(db.use_registration_code(&String::from("codecodecodecode")));
    assert!(!db.use_registration_code(&String::from("codecodecodecode")));
    // restored after a conflict: consumable exactly once more
    assert!(db.add_registration_code(String::from("codecodecodecode")));
    assert!(db.use_registration_code(&String::from("codecodecodecode")));
    assert!(!db.use_registration_code(&String::from("codecodecodecode")));
}

#[test]
fn test_registered_ids_write_once() {
    let mut db = AnonVoteDB::connect();
    assert!(db.add_registered_id(String::from("12345")));
    assert!(!db.add_registered_id(String::from("12345")));
    assert!(db.add_registered_id(String::from("54321")));
}

#[test]
fn test_user_registration_by_digest() {
    let mut db = AnonVoteDB::connect();
    let key = PublicKey::new(vec![8], vec![6], vec![4], vec![18]);
    let user = UserData { key };
    let h = user.get_hash();
    assert!(!db.user_registered(h));
    assert!(db.try_register_user(user));
    assert!(db.user_registered(h));
    let stored = db.get_user(h).expect("the user must be stored");
    assert_eq!(stored.key.a(), &vec![8]);
    // the same digest cannot be taken twice
    let key = PublicKey::new(vec![8], vec![6], vec![4], vec![18]);
    assert!(!db.try_register_user(UserData { key }));
}

#[test]
fn test_pending_votes_lifecycle() {
    let mut db = AnonVoteDB::connect();
    assert!(db.add_pending_vote(7, 2));
    assert!(!db.add_pending_vote(7, 3));
    assert_eq!(db.get_pending_vote(7), Some(2));
    assert_eq!(db.get_and_remove_pending_vote(7), Some(2));
    assert_eq!(db.get_pending_vote(7), None);
    assert_eq!(db.get_and_remove_pending_vote(7), None);
}

#[test]
fn test_challenges_lifecycle() {
    let mut db = AnonVoteDB::connect();
    let cd = ChallengeData { user_hash: 7, challenge: vec![9], ka: vec![12], kb: vec![3] };
    assert!(db.add_challenge(&String::from("sessionsessionse"), cd));
    let cd2 = ChallengeData { user_hash: 8, challenge: vec![1], ka: vec![2], kb: vec![4] };
    assert!(!db.add_challenge(&String::from("sessionsessionse"), cd2));
    let stored = db.get_challenge(&String::from("sessionsessionse")).expect("must be stored");
    assert_eq!(stored.user_hash, 7);
    assert_eq!(stored.challenge, vec![9]);
    assert!(db.remove_challenge(&String::from("sessionsessionse")));
    assert!(!db.remove_challenge(&String::from("sessionsessionse")));
}

#[test]
fn test_vote_results_counts() {
    let mut db = AnonVoteDB::connect();
    assert_eq!(db.get_vote_results(), vec![0, 0, 0, 0]);
    assert!(db.add_vote(1, 1));
    assert!(db.add_vote(2, 2));
    assert!(db.add_vote(3, 1));
    assert!(!db.add_vote(3, 3));
    assert!(db.user_voted(3));
    assert!(!db.user_voted(4));
    assert_eq!(db.get_vote_results(), vec![0, 2, 1, 0]);
    assert_eq!(db.get_vote_options_count(), 3);
    assert_eq!(db.get_vote_options().len(), 3);
}
