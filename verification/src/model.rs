//! Server-side records: a registered voter and an outstanding challenge.

use vstd::prelude::*;
use crate::zkp::{PublicKey, PublicKeyView};
use crate::hash::{user_hash, serialize_components, fnv1a_bytes};

verus! {

/// What the server keeps about a registered voter.
pub struct UserData {
    pub key: PublicKey,
}

pub struct UserDataView {
    pub key: PublicKeyView,
}

impl View for UserData {
    type V = UserDataView;

    open spec fn view(&self) -> UserDataView {
        UserDataView { key: self.key@ }
    }
}

impl UserData {
    /// The 64-bit digest of the canonical serialisation of the key; it is
    /// the voter's stable identity.
    pub fn get_hash(&self) -> (r: u64)
        ensures
            r == user_hash(self.key@),
    {
        proof {
            reveal(user_hash);
        }
        let ser = serialize_components(self.key.a(), self.key.b(), self.key.alpha(), self.key.beta());
        fnv1a_bytes(&ser)
    }
}

/// An outstanding challenge: the voter it was issued to, the challenge
/// scalar, and the commitment pair exactly as the client sent it.
pub struct ChallengeData {
    pub user_hash: u64,
    pub challenge: Vec<u8>,
    pub ka: Vec<u8>,
    pub kb: Vec<u8>,
}

pub struct ChallengeDataView {
    pub user_hash: u64,
    pub challenge: Seq<u8>,
    pub ka: Seq<u8>,
    pub kb: Seq<u8>,
}

impl View for ChallengeData {
    type V = ChallengeDataView;

    open spec fn view(&self) -> ChallengeDataView {
        ChallengeDataView {
            user_hash: self.user_hash,
            challenge: self.challenge@,
            ka: self.ka@,
            kb: self.kb@,
        }
    }
}

} // verus!
