//! The protocol engine: the four-operation state machine over the store.
//!
//! Each operation's contract says exactly on which states it succeeds, which
//! error it reports otherwise, and how the store changes; `db_inv` is the
//! state-machine invariant every operation preserves: pending and recorded
//! ballots belong to registered voters, no voter has both a pending and a
//! recorded ballot, and every open challenge points at a distinct voter
//! with a pending ballot.

use vstd::prelude::*;
use crate::bytes::{be_val, min_of, copy_bytes};
use crate::db::{AnonVoteDB, DbView};
use crate::hash::user_hash;
use crate::messages::{ValidateIdReq, ValidateIdRes, RegisterReq, RegisterRes, VoteReq, VoteRes,
    ValidateVoteReq, ValidateVoteRes, VoteError};
use crate::model::{UserData, ChallengeData};
use crate::params::{GroupParams, GroupParamsView};
use crate::zkp::{PublicKey, PublicKeyView, generate_challenge, verify_val};

verus! {

/// A character a registration code or session id may carry.
pub open spec fn is_code_char(c: char) -> bool {
    (65 <= c as u32 && c as u32 <= 90) || (97 <= c as u32 && c as u32 <= 122) || (48 <= c as u32
        && c as u32 <= 57)
}

/// A sixteen-character alphanumeric bearer token.
pub open spec fn is_token(s: Seq<char>) -> bool {
    s.len() == 16 && forall|i: int| 0 <= i < s.len() ==> is_code_char(#[trigger] s[i])
}

/// An identity string the placeholder identity provider accepts.
pub open spec fn id_ok(id: Seq<char>) -> bool {
    id.len() == 5
}

/// A public key the server accepts: no component of the commitment is zero.
pub open spec fn user_data_ok(k: PublicKeyView) -> bool {
    k.a_val() > 0 && k.b_val() > 0 && k.beta_val() > 0
}

/// A candidate index on the wire: 1-based, up to the candidate count.
pub open spec fn vote_ok(v: u32, count: u32) -> bool {
    1 <= v <= count
}

/// The public-key view a request's raw byte strings decode to.
pub open spec fn req_pk_view(a: Seq<u8>, b: Seq<u8>, alpha: Seq<u8>, beta: Seq<u8>) -> PublicKeyView {
    PublicKeyView { a: min_of(a), b: min_of(b), alpha: min_of(alpha), beta: min_of(beta) }
}

/// No collection changed.
pub open spec fn db_unchanged(a: DbView, b: DbView) -> bool {
    &&& a.registered_ids == b.registered_ids
    &&& a.active_registration_codes == b.active_registration_codes
    &&& a.registered_users == b.registered_users
    &&& a.pending_votes == b.pending_votes
    &&& a.votes == b.votes
    &&& a.challenges == b.challenges
}

/// Every stored ballot, pending or recorded, names a candidate in range.
pub open spec fn ballots_in_range(v: DbView, count: u32) -> bool {
    &&& forall|h: u64|
        #[trigger] v.pending_votes.dom().contains(h) ==> vote_ok(v.pending_votes[h], count)
    &&& forall|h: u64| #[trigger] v.votes.dom().contains(h) ==> vote_ok(v.votes[h], count)
}

/// The state-machine invariant over the six collections.
pub open spec fn db_inv(v: DbView) -> bool {
    &&& forall|h: u64|
        #[trigger] v.pending_votes.dom().contains(h) ==> v.registered_users.dom().contains(h)
    &&& forall|h: u64|
        #[trigger] v.votes.dom().contains(h) ==> v.registered_users.dom().contains(h)
    &&& forall|h: u64| #[trigger] v.pending_votes.dom().contains(h) ==> !v.votes.dom().contains(h)
    &&& forall|sid: Seq<char>|
        #[trigger] v.challenges.dom().contains(sid) ==> v.pending_votes.dom().contains(
            v.challenges[sid].user_hash,
        )
    &&& forall|s1: Seq<char>, s2: Seq<char>|
        #[trigger] v.challenges.dom().contains(s1) && #[trigger] v.challenges.dom().contains(s2)
            && s1 != s2 ==> v.challenges[s1].user_hash != v.challenges[s2].user_hash
}

/// Relies on `rand::distributions::Alphanumeric` through
/// `DistString::sample_string` over `rand::thread_rng`: draws `len`
/// characters uniformly from `[A-Za-z0-9]`. Nothing beyond the length and
/// the alphabet can be promised of a random string.
#[verifier::external_body]
fn generate_random_string(len: usize) -> (r: String)
    ensures
        r@.len() == len,
        forall|i: int| 0 <= i < r@.len() ==> is_code_char(#[trigger] r@[i]),
{
    let rnd = &mut rand::thread_rng();
    rand::distributions::DistString::sample_string(&rand::distributions::Alphanumeric, rnd, len)
}

/// What the engine's state denotes: the store's collections, the candidate
/// count and the group parameters.
pub struct AnonVoteImplView {
    pub db: DbView,
    pub vote_option_count: u32,
    pub params: GroupParamsView,
}

/// The voting service: the store, the candidate count and the group.
pub struct AnonVoteImpl {
    db: AnonVoteDB,
    vote_option_count: u32,
    params: GroupParams,
}

impl View for AnonVoteImpl {
    type V = AnonVoteImplView;

    closed spec fn view(&self) -> AnonVoteImplView {
        AnonVoteImplView {
            db: self.db@,
            vote_option_count: self.vote_option_count,
            params: self.params@,
        }
    }
}

impl AnonVoteImpl {
    /// The store is well formed, the state-machine invariant holds, and the
    /// group parameters are valid.
    pub closed spec fn inv(&self) -> bool {
        &&& self.db.wf()
        &&& db_inv(self.db@)
        &&& ballots_in_range(self.db@, self.vote_option_count)
        &&& self.params.wf()
    }

    /// Builds the service over a fresh store. Valid votes are
    /// `1 ..= vote_option_count`.
    pub fn new(db: AnonVoteDB, vote_option_count: u32, params: GroupParams) -> (r: AnonVoteImpl)
        requires
            db.wf(),
            db@.registered_ids == Set::<Seq<char>>::empty(),
            db@.active_registration_codes == Set::<Seq<char>>::empty(),
            db@.registered_users == Map::<u64, UserData>::empty(),
            db@.pending_votes == Map::<u64, u32>::empty(),
            db@.votes == Map::<u64, u32>::empty(),
            db@.challenges == Map::<Seq<char>, crate::model::ChallengeData>::empty(),
            params.wf(),
        ensures
            r.inv(),
            r@.db == db@,
            r@.vote_option_count == vote_option_count,
            r@.params == params@,
    {
        AnonVoteImpl { db, vote_option_count, params }
    }

    /// Checks an identity with the placeholder provider: exactly five
    /// characters long.
    fn id_is_valid(id: &String) -> (r: bool)
        ensures
            r == id_ok(id@),
    {
        id.unicode_len() == 5
    }

    /// Accepts a public key whose commitment components are all nonzero.
    fn validate_user_data(user: &UserData) -> (r: bool)
        requires
            user@.key.wf(),
        ensures
            r == user_data_ok(user@.key),
    {
        let a_pos = !crate::bytes::is_zero_min(user.key.a());
        let b_pos = !crate::bytes::is_zero_min(user.key.b());
        let beta_pos = !crate::bytes::is_zero_min(user.key.beta());
        a_pos && b_pos && beta_pos
    }

    /// Whether a wire vote is in range.
    fn vote_valid(&self, vote: &u32) -> (r: bool)
        ensures
            r == vote_ok(*vote, self@.vote_option_count),
    {
        *vote > 0 && *vote <= self.vote_option_count
    }

    /// Validates an identity and mints its one-shot registration code.
    /// Succeeds exactly on a well-formed identity not seen before; the code
    /// is a fresh sixteen-character token added to the active set.
    pub fn validate_id(&mut self, req: ValidateIdReq) -> (r: Result<ValidateIdRes, VoteError>)
        requires
            old(self).inv(),
        ensures
            final(self).inv(),
            final(self)@.vote_option_count == old(self)@.vote_option_count,
            final(self)@.params == old(self)@.params,
            match r {
                Ok(res) => {
                    &&& id_ok(req.id@)
                    &&& !old(self)@.db.registered_ids.contains(req.id@)
                    &&& final(self)@.db.registered_ids == old(self)@.db.registered_ids.insert(
                        req.id@,
                    )
                    &&& is_token(res.registration_key@)
                    &&& !old(self)@.db.active_registration_codes.contains(res.registration_key@)
                    &&& final(self)@.db.active_registration_codes == old(
                        self,
                    )@.db.active_registration_codes.insert(res.registration_key@)
                    &&& final(self)@.db.registered_users == old(self)@.db.registered_users
                    &&& final(self)@.db.pending_votes == old(self)@.db.pending_votes
                    &&& final(self)@.db.votes == old(self)@.db.votes
                    &&& final(self)@.db.challenges == old(self)@.db.challenges
                },
                Err(e) => match e {
                    VoteError::IdentificationFailed => !id_ok(req.id@) && db_unchanged(
                        final(self)@.db,
                        old(self)@.db,
                    ),
                    VoteError::IdAlreadyUsed => id_ok(req.id@) && old(
                        self,
                    )@.db.registered_ids.contains(req.id@) && db_unchanged(
                        final(self)@.db,
                        old(self)@.db,
                    ),
                    VoteError::CodeCollision => {
                        &&& id_ok(req.id@)
                        &&& !old(self)@.db.registered_ids.contains(req.id@)
                        &&& old(self)@.db.active_registration_codes != Set::<Seq<char>>::empty()
                        &&& final(self)@.db.registered_ids == old(
                            self,
                        )@.db.registered_ids.insert(req.id@)
                        &&& final(self)@.db.active_registration_codes == old(
                            self,
                        )@.db.active_registration_codes
                        &&& final(self)@.db.registered_users == old(self)@.db.registered_users
                        &&& final(self)@.db.pending_votes == old(self)@.db.pending_votes
                        &&& final(self)@.db.votes == old(self)@.db.votes
                        &&& final(self)@.db.challenges == old(self)@.db.challenges
                    },
                    _ => false,
                },
            },
    {
        let valid_id = AnonVoteImpl::id_is_valid(&req.id);
        if !valid_id {
            return Err(VoteError::IdentificationFailed);
        }
        let ghost ids0 = self.db@.registered_ids;
        let added = self.db.add_registered_id(req.id);
        if !added {
            proof {
                assert(ids0.insert(req.id@) =~= ids0);
            }
            return Err(VoteError::IdAlreadyUsed);
        }
        let ghost mid = self.db@;
        let mut registration_key = generate_random_string(16);
        let mut added = self.db.add_registration_code(registration_key.clone());
        proof {
            if !added {
                assert(mid.active_registration_codes.insert(registration_key@)
                    =~= mid.active_registration_codes);
            }
        }
        let mut attempts: u32 = 0;
        while !added && attempts < 32
            invariant
                self.db.wf(),
                db_inv(self.db@),
                self.params == old(self).params,
                self.vote_option_count == old(self).vote_option_count,
                is_token(registration_key@),
                added ==> !mid.active_registration_codes.contains(registration_key@)
                    && self.db@.active_registration_codes
                    == mid.active_registration_codes.insert(registration_key@),
                !added ==> self.db@.active_registration_codes == mid.active_registration_codes
                    && mid.active_registration_codes.contains(registration_key@),
                self.db@.registered_ids == mid.registered_ids,
                self.db@.registered_users == mid.registered_users,
                self.db@.pending_votes == mid.pending_votes,
                self.db@.votes == mid.votes,
                self.db@.challenges == mid.challenges,
            decreases 32 - attempts,
        {
            registration_key = generate_random_string(16);
            added = self.db.add_registration_code(registration_key.clone());
            proof {
                if !added {
                    assert(mid.active_registration_codes.insert(registration_key@)
                        =~= mid.active_registration_codes);
                }
            }
            attempts += 1;
        }
        if !added {
            // the final draw collided with an active code, so the active
            // set cannot be empty
            proof {
                assert(!Set::<Seq<char>>::empty().contains(registration_key@));
            }
            return Err(VoteError::CodeCollision);
        }
        Ok(ValidateIdRes { registration_key })
    }

    /// Consumes a one-shot code and binds a public key to it. Succeeds
    /// exactly on a nonzero key whose code is active and whose digest is
    /// new; on a duplicate key the consumed code is put back.
    pub fn register(&mut self, req: RegisterReq) -> (r: Result<RegisterRes, VoteError>)
        requires
            old(self).inv(),
        ensures
            final(self).inv(),
            final(self)@.vote_option_count == old(self)@.vote_option_count,
            final(self)@.params == old(self)@.params,
            ({
                let pkv = req_pk_view(req.a@, req.b@, req.alpha@, req.beta@);
                let h = user_hash(pkv);
                match r {
                    Ok(_) => {
                        &&& user_data_ok(pkv)
                        &&& old(self)@.db.active_registration_codes.contains(
                            req.registration_key@,
                        )
                        &&& !old(self)@.db.registered_users.dom().contains(h)
                        &&& final(self)@.db.active_registration_codes == old(
                            self,
                        )@.db.active_registration_codes.remove(req.registration_key@)
                        &&& exists|u: UserData|
                            u@.key == pkv && final(self)@.db.registered_users == old(
                                self,
                            )@.db.registered_users.insert(h, u)
                        &&& final(self)@.db.registered_ids == old(self)@.db.registered_ids
                        &&& final(self)@.db.pending_votes == old(self)@.db.pending_votes
                        &&& final(self)@.db.votes == old(self)@.db.votes
                        &&& final(self)@.db.challenges == old(self)@.db.challenges
                    },
                    Err(e) => match e {
                        VoteError::InvalidUserData => !user_data_ok(pkv) && db_unchanged(
                            final(self)@.db,
                            old(self)@.db,
                        ),
                        VoteError::InvalidRegistrationKey => {
                            &&& user_data_ok(pkv)
                            &&& !old(self)@.db.active_registration_codes.contains(
                                req.registration_key@,
                            )
                            &&& db_unchanged(final(self)@.db, old(self)@.db)
                        },
                        VoteError::DuplicatePublicKey => {
                            &&& user_data_ok(pkv)
                            &&& old(self)@.db.active_registration_codes.contains(
                                req.registration_key@,
                            )
                            &&& old(self)@.db.registered_users.dom().contains(h)
                            &&& db_unchanged(final(self)@.db, old(self)@.db)
                        },
                        _ => false,
                    },
                }
            }),
    {
        let public_key = PublicKey::from_bytes_be(&req.a, &req.b, &req.alpha, &req.beta);
        let user_data = UserData { key: public_key };
        let user_data_valid = AnonVoteImpl::validate_user_data(&user_data);
        if !user_data_valid {
            return Err(VoteError::InvalidUserData);
        }
        let ghost codes0 = self.db@.active_registration_codes;
        let valid_key = self.db.use_registration_code(&req.registration_key);
        if !valid_key {
            proof {
                assert(codes0.remove(req.registration_key@) =~= codes0);
            }
            return Err(VoteError::InvalidRegistrationKey);
        }
        let succ = self.db.try_register_user(user_data);
        if !succ {
            // the code was not spent after all: put it back for a retry
            // with a different keypair
            self.db.add_registration_code(req.registration_key);
            proof {
                assert(codes0.remove(req.registration_key@).insert(req.registration_key@)
                    =~= codes0);
            }
            return Err(VoteError::DuplicatePublicKey);
        }
        Ok(RegisterRes {  })
    }

    /// Opens a ballot: stores the candidate choice as pending, adopts the
    /// commitment pair verbatim, draws a challenge below Q and files it
    /// under a fresh session id. Succeeds exactly on a nonzero key of a
    /// registered voter who has neither voted nor a pending ballot, with an
    /// in-range candidate; only the freshly drawn session id can still
    /// collide, which is reported as an internal error with the ballot left
    /// pending.
    #[verifier::rlimit(100)]
    #[verifier::spinoff_prover]
    pub fn vote(&mut self, req: VoteReq) -> (r: Result<VoteRes, VoteError>)
        requires
            old(self).inv(),
        ensures
            final(self).inv(),
            final(self)@.vote_option_count == old(self)@.vote_option_count,
            final(self)@.params == old(self)@.params,
            ({
                let pkv = req_pk_view(req.a@, req.b@, req.alpha@, req.beta@);
                let h = user_hash(pkv);
                match r {
                    Ok(res) => {
                        &&& user_data_ok(pkv)
                        &&& vote_ok(req.vote, old(self)@.vote_option_count)
                        &&& old(self)@.db.registered_users.dom().contains(h)
                        &&& !old(self)@.db.votes.dom().contains(h)
                        &&& !old(self)@.db.pending_votes.dom().contains(h)
                        &&& final(self)@.db.pending_votes == old(
                            self,
                        )@.db.pending_votes.insert(h, req.vote)
                        &&& is_token(res.auth_session_id@)
                        &&& !old(self)@.db.challenges.dom().contains(res.auth_session_id@)
                        &&& be_val(res.challenge@) < old(self)@.params.q
                        &&& exists|cd: ChallengeData|
                            {
                                &&& cd.user_hash == h
                                &&& cd.ka@ == min_of(req.ka@)
                                &&& cd.kb@ == min_of(req.kb@)
                                &&& cd.challenge@ == res.challenge@
                                &&& final(self)@.db.challenges == old(
                                    self,
                                )@.db.challenges.insert(res.auth_session_id@, cd)
                            }
                        &&& final(self)@.db.registered_ids == old(self)@.db.registered_ids
                        &&& final(self)@.db.active_registration_codes == old(
                            self,
                        )@.db.active_registration_codes
                        &&& final(self)@.db.registered_users == old(self)@.db.registered_users
                        &&& final(self)@.db.votes == old(self)@.db.votes
                    },
                    Err(e) => match e {
                        VoteError::InvalidUserData => !user_data_ok(pkv) && db_unchanged(
                            final(self)@.db,
                            old(self)@.db,
                        ),
                        VoteError::InvalidVote => {
                            &&& user_data_ok(pkv)
                            &&& !vote_ok(req.vote, old(self)@.vote_option_count)
                            &&& db_unchanged(final(self)@.db, old(self)@.db)
                        },
                        VoteError::UserNotRegistered => {
                            &&& user_data_ok(pkv)
                            &&& vote_ok(req.vote, old(self)@.vote_option_count)
                            &&& !old(self)@.db.registered_users.dom().contains(h)
                            &&& db_unchanged(final(self)@.db, old(self)@.db)
                        },
                        VoteError::UserAlreadyVoted => {
                            &&& user_data_ok(pkv)
                            &&& vote_ok(req.vote, old(self)@.vote_option_count)
                            &&& old(self)@.db.registered_users.dom().contains(h)
                            &&& old(self)@.db.votes.dom().contains(h)
                            &&& db_unchanged(final(self)@.db, old(self)@.db)
                        },
                        VoteError::PendingVoteExists => {
                            &&& user_data_ok(pkv)
                            &&& vote_ok(req.vote, old(self)@.vote_option_count)
                            &&& old(self)@.db.registered_users.dom().contains(h)
                            &&& !old(self)@.db.votes.dom().contains(h)
                            &&& old(self)@.db.pending_votes.dom().contains(h)
                            &&& db_unchanged(final(self)@.db, old(self)@.db)
                        },
                        VoteError::SessionCollision => {
                            &&& user_data_ok(pkv)
                            &&& vote_ok(req.vote, old(self)@.vote_option_count)
                            &&& old(self)@.db.challenges.dom() != Set::<Seq<char>>::empty()
                            &&& old(self)@.db.registered_users.dom().contains(h)
                            &&& !old(self)@.db.votes.dom().contains(h)
                            &&& !old(self)@.db.pending_votes.dom().contains(h)
                            &&& final(self)@.db.pending_votes == old(
                                self,
                            )@.db.pending_votes.insert(h, req.vote)
                            &&& final(self)@.db.registered_ids == old(self)@.db.registered_ids
                            &&& final(self)@.db.active_registration_codes == old(
                                self,
                            )@.db.active_registration_codes
                            &&& final(self)@.db.registered_users == old(
                                self,
                            )@.db.registered_users
                            &&& final(self)@.db.votes == old(self)@.db.votes
                            &&& final(self)@.db.challenges == old(self)@.db.challenges
                        },
                        _ => false,
                    },
                }
            }),
    {
        let public_key = PublicKey::from_bytes_be(&req.a, &req.b, &req.alpha, &req.beta);
        let user_data = UserData { key: public_key };
        let user_hash = user_data.get_hash();
        if !AnonVoteImpl::validate_user_data(&user_data) {
            return Err(VoteError::InvalidUserData);
        }
        if !self.vote_valid(&req.vote) {
            return Err(VoteError::InvalidVote);
        }
        if !self.db.user_registered(user_hash) {
            return Err(VoteError::UserNotRegistered);
        }
        if self.db.user_voted(user_hash) {
            return Err(VoteError::UserAlreadyVoted);
        }
        let ghost pre = self.db@;
        let vote_added = self.db.add_pending_vote(user_hash, req.vote);
        if !vote_added {
            return Err(VoteError::PendingVoteExists);
        }
        proof {
            let v = self.db@;
            assert forall|sid: Seq<char>| #[trigger] v.challenges.dom().contains(sid)
                implies v.pending_votes.dom().contains(v.challenges[sid].user_hash) by {
                assert(pre.challenges.dom().contains(sid));
                assert(pre.pending_votes.dom().contains(pre.challenges[sid].user_hash));
            }
            assert(db_inv(v));
        }
        let c = generate_challenge(&self.params);
        let c_bytes = copy_bytes(&c);
        let challenge = ChallengeData {
            user_hash,
            ka: crate::bytes::strip_leading_zeros(&req.ka),
            kb: crate::bytes::strip_leading_zeros(&req.kb),
            challenge: c,
        };
        let ghost cdv = challenge;
        let ghost mid = self.db@;
        let session_id = generate_random_string(16);
        let added = self.db.add_challenge(&session_id, challenge);
        if !added {
            // the drawn session id collided with an open challenge, so the
            // challenge map cannot be empty
            proof {
                assert(mid.challenges.dom().contains(session_id@));
                assert(!Set::<Seq<char>>::empty().contains(session_id@));
            }
            return Err(VoteError::SessionCollision);
        }
        proof {
            let v = self.db@;
            assert forall|sid: Seq<char>| #[trigger] v.challenges.dom().contains(sid)
                implies v.pending_votes.dom().contains(v.challenges[sid].user_hash) by {
                if sid == session_id@ {
                    assert(v.challenges[sid] == cdv);
                } else {
                    assert(mid.challenges.dom().contains(sid));
                    assert(mid.pending_votes.dom().contains(mid.challenges[sid].user_hash));
                }
            }
            assert forall|s1: Seq<char>, s2: Seq<char>|
                #[trigger] v.challenges.dom().contains(s1) && #[trigger] v.challenges.dom()
                    .contains(s2) && s1 != s2
                implies v.challenges[s1].user_hash != v.challenges[s2].user_hash by {
                if s1 == session_id@ {
                    assert(mid.challenges.dom().contains(s2));
                    assert(mid.pending_votes.dom().contains(mid.challenges[s2].user_hash));
                } else if s2 == session_id@ {
                    assert(mid.challenges.dom().contains(s1));
                    assert(mid.pending_votes.dom().contains(mid.challenges[s1].user_hash));
                } else {
                    assert(mid.challenges.dom().contains(s1));
                    assert(mid.challenges.dom().contains(s2));
                }
            }
            assert(db_inv(v));
            assert(cdv.user_hash == user_hash && cdv.ka@ == min_of(req.ka@) && cdv.kb@ == min_of(
                req.kb@,
            ) && cdv.challenge@ == c_bytes@ && v.challenges == mid.challenges.insert(
                session_id@,
                cdv,
            ));
        }
        let res = VoteRes { auth_session_id: session_id, challenge: c_bytes };
        proof {
            let pkv = req_pk_view(req.a@, req.b@, req.alpha@, req.beta@);
            let h = crate::hash::user_hash(pkv);
            assert(h == cdv.user_hash);
            assert(exists|cd: ChallengeData|
                {
                    &&& cd.user_hash == h
                    &&& cd.ka@ == min_of(req.ka@)
                    &&& cd.kb@ == min_of(req.kb@)
                    &&& cd.challenge@ == res.challenge@
                    &&& self.db@.challenges == old(self)@.db.challenges.insert(
                        res.auth_session_id@,
                        cd,
                    )
                }) by {
                assert({
                    &&& cdv.user_hash == h
                    &&& cdv.ka@ == min_of(req.ka@)
                    &&& cdv.kb@ == min_of(req.kb@)
                    &&& cdv.challenge@ == res.challenge@
                    &&& self.db@.challenges == old(self)@.db.challenges.insert(
                        res.auth_session_id@,
                        cdv,
                    )
                });
            }
            assert({
                &&& user_data_ok(pkv)
                &&& vote_ok(req.vote, old(self)@.vote_option_count)
                &&& old(self)@.db.registered_users.dom().contains(h)
                &&& !old(self)@.db.votes.dom().contains(h)
                &&& !old(self)@.db.pending_votes.dom().contains(h)
                &&& self.db@.pending_votes == old(self)@.db.pending_votes.insert(h, req.vote)
                &&& is_token(res.auth_session_id@)
                &&& !old(self)@.db.challenges.dom().contains(res.auth_session_id@)
                &&& be_val(res.challenge@) < old(self)@.params.q
                &&& self.db@.registered_ids == old(self)@.db.registered_ids
                &&& self.db@.active_registration_codes == old(
                    self,
                )@.db.active_registration_codes
                &&& self.db@.registered_users == old(self)@.db.registered_users
                &&& self.db@.votes == old(self)@.db.votes
            });
        }
        Ok(res)
    }

    /// Closes a ballot: checks the response against the stored challenge
    /// and promotes the pending ballot to a recorded vote, deleting the
    /// session. Succeeds exactly when the session is open, the submitted
    /// vote matches the pending one, and the response satisfies the
    /// verification equations against the registered key; the race errors
    /// never arise here, one request running at a time.
    #[verifier::rlimit(100)]
    pub fn validate_vote(&mut self, req: ValidateVoteReq) -> (r: Result<ValidateVoteRes,
        VoteError>)
        requires
            old(self).inv(),
        ensures
            final(self).inv(),
            final(self)@.vote_option_count == old(self)@.vote_option_count,
            final(self)@.params == old(self)@.params,
            ({
                let sid = req.auth_session_id@;
                match r {
                    Ok(_) => {
                        let cd = old(self)@.db.challenges[sid];
                        let h = cd.user_hash;
                        let u = old(self)@.db.registered_users[h];
                        {
                            &&& old(self)@.db.challenges.dom().contains(sid)
                            &&& old(self)@.db.pending_votes.dom().contains(h)
                            &&& old(self)@.db.pending_votes[h] == req.vote
                            &&& old(self)@.db.registered_users.dom().contains(h)
                            &&& verify_val(
                                old(self)@.params.p,
                                u@.key.alpha_val(),
                                u@.key.beta_val(),
                                u@.key.a_val(),
                                u@.key.b_val(),
                                be_val(cd.ka@),
                                be_val(cd.kb@),
                                be_val(cd.challenge@),
                                be_val(req.solution@),
                            )
                            &&& final(self)@.db.challenges == old(self)@.db.challenges.remove(
                                sid,
                            )
                            &&& final(self)@.db.pending_votes == old(
                                self,
                            )@.db.pending_votes.remove(h)
                            &&& final(self)@.db.votes == old(self)@.db.votes.insert(h, req.vote)
                            &&& final(self)@.db.registered_ids == old(self)@.db.registered_ids
                            &&& final(self)@.db.active_registration_codes == old(
                                self,
                            )@.db.active_registration_codes
                            &&& final(self)@.db.registered_users == old(
                                self,
                            )@.db.registered_users
                        }
                    },
                    Err(e) => match e {
                        VoteError::InvalidSessionId => {
                            &&& !old(self)@.db.challenges.dom().contains(sid)
                            &&& db_unchanged(final(self)@.db, old(self)@.db)
                        },
                        VoteError::PendingVoteMismatch => {
                            let cd = old(self)@.db.challenges[sid];
                            let h = cd.user_hash;
                            {
                                &&& old(self)@.db.challenges.dom().contains(sid)
                                &&& old(self)@.db.pending_votes.dom().contains(h)
                                &&& old(self)@.db.pending_votes[h] != req.vote
                                &&& db_unchanged(final(self)@.db, old(self)@.db)
                            }
                        },
                        VoteError::SolutionNotVerified => {
                            let cd = old(self)@.db.challenges[sid];
                            let h = cd.user_hash;
                            let u = old(self)@.db.registered_users[h];
                            {
                                &&& old(self)@.db.challenges.dom().contains(sid)
                                &&& old(self)@.db.pending_votes.dom().contains(h)
                                &&& old(self)@.db.pending_votes[h] == req.vote
                                &&& old(self)@.db.registered_users.dom().contains(h)
                                &&& !verify_val(
                                    old(self)@.params.p,
                                    u@.key.alpha_val(),
                                    u@.key.beta_val(),
                                    u@.key.a_val(),
                                    u@.key.b_val(),
                                    be_val(cd.ka@),
                                    be_val(cd.kb@),
                                    be_val(cd.challenge@),
                                    be_val(req.solution@),
                                )
                                &&& db_unchanged(final(self)@.db, old(self)@.db)
                            }
                        },
                        _ => false,
                    },
                }
            }),
    {
        let challenge_data = match self.db.get_challenge(&req.auth_session_id) {
            None => {
                return Err(VoteError::InvalidSessionId);
            },
            Some(c) => c,
        };
        let user_hash = challenge_data.user_hash;
        let pending_vote = match self.db.get_pending_vote(user_hash) {
            None => {
                return Err(VoteError::PendingVoteMissing);
            },
            Some(v) => v,
        };
        if pending_vote != req.vote {
            return Err(VoteError::PendingVoteMismatch);
        }
        let user_data = match self.db.get_user(user_hash) {
            None => {
                return Err(VoteError::UserMissing);
            },
            Some(u) => u,
        };
        let verified = user_data.key.verify(
            &self.params,
            &challenge_data.ka,
            &challenge_data.kb,
            &challenge_data.challenge,
            &req.solution,
        );
        if !verified {
            return Err(VoteError::SolutionNotVerified);
        }
        let removed = self.db.remove_challenge(&req.auth_session_id);
        if !removed {
            // cannot happen with one request at a time: the challenge was
            // just found and nothing else deletes it
            return Err(VoteError::ChallengeRace);
        }
        let ghost mid = self.db@;
        let pending_vote = match self.db.get_and_remove_pending_vote(user_hash) {
            None => {
                return Err(VoteError::PendingVoteRace);
            },
            Some(v) => v,
        };
        let added = self.db.add_vote(user_hash, pending_vote);
        if !added {
            return Err(VoteError::VoteRace);
        }
        proof {
            let sid = req.auth_session_id@;
            let v = self.db@;
            let oldv = old(self)@.db;
            assert forall|sid2: Seq<char>| #[trigger] v.challenges.dom().contains(sid2)
                implies v.pending_votes.dom().contains(v.challenges[sid2].user_hash) by {
                assert(oldv.challenges.dom().contains(sid2));
                assert(sid2 != sid);
                assert(oldv.pending_votes.dom().contains(oldv.challenges[sid2].user_hash));
                assert(oldv.challenges[sid2].user_hash != oldv.challenges[sid].user_hash);
            }
            assert forall|s1: Seq<char>, s2: Seq<char>|
                #[trigger] v.challenges.dom().contains(s1) && #[trigger] v.challenges.dom()
                    .contains(s2) && s1 != s2
                implies v.challenges[s1].user_hash != v.challenges[s2].user_hash by {
                assert(oldv.challenges.dom().contains(s1));
                assert(oldv.challenges.dom().contains(s2));
            }
            assert(db_inv(v));
            assert({
                &&& oldv.challenges.dom().contains(sid)
                &&& oldv.pending_votes.dom().contains(user_hash)
                &&& oldv.pending_votes[user_hash] == req.vote
                &&& oldv.registered_users.dom().contains(user_hash)
                &&& v.challenges == oldv.challenges.remove(sid)
                &&& v.pending_votes == oldv.pending_votes.remove(user_hash)
                &&& v.votes == oldv.votes.insert(user_hash, req.vote)
                &&& v.registered_ids == oldv.registered_ids
                &&& v.active_registration_codes == oldv.active_registration_codes
                &&& v.registered_users == oldv.registered_users
            });
        }
        Ok(ValidateVoteRes {  })
    }
}

impl AnonVoteImpl {
    /// The recorded ballots, in insertion order.
    pub closed spec fn votes_entries(&self) -> Seq<(u64, u32)> {
        self.db.votes_entries()
    }

    /// The vote map is the association of the recorded-ballot list.
    pub proof fn lemma_votes_entries(&self)
        ensures
            self@.db.votes == crate::store::u64_map_of(self.votes_entries()),
    {
        self.db.lemma_votes_entries();
    }

    /// Wire votes are 1-based, and the invariant keeps every stored ballot
    /// in range, so no recorded ballot names candidate 0.
    pub proof fn lemma_tally_slot_zero(&self)
        requires
            self.inv(),
        ensures
            crate::db::count_votes(self.votes_entries(), 0) == 0,
    {
        self.db.lemma_entries_in_map();
        assert forall|i: int| 0 <= i < self.votes_entries().len() implies (
        #[trigger] self.votes_entries()[i]).1 != 0 by {
            let h = self.votes_entries()[i].0;
            assert(self.db@.votes.dom().contains(h));
            assert(vote_ok(self.db@.votes[h], self.vote_option_count));
        }
        crate::db::lemma_count_votes_none(self.votes_entries(), 0);
    }

    /// The current tally, as the store reports it; entry 0 stays 0.
    pub fn get_vote_results(&self) -> (r: Vec<u64>)
        requires
            self.inv(),
        ensures
            r@.len() == 4,
            forall|v: int|
                0 <= v < 4 ==> r@[v] == crate::db::count_votes(self.votes_entries(), v as u32),
            r@[0] == 0,
    {
        proof {
            self.lemma_tally_slot_zero();
        }
        self.db.get_vote_results()
    }
}

/// A recorded ballot is at most one per voter: a voter with a pending
/// ballot has none recorded yet, so promoting the pending ballot records a
/// first vote for that voter and touches nobody else's.
pub proof fn lemma_at_most_one_vote(v: DbView, h: u64, vote: u32)
    requires
        db_inv(v),
        v.pending_votes.dom().contains(h),
    ensures
        !v.votes.dom().contains(h),
        forall|h2: u64|
            h2 != h && v.votes.dom().contains(h2) ==> #[trigger] v.votes.insert(h, vote)[h2]
                == v.votes[h2],
        v.votes.insert(h, vote)[h] == vote,
{
}

/// A recorded ballot always belongs to a registered voter, and the voter's
/// pending ballot is gone: the only path to a recorded vote runs through
/// registration and a pending ballot.
pub proof fn lemma_voted_implies_registered(v: DbView, h: u64)
    requires
        db_inv(v),
        v.votes.dom().contains(h),
    ensures
        v.registered_users.dom().contains(h),
        !v.pending_votes.dom().contains(h),
{
}

/// A consumed registration code cannot be consumed again; a code put back
/// after a registration conflict restores exactly the earlier set, so it
/// can be consumed exactly once more.
pub proof fn lemma_code_single_use(codes: Set<Seq<char>>, code: Seq<char>)
    requires
        codes.contains(code),
    ensures
        !codes.remove(code).contains(code),
        codes.remove(code).insert(code) == codes,
{
    assert(codes.remove(code).insert(code) =~= codes);
}

/// A closed session cannot be closed again: once the challenge is deleted,
/// the session id no longer names one.
pub proof fn lemma_session_single_use(challenges: Map<Seq<char>, ChallengeData>, sid: Seq<char>)
    requires
        challenges.dom().contains(sid),
    ensures
        !challenges.remove(sid).dom().contains(sid),
{
}

} // verus!
