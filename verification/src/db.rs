//! The server's in-memory state: six independent collections with small,
//! total operations. Every operation either succeeds or leaves the
//! collection it targets unchanged, and each one says exactly which
//! collection changed and how.

use vstd::prelude::*;
use crate::model::{UserData, ChallengeData};
use crate::hash::user_hash;
use crate::store::{u64_keys_unique, u64_map_of, lemma_u64_map_entry, lemma_u64_map_push,
    lemma_u64_map_remove, lemma_u64_map_absent, find_u64_key, str_keys_unique, str_map_of,
    lemma_str_map_entry, lemma_str_map_push, lemma_str_map_remove, lemma_str_map_absent,
    find_str_key, str_elems_unique, str_set_of, lemma_str_set_push, lemma_str_set_remove,
    find_str, lemma_str_set_absent};

verus! {

/// Abstract state of the six collections.
pub struct DbView {
    pub registered_ids: Set<Seq<char>>,
    pub active_registration_codes: Set<Seq<char>>,
    pub registered_users: Map<u64, UserData>,
    pub pending_votes: Map<u64, u32>,
    pub votes: Map<u64, u32>,
    pub challenges: Map<Seq<char>, ChallengeData>,
}

/// How many entries of the vote list carry the candidate index `v`.
pub open spec fn count_votes(s: Seq<(u64, u32)>, v: u32) -> nat
    decreases s.len(),
{
    if s.len() == 0 {
        0
    } else {
        count_votes(s.drop_last(), v) + if s.last().1 == v {
            1nat
        } else {
            0nat
        }
    }
}

/// A candidate index that no entry of the list carries is counted zero
/// times.
pub proof fn lemma_count_votes_none(s: Seq<(u64, u32)>, v: u32)
    requires
        forall|i: int| 0 <= i < s.len() ==> (#[trigger] s[i]).1 != v,
    ensures
        count_votes(s, v) == 0,
    decreases s.len(),
{
    if s.len() > 0 {
        lemma_count_votes_none(s.drop_last(), v);
    }
}

pub struct AnonVoteDB {
    registered_ids: Vec<String>,
    active_registration_codes: Vec<String>,
    registered_users: Vec<(u64, UserData)>,
    pending_votes: Vec<(u64, u32)>,
    votes: Vec<(u64, u32)>,
    challenge_map: Vec<(String, ChallengeData)>,
}

impl View for AnonVoteDB {
    type V = DbView;

    closed spec fn view(&self) -> DbView {
        DbView {
            registered_ids: str_set_of(self.registered_ids@),
            active_registration_codes: str_set_of(self.active_registration_codes@),
            registered_users: u64_map_of(self.registered_users@),
            pending_votes: u64_map_of(self.pending_votes@),
            votes: u64_map_of(self.votes@),
            challenges: str_map_of(self.challenge_map@),
        }
    }
}

impl AnonVoteDB {
    /// No collection repeats a key.
    pub closed spec fn wf(&self) -> bool {
        &&& str_elems_unique(self.registered_ids@)
        &&& str_elems_unique(self.active_registration_codes@)
        &&& u64_keys_unique(self.registered_users@)
        &&& u64_keys_unique(self.pending_votes@)
        &&& u64_keys_unique(self.votes@)
        &&& str_keys_unique(self.challenge_map@)
    }

    /// The recorded ballots, in insertion order.
    pub closed spec fn votes_entries(&self) -> Seq<(u64, u32)> {
        self.votes@
    }

    /// The vote map is the association of the recorded ballot entries.
    pub proof fn lemma_votes_entries(&self)
        ensures
            self@.votes == u64_map_of(self.votes_entries()),
    {
    }

    /// Each recorded ballot entry is the vote map's binding for its voter.
    pub proof fn lemma_entries_in_map(&self)
        requires
            self.wf(),
        ensures
            forall|i: int|
                0 <= i < self.votes_entries().len() ==> self@.votes.dom().contains(
                    (#[trigger] self.votes_entries()[i]).0,
                ) && self@.votes[self.votes_entries()[i].0] == self.votes_entries()[i].1,
    {
        assert forall|i: int| 0 <= i < self.votes_entries().len() implies self@.votes.dom()
            .contains((#[trigger] self.votes_entries()[i]).0) && self@.votes[self.votes_entries(
        )[i].0] == self.votes_entries()[i].1 by {
            lemma_u64_map_entry(self.votes@, i);
        }
    }

    /// Opens an empty store.
    pub fn connect() -> (r: AnonVoteDB)
        ensures
            r.wf(),
            r@.registered_ids == Set::<Seq<char>>::empty(),
            r@.active_registration_codes == Set::<Seq<char>>::empty(),
            r@.registered_users == Map::<u64, UserData>::empty(),
            r@.pending_votes == Map::<u64, u32>::empty(),
            r@.votes == Map::<u64, u32>::empty(),
            r@.challenges == Map::<Seq<char>, ChallengeData>::empty(),
    {
        let db = AnonVoteDB {
            registered_ids: Vec::new(),
            active_registration_codes: Vec::new(),
            registered_users: Vec::new(),
            pending_votes: Vec::new(),
            votes: Vec::new(),
            challenge_map: Vec::new(),
        };
        proof {
            assert(db@.registered_ids =~= Set::<Seq<char>>::empty());
            assert(db@.active_registration_codes =~= Set::<Seq<char>>::empty());
            assert(db@.registered_users =~= Map::<u64, UserData>::empty());
            assert(db@.pending_votes =~= Map::<u64, u32>::empty());
            assert(db@.votes =~= Map::<u64, u32>::empty());
            assert(db@.challenges =~= Map::<Seq<char>, ChallengeData>::empty());
        }
        db
    }

    /// Records an identity string; fails exactly when it was seen before.
    pub fn add_registered_id(&mut self, id: String) -> (r: bool)
        requires
            old(self).wf(),
        ensures
            final(self).wf(),
            r == !old(self)@.registered_ids.contains(id@),
            final(self)@.registered_ids == old(self)@.registered_ids.insert(id@),
            final(self)@.active_registration_codes == old(self)@.active_registration_codes,
            final(self)@.registered_users == old(self)@.registered_users,
            final(self)@.pending_votes == old(self)@.pending_votes,
            final(self)@.votes == old(self)@.votes,
            final(self)@.challenges == old(self)@.challenges,
    {
        match find_str(&self.registered_ids, &id) {
            Some(i) => {
                proof {
                    assert(old(self)@.registered_ids.insert(id@) =~= old(self)@.registered_ids);
                }
                false
            },
            None => {
                proof {
                    lemma_str_set_absent(self.registered_ids@, id@);
                    lemma_str_set_push(self.registered_ids@, id);
                }
                self.registered_ids.push(id);
                true
            },
        }
    }

    /// Adds a fresh one-shot registration code; fails exactly when an equal
    /// code is still active.
    pub fn add_registration_code(&mut self, code: String) -> (r: bool)
        requires
            old(self).wf(),
        ensures
            final(self).wf(),
            r == !old(self)@.active_registration_codes.contains(code@),
            final(self)@.active_registration_codes == old(
                self,
            )@.active_registration_codes.insert(code@),
            final(self)@.registered_ids == old(self)@.registered_ids,
            final(self)@.registered_users == old(self)@.registered_users,
            final(self)@.pending_votes == old(self)@.pending_votes,
            final(self)@.votes == old(self)@.votes,
            final(self)@.challenges == old(self)@.challenges,
    {
        match find_str(&self.active_registration_codes, &code) {
            Some(i) => {
                proof {
                    assert(old(self)@.active_registration_codes.insert(code@) =~= old(
                        self,
                    )@.active_registration_codes);
                }
                false
            },
            None => {
                proof {
                    lemma_str_set_absent(self.active_registration_codes@, code@);
                    lemma_str_set_push(self.active_registration_codes@, code);
                }
                self.active_registration_codes.push(code);
                true
            },
        }
    }

    /// Consumes a one-shot code: removes it and reports whether it was
    /// active.
    pub fn use_registration_code(&mut self, code: &String) -> (r: bool)
        requires
            old(self).wf(),
        ensures
            final(self).wf(),
            r == old(self)@.active_registration_codes.contains(code@),
            final(self)@.active_registration_codes == old(
                self,
            )@.active_registration_codes.remove(code@),
            final(self)@.registered_ids == old(self)@.registered_ids,
            final(self)@.registered_users == old(self)@.registered_users,
            final(self)@.pending_votes == old(self)@.pending_votes,
            final(self)@.votes == old(self)@.votes,
            final(self)@.challenges == old(self)@.challenges,
    {
        match find_str(&self.active_registration_codes, code) {
            Some(i) => {
                proof {
                    lemma_str_set_remove(self.active_registration_codes@, i as int);
                }
                self.active_registration_codes.remove(i);
                true
            },
            None => {
                proof {
                    lemma_str_set_absent(self.active_registration_codes@, code@);
                    assert(old(self)@.active_registration_codes.remove(code@) =~= old(
                        self,
                    )@.active_registration_codes);
                }
                false
            },
        }
    }

    /// Registers a user under the digest of their key; fails exactly when
    /// that digest is already taken.
    pub fn try_register_user(&mut self, user: UserData) -> (r: bool)
        requires
            old(self).wf(),
        ensures
            final(self).wf(),
            r == !old(self)@.registered_users.dom().contains(user_hash(user@.key)),
            r ==> final(self)@.registered_users == old(self)@.registered_users.insert(
                user_hash(user@.key),
                user,
            ),
            !r ==> final(self)@.registered_users == old(self)@.registered_users,
            final(self)@.registered_ids == old(self)@.registered_ids,
            final(self)@.active_registration_codes == old(self)@.active_registration_codes,
            final(self)@.pending_votes == old(self)@.pending_votes,
            final(self)@.votes == old(self)@.votes,
            final(self)@.challenges == old(self)@.challenges,
    {
        let h = user.get_hash();
        match find_u64_key(&self.registered_users, h) {
            Some(i) => {
                proof {
                    lemma_u64_map_entry(self.registered_users@, i as int);
                }
                false
            },
            None => {
                proof {
                    lemma_u64_map_absent(self.registered_users@, h);
                    lemma_u64_map_push(self.registered_users@, h, user);
                }
                self.registered_users.push((h, user));
                true
            },
        }
    }

    /// Whether a user with this digest is registered.
    pub fn user_registered(&self, user_hash: u64) -> (r: bool)
        requires
            self.wf(),
        ensures
            r == self@.registered_users.dom().contains(user_hash),
    {
        match find_u64_key(&self.registered_users, user_hash) {
            Some(i) => {
                proof {
                    lemma_u64_map_entry(self.registered_users@, i as int);
                }
                true
            },
            None => {
                proof {
                    lemma_u64_map_absent(self.registered_users@, user_hash);
                }
                false
            },
        }
    }

    /// The registered record under this digest, if any.
    pub fn get_user(&self, user_hash: u64) -> (r: Option<&UserData>)
        requires
            self.wf(),
        ensures
            match r {
                Some(u) => self@.registered_users.dom().contains(user_hash)
                    && *u == self@.registered_users[user_hash],
                None => !self@.registered_users.dom().contains(user_hash),
            },
    {
        match find_u64_key(&self.registered_users, user_hash) {
            Some(i) => {
                proof {
                    lemma_u64_map_entry(self.registered_users@, i as int);
                }
                Some(&self.registered_users[i].1)
            },
            None => {
                proof {
                    lemma_u64_map_absent(self.registered_users@, user_hash);
                }
                None
            },
        }
    }

    /// Stores a candidate ballot awaiting its challenge; fails exactly when
    /// one is already pending for this digest.
    pub fn add_pending_vote(&mut self, user_hash: u64, vote: u32) -> (r: bool)
        requires
            old(self).wf(),
        ensures
            final(self).wf(),
            r == !old(self)@.pending_votes.dom().contains(user_hash),
            r ==> final(self)@.pending_votes == old(self)@.pending_votes.insert(user_hash, vote),
            !r ==> final(self)@.pending_votes == old(self)@.pending_votes,
            final(self)@.registered_ids == old(self)@.registered_ids,
            final(self)@.active_registration_codes == old(self)@.active_registration_codes,
            final(self)@.registered_users == old(self)@.registered_users,
            final(self)@.votes == old(self)@.votes,
            final(self)@.challenges == old(self)@.challenges,
    {
        match find_u64_key(&self.pending_votes, user_hash) {
            Some(i) => {
                proof {
                    lemma_u64_map_entry(self.pending_votes@, i as int);
                }
                false
            },
            None => {
                proof {
                    lemma_u64_map_absent(self.pending_votes@, user_hash);
                    lemma_u64_map_push(self.pending_votes@, user_hash, vote);
                }
                self.pending_votes.push((user_hash, vote));
                true
            },
        }
    }

    /// The pending ballot for this digest, if any.
    pub fn get_pending_vote(&self, user_hash: u64) -> (r: Option<u32>)
        requires
            self.wf(),
        ensures
            match r {
                Some(v) => self@.pending_votes.dom().contains(user_hash)
                    && v == self@.pending_votes[user_hash],
                None => !self@.pending_votes.dom().contains(user_hash),
            },
    {
        match find_u64_key(&self.pending_votes, user_hash) {
            Some(i) => {
                proof {
                    lemma_u64_map_entry(self.pending_votes@, i as int);
                }
                Some(self.pending_votes[i].1)
            },
            None => {
                proof {
                    lemma_u64_map_absent(self.pending_votes@, user_hash);
                }
                None
            },
        }
    }

    /// Takes the pending ballot for this digest out of the store.
    pub fn get_and_remove_pending_vote(&mut self, user_hash: u64) -> (r: Option<u32>)
        requires
            old(self).wf(),
        ensures
            final(self).wf(),
            match r {
                Some(v) => old(self)@.pending_votes.dom().contains(user_hash)
                    && v == old(self)@.pending_votes[user_hash],
                None => !old(self)@.pending_votes.dom().contains(user_hash),
            },
            final(self)@.pending_votes == old(self)@.pending_votes.remove(user_hash),
            final(self)@.registered_ids == old(self)@.registered_ids,
            final(self)@.active_registration_codes == old(self)@.active_registration_codes,
            final(self)@.registered_users == old(self)@.registered_users,
            final(self)@.votes == old(self)@.votes,
            final(self)@.challenges == old(self)@.challenges,
    {
        match find_u64_key(&self.pending_votes, user_hash) {
            Some(i) => {
                proof {
                    lemma_u64_map_entry(self.pending_votes@, i as int);
                    lemma_u64_map_remove(self.pending_votes@, i as int);
                }
                let entry = self.pending_votes.remove(i);
                Some(entry.1)
            },
            None => {
                proof {
                    lemma_u64_map_absent(self.pending_votes@, user_hash);
                    assert(old(self)@.pending_votes.remove(user_hash) =~= old(
                        self,
                    )@.pending_votes);
                }
                None
            },
        }
    }

    /// Records a final ballot; fails exactly when one is already recorded
    /// for this digest.
    pub fn add_vote(&mut self, user_hash: u64, vote: u32) -> (r: bool)
        requires
            old(self).wf(),
        ensures
            final(self).wf(),
            r == !old(self)@.votes.dom().contains(user_hash),
            r ==> final(self)@.votes == old(self)@.votes.insert(user_hash, vote),
            r ==> final(self).votes_entries() == old(self).votes_entries().push(
                (user_hash, vote),
            ),
            !r ==> final(self)@.votes == old(self)@.votes,
            !r ==> final(self).votes_entries() == old(self).votes_entries(),
            final(self)@.registered_ids == old(self)@.registered_ids,
            final(self)@.active_registration_codes == old(self)@.active_registration_codes,
            final(self)@.registered_users == old(self)@.registered_users,
            final(self)@.pending_votes == old(self)@.pending_votes,
            final(self)@.challenges == old(self)@.challenges,
    {
        match find_u64_key(&self.votes, user_hash) {
            Some(i) => {
                proof {
                    lemma_u64_map_entry(self.votes@, i as int);
                }
                false
            },
            None => {
                proof {
                    lemma_u64_map_absent(self.votes@, user_hash);
                    lemma_u64_map_push(self.votes@, user_hash, vote);
                }
                self.votes.push((user_hash, vote));
                true
            },
        }
    }

    /// Whether a final ballot is recorded for this digest.
    pub fn user_voted(&self, user_hash: u64) -> (r: bool)
        requires
            self.wf(),
        ensures
            r == self@.votes.dom().contains(user_hash),
    {
        match find_u64_key(&self.votes, user_hash) {
            Some(i) => {
                proof {
                    lemma_u64_map_entry(self.votes@, i as int);
                }
                true
            },
            None => {
                proof {
                    lemma_u64_map_absent(self.votes@, user_hash);
                }
                false
            },
        }
    }

    /// Files a challenge under a session id; fails exactly when the id is
    /// taken.
    pub fn add_challenge(&mut self, session_id: &String, challenge_data: ChallengeData) -> (r:
        bool)
        requires
            old(self).wf(),
        ensures
            final(self).wf(),
            r == !old(self)@.challenges.dom().contains(session_id@),
            r ==> final(self)@.challenges == old(self)@.challenges.insert(
                session_id@,
                challenge_data,
            ),
            !r ==> final(self)@.challenges == old(self)@.challenges,
            final(self)@.registered_ids == old(self)@.registered_ids,
            final(self)@.active_registration_codes == old(self)@.active_registration_codes,
            final(self)@.registered_users == old(self)@.registered_users,
            final(self)@.pending_votes == old(self)@.pending_votes,
            final(self)@.votes == old(self)@.votes,
    {
        match find_str_key(&self.challenge_map, session_id) {
            Some(i) => {
                proof {
                    lemma_str_map_entry(self.challenge_map@, i as int);
                }
                false
            },
            None => {
                let key = session_id.clone();
                proof {
                    lemma_str_map_absent(self.challenge_map@, session_id@);
                    lemma_str_map_push(self.challenge_map@, (key, challenge_data));
                }
                self.challenge_map.push((key, challenge_data));
                true
            },
        }
    }

    /// The challenge filed under a session id, if any.
    pub fn get_challenge(&self, session_id: &String) -> (r: Option<&ChallengeData>)
        requires
            self.wf(),
        ensures
            match r {
                Some(c) => self@.challenges.dom().contains(session_id@)
                    && *c == self@.challenges[session_id@],
                None => !self@.challenges.dom().contains(session_id@),
            },
    {
        match find_str_key(&self.challenge_map, session_id) {
            Some(i) => {
                proof {
                    lemma_str_map_entry(self.challenge_map@, i as int);
                }
                Some(&self.challenge_map[i].1)
            },
            None => {
                proof {
                    lemma_str_map_absent(self.challenge_map@, session_id@);
                }
                None
            },
        }
    }

    /// Deletes the challenge filed under a session id; reports whether one
    /// was there.
    pub fn remove_challenge(&mut self, session_id: &String) -> (r: bool)
        requires
            old(self).wf(),
        ensures
            final(self).wf(),
            r == old(self)@.challenges.dom().contains(session_id@),
            final(self)@.challenges == old(self)@.challenges.remove(session_id@),
            final(self)@.registered_ids == old(self)@.registered_ids,
            final(self)@.active_registration_codes == old(self)@.active_registration_codes,
            final(self)@.registered_users == old(self)@.registered_users,
            final(self)@.pending_votes == old(self)@.pending_votes,
            final(self)@.votes == old(self)@.votes,
    {
        match find_str_key(&self.challenge_map, session_id) {
            Some(i) => {
                proof {
                    lemma_str_map_remove(self.challenge_map@, i as int);
                }
                self.challenge_map.remove(i);
                true
            },
            None => {
                proof {
                    lemma_str_map_absent(self.challenge_map@, session_id@);
                    assert(old(self)@.challenges.remove(session_id@) =~= old(self)@.challenges);
                }
                false
            },
        }
    }

    /// The candidate list; placeholder entries, injected here until a real
    /// list is configured.
    pub fn get_vote_options(&self) -> (r: Vec<String>)
        ensures
            r@.len() == 3,
    {
        let mut v: Vec<String> = Vec::new();
        v.push("First candidate".to_string());
        v.push("Second candidate".to_string());
        v.push("Third candidate".to_string());
        v
    }

    /// How many candidates can be voted for.
    pub fn get_vote_options_count(&self) -> (r: usize)
        ensures
            r == 3,
    {
        3
    }

    /// The tally: entry `v` counts the recorded ballots for candidate `v`,
    /// for `v` up to and including the candidate count (wire votes are
    /// 1-based, so entry 0 stays 0 in normal operation).
    pub fn get_vote_results(&self) -> (r: Vec<u64>)
        requires
            self.wf(),
        ensures
            r@.len() == 4,
            forall|v: int| 0 <= v < 4 ==> r@[v] == count_votes(self.votes_entries(), v as u32),
    {
        let count = self.get_vote_options_count();
        let mut r: Vec<u64> = Vec::new();
        let mut v: usize = 0;
        while v < count + 1
            invariant
                0 <= v <= count + 1,
                count == 3,
                r@.len() == v,
                forall|w: int| 0 <= w < v ==> r@[w] == count_votes(self.votes_entries(), w as u32),
            decreases count + 1 - v,
        {
            let n = self.votes.len();
            let mut acc: u64 = 0;
            let mut i: usize = 0;
            while i < n
                invariant
                    0 <= i <= n,
                    n == self.votes@.len(),
                    v < 4,
                    acc == count_votes(self.votes@.subrange(0, i as int), v as u32),
                    acc <= i,
                decreases n - i,
            {
                proof {
                    assert(self.votes@.subrange(0, (i + 1) as int).drop_last() =~= self.votes@
                        .subrange(0, i as int));
                    assert(self.votes@.subrange(0, (i + 1) as int).last() == self.votes@[i as int]);
                }
                if self.votes[i].1 == v as u32 {
                    acc = acc + 1;
                }
                i += 1;
            }
            proof {
                assert(self.votes@.subrange(0, n as int) =~= self.votes@);
            }
            r.push(acc);
            v += 1;
        }
        r
    }
}

} // verus!
