//! Requests and responses of the four-step voting surface, and the error
//! kinds the engine reports.

use vstd::prelude::*;

verus! {

pub struct ValidateIdReq {
    pub id: String,
}

#[derive(Debug)]
pub struct ValidateIdRes {
    pub registration_key: String,
}

pub struct RegisterReq {
    pub registration_key: String,
    pub a: Vec<u8>,
    pub b: Vec<u8>,
    pub alpha: Vec<u8>,
    pub beta: Vec<u8>,
}

#[derive(Debug)]
pub struct RegisterRes {}

pub struct VoteReq {
    pub vote: u32,
    pub a: Vec<u8>,
    pub b: Vec<u8>,
    pub alpha: Vec<u8>,
    pub beta: Vec<u8>,
    pub ka: Vec<u8>,
    pub kb: Vec<u8>,
}

#[derive(Debug)]
pub struct VoteRes {
    pub auth_session_id: String,
    pub challenge: Vec<u8>,
}

pub struct ValidateVoteReq {
    pub auth_session_id: String,
    pub vote: u32,
    pub solution: Vec<u8>,
}

#[derive(Debug)]
pub struct ValidateVoteRes {}

/// The transport status a failure maps to.
#[derive(Debug, Clone, Copy, PartialEq, Eq, Structural)]
pub enum StatusCode {
    InvalidArgument,
    AlreadyExists,
    Internal,
}

/// Every way a request can fail, one variant per distinct outcome.
#[derive(Debug, Clone, Copy, PartialEq, Eq, Structural)]
pub enum VoteError {
    /// The identity string failed validation.
    IdentificationFailed,
    /// The identity already minted a registration code.
    IdAlreadyUsed,
    /// A public-key component was zero.
    InvalidUserData,
    /// The registration code is unknown or already consumed.
    InvalidRegistrationKey,
    /// The public key is already registered.
    DuplicatePublicKey,
    /// The candidate index is out of range.
    InvalidVote,
    /// The public key is not registered.
    UserNotRegistered,
    /// A final ballot is already recorded for this voter.
    UserAlreadyVoted,
    /// A candidate ballot is already awaiting its challenge.
    PendingVoteExists,
    /// The freshly drawn session id collided with an open session.
    SessionCollision,
    /// Repeated draws of a registration code all collided with active codes.
    CodeCollision,
    /// The session id does not name an open challenge.
    InvalidSessionId,
    /// The pending ballot behind the session is gone.
    PendingVoteMissing,
    /// The pending ballot does not match the submitted vote.
    PendingVoteMismatch,
    /// The voter behind the session is gone.
    UserMissing,
    /// The response failed the verification equations.
    SolutionNotVerified,
    /// Another consumer raced this session's challenge away.
    ChallengeRace,
    /// Another consumer raced the pending ballot away.
    PendingVoteRace,
    /// Another consumer recorded this voter's ballot first.
    VoteRace,
}

impl VoteError {
    /// The status kind of each failure.
    pub open spec fn code_spec(self) -> StatusCode {
        match self {
            VoteError::IdentificationFailed => StatusCode::InvalidArgument,
            VoteError::IdAlreadyUsed => StatusCode::AlreadyExists,
            VoteError::InvalidUserData => StatusCode::InvalidArgument,
            VoteError::InvalidRegistrationKey => StatusCode::InvalidArgument,
            VoteError::DuplicatePublicKey => StatusCode::AlreadyExists,
            VoteError::InvalidVote => StatusCode::InvalidArgument,
            VoteError::UserNotRegistered => StatusCode::InvalidArgument,
            VoteError::UserAlreadyVoted => StatusCode::AlreadyExists,
            VoteError::PendingVoteExists => StatusCode::AlreadyExists,
            VoteError::SessionCollision => StatusCode::Internal,
            VoteError::CodeCollision => StatusCode::Internal,
            VoteError::InvalidSessionId => StatusCode::InvalidArgument,
            VoteError::PendingVoteMissing => StatusCode::InvalidArgument,
            VoteError::PendingVoteMismatch => StatusCode::InvalidArgument,
            VoteError::UserMissing => StatusCode::InvalidArgument,
            VoteError::SolutionNotVerified => StatusCode::InvalidArgument,
            VoteError::ChallengeRace => StatusCode::Internal,
            VoteError::PendingVoteRace => StatusCode::Internal,
            VoteError::VoteRace => StatusCode::Internal,
        }
    }

    pub fn code(&self) -> (r: StatusCode)
        ensures
            r == self.code_spec(),
    {
        match self {
            VoteError::IdentificationFailed => StatusCode::InvalidArgument,
            VoteError::IdAlreadyUsed => StatusCode::AlreadyExists,
            VoteError::InvalidUserData => StatusCode::InvalidArgument,
            VoteError::InvalidRegistrationKey => StatusCode::InvalidArgument,
            VoteError::DuplicatePublicKey => StatusCode::AlreadyExists,
            VoteError::InvalidVote => StatusCode::InvalidArgument,
            VoteError::UserNotRegistered => StatusCode::InvalidArgument,
            VoteError::UserAlreadyVoted => StatusCode::AlreadyExists,
            VoteError::PendingVoteExists => StatusCode::AlreadyExists,
            VoteError::SessionCollision => StatusCode::Internal,
            VoteError::CodeCollision => StatusCode::Internal,
            VoteError::InvalidSessionId => StatusCode::InvalidArgument,
            VoteError::PendingVoteMissing => StatusCode::InvalidArgument,
            VoteError::PendingVoteMismatch => StatusCode::InvalidArgument,
            VoteError::UserMissing => StatusCode::InvalidArgument,
            VoteError::SolutionNotVerified => StatusCode::InvalidArgument,
            VoteError::ChallengeRace => StatusCode::Internal,
            VoteError::PendingVoteRace => StatusCode::Internal,
            VoteError::VoteRace => StatusCode::Internal,
        }
    }

    /// The characters of each failure's account.
    pub open spec fn message_spec(self) -> Seq<char> {
        match self {
            VoteError::IdentificationFailed => "User identification failed!"@,
            VoteError::IdAlreadyUsed => "This ID already generated code!"@,
            VoteError::InvalidUserData => "Invalid user data!"@,
            VoteError::InvalidRegistrationKey => "Invalid registration key!"@,
            VoteError::DuplicatePublicKey => "User with this public key already exists! Please try again."@,
            VoteError::InvalidVote => "Invalid vote!"@,
            VoteError::UserNotRegistered => "User not registered!"@,
            VoteError::UserAlreadyVoted => "User already voted!"@,
            VoteError::PendingVoteExists => "This user already has pending vote!"@,
            VoteError::SessionCollision => "Internal error, please try again!"@,
            VoteError::CodeCollision => "Internal error, please try again!"@,
            VoteError::InvalidSessionId => "Invalid session id!"@,
            VoteError::PendingVoteMissing => "The pending vote linked with this session no longer exists!"@,
            VoteError::PendingVoteMismatch => "The pending vote does not match the vote provided!"@,
            VoteError::UserMissing => "The user linked with this session no longer exists."@,
            VoteError::SolutionNotVerified => "The solution provided is not verified!"@,
            VoteError::ChallengeRace => "Internal error E0001!"@,
            VoteError::PendingVoteRace => "Internal error E0002!"@,
            VoteError::VoteRace => "Internal error E0003!"@,
        }
    }

    /// A short human-readable account of the failure.
    pub fn message(&self) -> (r: String)
        ensures
            r@ == self.message_spec(),
    {
        match self {
            VoteError::IdentificationFailed => "User identification failed!".to_string(),
            VoteError::IdAlreadyUsed => "This ID already generated code!".to_string(),
            VoteError::InvalidUserData => "Invalid user data!".to_string(),
            VoteError::InvalidRegistrationKey => "Invalid registration key!".to_string(),
            VoteError::DuplicatePublicKey => "User with this public key already exists! Please try again.".to_string(),
            VoteError::InvalidVote => "Invalid vote!".to_string(),
            VoteError::UserNotRegistered => "User not registered!".to_string(),
            VoteError::UserAlreadyVoted => "User already voted!".to_string(),
            VoteError::PendingVoteExists => "This user already has pending vote!".to_string(),
            VoteError::SessionCollision => "Internal error, please try again!".to_string(),
            VoteError::CodeCollision => "Internal error, please try again!".to_string(),
            VoteError::InvalidSessionId => "Invalid session id!".to_string(),
            VoteError::PendingVoteMissing => "The pending vote linked with this session no longer exists!".to_string(),
            VoteError::PendingVoteMismatch => "The pending vote does not match the vote provided!".to_string(),
            VoteError::UserMissing => "The user linked with this session no longer exists.".to_string(),
            VoteError::SolutionNotVerified => "The solution provided is not verified!".to_string(),
            VoteError::ChallengeRace => "Internal error E0001!".to_string(),
            VoteError::PendingVoteRace => "Internal error E0002!".to_string(),
            VoteError::VoteRace => "Internal error E0003!".to_string(),
        }
    }
}

} // verus!
