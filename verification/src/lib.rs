//! An anonymous electronic voting service built on a Chaum-Pedersen
//! zero-knowledge identification protocol over a Schnorr-style prime-order
//! subgroup, with a four-step registration and voting state machine that
//! binds one-time codes to public commitments and enforces at-most-one-vote
//! semantics.

use vstd::prelude::*;

pub mod algebra;
pub mod bignum;
pub mod bytes;
pub mod db;
pub mod hash;
pub mod messages;
pub mod model;
pub mod params;
pub mod server_impl;
pub mod store;
pub mod zkp;

verus! {

} // verus!