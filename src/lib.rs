//! A local credential store with an access-control policy: user records,
//! password digests, the text form of the store, login, and the rules that
//! decide which account changes an actor may make.

pub mod account;
pub mod auth;
pub mod codec;
pub mod digest;
pub mod policy;
pub mod round_trip;
pub mod user;
