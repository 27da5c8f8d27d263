//! The core of a naval-combat game between players who do not trust each
//! other. Every player commits to a hidden fleet on a 10×10 grid; shots
//! and their outcomes are proved in zero knowledge, signed with Dilithium2,
//! and taken by a chain that keeps the state of every game. A turn token,
//! encrypted to its holder, says whose turn it is.
//!
//! - `board`, `layout`, `validate`: what a legal fleet is, and the validator.
//! - `digest`, `encoding`, `signing`, `token`: commitments, base 64,
//!   signatures and the turn token.
//! - `types`, `guest`: the records of the protocol and the six proof
//!   programs.
//! - `registry`, `states`, `rules`, `handlers`, `authenticate`, `node`: the
//!   chain, its rules, and the handlers that enforce them.
//! - `form`, `actions`: what the client of a player works out.
//! - `laws`: what holds of the protocol as a whole.

pub mod actions;
pub mod authenticate;
pub mod board;
pub mod digest;
pub mod encoding;
pub mod form;
pub mod guest;
pub mod handlers;
pub mod laws;
pub mod layout;
pub mod node;
pub mod registry;
pub mod rules;
pub mod signing;
pub mod states;
pub mod token;
pub mod types;
pub mod validate;
