//! A value-streaming escrow.
//!
//! An initializer deposits a fixed principal (`limit`) into a custody vault;
//! value is metered out to a taker in discrete steps at a fixed per-step
//! `rate`; either party can trigger settlement, which splits the vault between
//! the taker (`rate * step`) and the initializer (the remainder) and
//! permanently closes the stream.
//!
//! The crate is organised by component:
//!
//! - [`ledger`]: the custody ledger the escrow drives, specified at its
//!   interface (transfer, authority reassignment, account closure).
//! - [`auth`]: the authorization guard comparing caller identities to roles.
//! - [`record`]: the persisted stream record.
//! - [`meter`]: the step meter with its bounded, monotonic progression.
//! - [`settlement`]: the split-payment arithmetic.
//! - [`custody`]: funding and settling a vault as all-or-nothing units.
//! - [`lifecycle`]: the top-level state machine
//!   create -> tick* -> (cancel | withdraw) -> closed.

pub mod auth;
pub mod custody;
pub mod errors;
pub mod ledger;
pub mod lifecycle;
pub mod meter;
pub mod record;
pub mod settlement;
