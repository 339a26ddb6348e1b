//! Finds the timezone of this host by asking several lookup services and
//! taking what most of them say, and decides the steps by which the system's
//! timezone link is replaced safely and in one step.
//!
//! The crate is verified with Verus. It makes no network or filesystem call:
//! the caller starts the lookups and carries out the filesystem operations,
//! and hands over what they gave.
//!
//! - [`consensus`]: the selection rule as mathematics, and the laws that hold
//!   of it.
//! - [`resolver`]: the rule applied to the signals of a race, one at a time.
//! - [`lookups`]: the channel of the lookup workers, and what was taken from
//!   it.
//! - [`race`]: the two selection modes, run on the lookups and against the
//!   clock.
//! - [`service`]: the lookup services and their addresses.
//! - [`json`]: the way to the timezone in a service's answer.
//! - [`path`]: containment of one canonical path in another.
//! - [`install`]: the decisions of an installation, as a state machine.
//! - [`marker`]: the decisions behind the timezone marker file.
//! - [`seconds`]: the time to wait, read from its text.
//! - [`error`]: how resolving and installing fail.

pub mod consensus;
pub mod error;
pub mod install;
pub mod json;
pub mod lookups;
pub mod marker;
pub mod path;
pub mod race;
pub mod resolver;
pub mod seconds;
pub mod service;
