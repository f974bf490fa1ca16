//! Verified core of the amFOSS daemon: the decisions a Discord bot makes
//! about log filters, reaction roles, member streaks and the replies it
//! reads from its GraphQL backend.

pub mod commands;
pub mod config;
pub mod date;
pub mod decimal;
pub mod graphql;
pub mod json;
pub mod reaction_roles;
pub mod trace;

use vstd::prelude::*;

verus! {

/// The name of this crate, as the `tracing` targets of its log lines carry it.
pub const CRATE_NAME: &'static str = "amd";

} // verus!
