//! The records that the backend keeps of a member.

use vstd::prelude::*;

verus! {

/// A member's attendance streak.
#[derive(Clone, Copy, Debug, PartialEq, Eq, Structural)]
pub struct Streak {
    pub current_streak: i32,
    pub max_streak: i32,
}

/// A club member as the backend lists them.
#[derive(Clone, Debug)]
pub struct Member {
    pub member_id: i32,
    pub name: String,
    pub discord_id: String,
    pub group_id: i32,
    pub streak: Vec<Streak>,
    pub track: Option<String>,
}

} // verus!
