//! Teams as owners: the data the engine and its callers read about a
//! team, and the decision behind team-membership checks. Creating or
//! querying teams in the store, and asking the code host about
//! membership, are the caller's I/O.
use vstd::prelude::*;

verus! {

/// A team registered as an owner.
#[derive(Debug)]
pub struct Team {
    /// Stable table id.
    pub id: i32,
    /// Opaque unique login, `github:org:team`.
    pub login: Vec<u8>,
    /// The code host's team id; can change if a team is recreated.
    pub github_id: i32,
    /// Display name.
    pub name: Option<Vec<u8>>,
    pub avatar: Option<Vec<u8>>,
    /// The organization the team sits under.
    pub org_id: i32,
}

/// The fields of a team to create or update.
#[derive(Debug)]
pub struct NewTeam {
    pub login: Vec<u8>,
    pub github_id: i32,
    pub name: Option<Vec<u8>>,
    pub avatar: Option<Vec<u8>>,
    pub org_id: i32,
}

/// Whether a membership answer from the code host confirms the user:
/// a membership record exists and is in the active state.
pub fn membership_confirms_user(membership_active: Option<bool>) -> (r: bool)
    ensures
        r == (membership_active == Some(true)),
{
    match membership_active {
        Some(active) => active,
        None => false,
    }
}

} // verus!
