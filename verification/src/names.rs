//! Names of departments, teams, clearance levels and actions used throughout the dataset.
use vstd::prelude::*;
use vstd::string::*;

use crate::text::{dec, push_decimal};

verus! {

/// The name of department `i`: one of eight fixed names, then `dept_other`.
pub open spec fn dept_name_spec(i: nat) -> Seq<char> {
    if i == 0 {
        "engineering"@
    } else if i == 1 {
        "finance"@
    } else if i == 2 {
        "legal"@
    } else if i == 3 {
        "hr"@
    } else if i == 4 {
        "sales"@
    } else if i == 5 {
        "ops"@
    } else if i == 6 {
        "research"@
    } else if i == 7 {
        "security"@
    } else {
        "dept_other"@
    }
}

/// The name of team `team` of department `dept`: `<department>_<team>`.
pub open spec fn team_name_spec(dept: nat, team: nat) -> Seq<char> {
    dept_name_spec(dept) + "_"@ + dec(team)
}

/// The name of clearance level `level`; every level from 3 on is `secret`.
pub open spec fn clearance_spec(level: nat) -> Seq<char> {
    if level == 0 {
        "public"@
    } else if level == 1 {
        "internal"@
    } else if level == 2 {
        "confidential"@
    } else {
        "secret"@
    }
}

/// The name of department `i`.
pub fn dept_name(i: usize) -> (name: &'static str)
    ensures
        name@ == dept_name_spec(i as nat),
{
    match i {
        0 => "engineering",
        1 => "finance",
        2 => "legal",
        3 => "hr",
        4 => "sales",
        5 => "ops",
        6 => "research",
        7 => "security",
        _ => "dept_other",
    }
}

/// The name of team `team` inside department `dept`.
pub fn team_name(dept: usize, team: usize) -> (name: String)
    ensures
        name@ == team_name_spec(dept as nat, team as nat),
{
    let mut name = String::from_str(dept_name(dept));
    name.append("_");
    push_decimal(&mut name, team);
    name
}

/// The name of clearance level `level`.
pub fn clearance_str(level: usize) -> (name: &'static str)
    ensures
        name@ == clearance_spec(level as nat),
{
    match level {
        0 => "public",
        1 => "internal",
        2 => "confidential",
        _ => "secret",
    }
}

/// The four actions of the dataset, in the order their entities are listed.
#[derive(Clone, Copy, Debug, PartialEq, Eq, Structural)]
pub enum Action {
    Read,
    Update,
    Delete,
    Admin,
}

/// The identifier of an action.
pub open spec fn action_name_spec(a: Action) -> Seq<char> {
    match a {
        Action::Read => "read"@,
        Action::Update => "update"@,
        Action::Delete => "delete"@,
        Action::Admin => "admin"@,
    }
}

/// The action listed at position `k` (0 to 3) among the action entities.
pub open spec fn action_at(k: nat) -> Action {
    if k == 0 {
        Action::Read
    } else if k == 1 {
        Action::Update
    } else if k == 2 {
        Action::Delete
    } else {
        Action::Admin
    }
}

impl Action {
    /// The identifier of the action.
    pub fn name(&self) -> (name: &'static str)
        ensures
            name@ == action_name_spec(*self),
    {
        match self {
            Action::Read => "read",
            Action::Update => "update",
            Action::Delete => "delete",
            Action::Admin => "admin",
        }
    }
}

} // verus!
