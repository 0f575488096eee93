//! The parameters of a benchmark dataset, as plain integers.
use vstd::prelude::*;

use crate::lcg::UNIT;

verus! {

/// What a dataset is generated from.
///
/// Probabilities are given as cutoffs over `UNIT`: a fraction drawn from the generator is a
/// numerator `f < UNIT`, and "`f / UNIT` is below probability `q`" is the same as "`f` is
/// below `ceil(q * UNIT)`", which is the cutoff stored here.
pub struct DatasetParams {
    /// Number of User entities.
    pub users: usize,
    /// Number of Document entities.
    pub documents: usize,
    /// Number of Cedar policies to generate.
    pub policies: usize,
    /// Number of authorization requests.
    pub requests: usize,
    /// Number of distinct departments.
    pub departments: usize,
    /// Number of distinct teams inside each department.
    pub teams: usize,
    /// Extra scalar attributes per entity beyond the structural ones.
    pub attributes_per_entity: usize,
    /// Seed of the generator.
    pub random_seed: u64,
    /// Fractions below this cutoff pick the `read` action.
    pub read_cutoff: u64,
    /// Fractions at or above `read_cutoff` and below this one pick `update`; the rest `delete`.
    pub update_cutoff: u64,
    /// Fractions below this cutoff pick the principal among the hot users.
    pub hot_user_cutoff: u64,
    /// Fractions below this cutoff pick the resource among the hot documents.
    pub hot_doc_cutoff: u64,
}

impl DatasetParams {
    /// One user in this many is a manager (users whose index is a multiple of it).
    pub open spec fn manager_period(&self) -> int {
        manager_period_spec(self.users, self.departments, self.teams)
    }

    /// The sizes for which building the entities neither panics nor overflows: documents
    /// need an owner, and the department-team grid and the entity list must fit in a `usize`.
    pub open spec fn entities_fit(&self) -> bool {
        &&& self.documents > 0 ==> self.users > 0
        &&& self.departments * self.teams <= usize::MAX
        &&& 4 + self.users + self.documents <= usize::MAX
    }

    /// The sizes for which building the policies does not divide by zero: every policy
    /// names a department, and from the fourth on some name a team.
    pub open spec fn policies_fit(&self) -> bool {
        &&& self.policies > 0 ==> self.departments > 0
        &&& self.policies > 3 ==> self.teams > 0
    }

    /// The sizes and cutoffs for which building the requests stays within the entities: a
    /// request needs a user and a document, and when there is a single user (or document) it
    /// is the hot one, which the cutoff must always select, as probability 1 does.
    pub open spec fn requests_fit(&self) -> bool {
        &&& self.requests > 0 ==> self.users > 0 && self.documents > 0
        &&& self.users == 1 ==> self.hot_user_cutoff >= UNIT
        &&& self.documents == 1 ==> self.hot_doc_cutoff >= UNIT
        &&& 2 * self.documents <= usize::MAX
    }
}

/// `users / max(departments * teams, 1)`, but at least 5.
pub open spec fn manager_period_spec(users: usize, departments: usize, teams: usize) -> int {
    let cells = if departments * teams > 1 { departments * teams } else { 1 };
    let per_cell = users as int / cells;
    if per_cell > 5 { per_cell } else { 5 }
}

/// One user in `manager_every(..)` is a manager.
pub fn manager_every(users: usize, departments: usize, teams: usize) -> (period: usize)
    requires
        departments * teams <= usize::MAX,
    ensures
        period as int == manager_period_spec(users, departments, teams),
        period >= 5,
{
    let cells = departments * teams;
    let cells = if cells > 1 { cells } else { 1 };
    let per_cell = users / cells;
    if per_cell > 5 { per_cell } else { 5 }
}

/// Number of hot users: the top 5% (at least one).
pub open spec fn hot_users_spec(users: usize) -> usize {
    if users / 20 > 1 { (users / 20) as usize } else { 1 }
}

/// Number of hot documents: the top 2% (at least one).
pub open spec fn hot_docs_spec(documents: usize) -> usize {
    if documents / 50 > 1 { (documents / 50) as usize } else { 1 }
}

/// Number of hot users among `users`.
pub fn hot_users(users: usize) -> (n: usize)
    ensures
        n == hot_users_spec(users),
{
    let n = users / 20;
    if n > 1 { n } else { 1 }
}

/// Number of hot documents among `documents`.
pub fn hot_docs(documents: usize) -> (n: usize)
    ensures
        n == hot_docs_spec(documents),
{
    let n = documents / 50;
    if n > 1 { n } else { 1 }
}

} // verus!
