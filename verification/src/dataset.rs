//! A whole benchmark dataset: entities, policies and requests, from one seed.
use vstd::prelude::*;

use crate::entities::{
    build_entities, doc_meta_matches, entities_gen, entity_set_matches,
    lemma_documents_in_owner_department, lemma_entity_ids_unique, lemma_entity_records_agree,
    record_id, records_agree, user_meta_matches, EntitySet,
};
use crate::names::Action;
use crate::lcg::{Lcg, SEED_MASK};
use crate::params::DatasetParams;
use crate::policies::{build_policies, lemma_policy_ids_unique, policies_match, PolicyEntry};
use crate::requests::{
    allowed_count, build_requests, draws_in_range, lemma_allowed_at_most_all, lemma_requests_gen,
    lemma_allowed_count_congruent, lemma_requests_gen_congruent, lemma_requests_never_admin,
    request_matches, requests_gen, same_docs, same_users, AuthRequest,
};

verus! {

/// Everything a dataset is written from.
pub struct Dataset {
    pub entities: EntitySet,
    pub policies: Vec<PolicyEntry>,
    pub requests: Vec<AuthRequest>,
    /// How many requests the policies are expected to allow.
    pub allowed: usize,
}

/// The state the generator starts from for `p`.
pub open spec fn initial_state(p: DatasetParams) -> u64 {
    p.random_seed ^ SEED_MASK
}

/// The state the requests are drawn from: the one the entities leave.
pub open spec fn requests_state(p: DatasetParams) -> u64 {
    entities_gen(p, initial_state(p)).2
}

/// `ds` is the dataset generated for `p`: the entities from the seed, the policies, and the
/// requests from the state the entities leave.
pub open spec fn dataset_matches(ds: Dataset, p: DatasetParams) -> bool {
    let users = ds.entities.users@;
    let docs = ds.entities.docs@;
    let draws = requests_gen(p, users, docs, requests_state(p), p.requests as nat).0;
    &&& entity_set_matches(ds.entities, p, initial_state(p))
    &&& policies_match(ds.policies@, p)
    &&& ds.requests@.len() == p.requests
    &&& forall|i: int| 0 <= i < p.requests ==> request_matches(#[trigger] ds.requests@[i], users, docs, draws[i])
    &&& ds.allowed == allowed_count(users, docs, draws)
}

/// Generates the complete benchmark dataset for `p`: the entities first, then the policies,
/// then the requests, all from one generator seeded with `p.random_seed`.
pub fn build_dataset(p: &DatasetParams) -> (ds: Dataset)
    requires
        p.entities_fit(),
        p.policies_fit(),
        p.requests_fit(),
    ensures
        dataset_matches(ds, *p),
{
    let mut rng = Lcg::new(p.random_seed);
    let entities = build_entities(p, &mut rng);
    let policies = build_policies(p);
    let (requests, allowed) = build_requests(p, &entities.users, &entities.docs, &mut rng);
    Dataset { entities, policies, requests, allowed }
}

/// A generated dataset is consistent: no two entities and no two policies share an
/// identifier; every document belongs to its owner's department; every request names an
/// existing user and an existing document, and an action other than `admin`; and at most
/// all requests are expected to be allowed.
pub proof fn lemma_dataset_consistent(ds: Dataset, p: DatasetParams)
    requires
        p.entities_fit(),
        p.requests_fit(),
        dataset_matches(ds, p),
    ensures
        forall|a: int, b: int|
            0 <= a < b < ds.entities.records@.len() ==> record_id(#[trigger] ds.entities.records@[a])
                != record_id(#[trigger] ds.entities.records@[b]),
        forall|a: int, b: int|
            0 <= a < b < ds.policies@.len() ==> (#[trigger] ds.policies@[a]).id@ != (
            #[trigger] ds.policies@[b]).id@,
        forall|i: int|
            0 <= i < p.documents ==> {
                &&& (#[trigger] ds.entities.docs@[i]).owner_idx < p.users
                &&& ds.entities.docs@[i].dept_idx == ds.entities.users@[ds.entities.docs@[i].owner_idx as int].dept_idx
            },
        ({
            let draws = requests_gen(
                p,
                ds.entities.users@,
                ds.entities.docs@,
                requests_state(p),
                p.requests as nat,
            ).0;
            &&& draws.len() == p.requests
            &&& draws_in_range(draws, p.users as nat, p.documents as nat)
            &&& forall|i: int| 0 <= i < draws.len() ==> (#[trigger] draws[i]).action != Action::Admin
            &&& ds.allowed <= p.requests
        }),
{
    lemma_entity_ids_unique(ds.entities, p, initial_state(p));
    lemma_policy_ids_unique(ds.policies@, p);
    lemma_documents_in_owner_department(ds.entities, p, initial_state(p));
    let users = ds.entities.users@;
    let docs = ds.entities.docs@;
    lemma_requests_gen(p, users, docs, requests_state(p), p.requests as nat);
    lemma_requests_never_admin(p, users, docs, requests_state(p), p.requests as nat);
    lemma_allowed_at_most_all(
        users,
        docs,
        requests_gen(p, users, docs, requests_state(p), p.requests as nat).0,
    );
}

proof fn lemma_entity_sets_agree(a: EntitySet, b: EntitySet, p: DatasetParams, s: u64)
    requires
        entity_set_matches(a, p, s),
        entity_set_matches(b, p, s),
    ensures
        same_users(a.users@, b.users@),
        same_docs(a.docs@, b.docs@),
{
    reveal(user_meta_matches);
    reveal(doc_meta_matches);
    let (us, ds, _s2) = entities_gen(p, s);
    assert forall|i: int| 0 <= i < a.users@.len() implies {
        &&& (#[trigger] a.users@[i]).id@ == b.users@[i].id@
        &&& a.users@[i].dept_idx == b.users@[i].dept_idx
        &&& a.users@[i].team_idx == b.users@[i].team_idx
        &&& a.users@[i].clearance_level == b.users@[i].clearance_level
        &&& a.users@[i].is_manager == b.users@[i].is_manager
    } by {
        assert(user_meta_matches(a.users@[i], p, i as nat, us[i]));
        assert(user_meta_matches(b.users@[i], p, i as nat, us[i]));
    }
    assert forall|i: int| 0 <= i < a.docs@.len() implies {
        &&& (#[trigger] a.docs@[i]).id@ == b.docs@[i].id@
        &&& a.docs@[i].owner_idx == b.docs@[i].owner_idx
        &&& a.docs@[i].dept_idx == b.docs@[i].dept_idx
        &&& a.docs@[i].clearance_level == b.docs@[i].clearance_level
    } by {
        assert(doc_meta_matches(a.docs@[i], i as nat, ds[i], us));
        assert(doc_meta_matches(b.docs@[i], i as nat, ds[i], us));
    }
}

/// The same parameters (seed included) always give the same dataset: the same users and
/// documents, the same entity records with the same attributes, the same policies, the same
/// requests and the same expected-allowed count.
pub proof fn lemma_dataset_deterministic(a: Dataset, b: Dataset, p: DatasetParams)
    requires
        p.entities_fit(),
        p.requests_fit(),
        dataset_matches(a, p),
        dataset_matches(b, p),
    ensures
        same_users(a.entities.users@, b.entities.users@),
        same_docs(a.entities.docs@, b.entities.docs@),
        a.entities.records@.len() == b.entities.records@.len(),
        forall|k: int|
            0 <= k < a.entities.records@.len() ==> records_agree(
                #[trigger] a.entities.records@[k],
                b.entities.records@[k],
            ),
        a.policies@.len() == b.policies@.len(),
        forall|i: int|
            0 <= i < a.policies@.len() ==> (#[trigger] a.policies@[i]).id@ == b.policies@[i].id@
                && a.policies@[i].content@ == b.policies@[i].content@,
        a.requests@.len() == b.requests@.len(),
        forall|i: int|
            0 <= i < a.requests@.len() ==> {
                &&& (#[trigger] a.requests@[i]).principal@ == b.requests@[i].principal@
                &&& a.requests@[i].action@ == b.requests@[i].action@
                &&& a.requests@[i].resource@ == b.requests@[i].resource@
            },
        a.allowed == b.allowed,
{
    let s0 = initial_state(p);
    lemma_entity_sets_agree(a.entities, b.entities, p, s0);
    lemma_entity_records_agree(a.entities, b.entities, p, s0);
    let ua = a.entities.users@;
    let da = a.entities.docs@;
    let ub = b.entities.users@;
    let db = b.entities.docs@;
    let st = requests_state(p);
    let n = p.requests as nat;
    lemma_requests_gen_congruent(p, ua, ub, da, db, st, n);
    lemma_requests_gen(p, ua, da, st, n);
    let draws = requests_gen(p, ua, da, st, n).0;
    lemma_allowed_count_congruent(ua, ub, da, db, draws);
    assert forall|i: int| 0 <= i < a.requests@.len() implies {
        &&& (#[trigger] a.requests@[i]).principal@ == b.requests@[i].principal@
        &&& a.requests@[i].action@ == b.requests@[i].action@
        &&& a.requests@[i].resource@ == b.requests@[i].resource@
    } by {
        assert(request_matches(a.requests@[i], ua, da, draws[i]));
        assert(request_matches(b.requests@[i], ub, db, draws[i]));
        assert(ua[draws[i].user as int].id@ == ub[draws[i].user as int].id@);
        assert(da[draws[i].doc as int].id@ == db[draws[i].doc as int].id@);
    }
}

} // verus!
