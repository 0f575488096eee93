use cedar_agent::bench::{build_policy_set, PoliciesDocument};
use cedar_agent::dataset::build_dataset;
use cedar_agent::nesting::policy_text_within_limit;
use cedar_agent::entities::{EntityRecord, Attribute};
use cedar_agent::lcg::UNIT;
use cedar_agent::params::{hot_docs, hot_users, manager_every, DatasetParams};
use cedar_agent::policies::build_policies;
use cedar_agent::requests::SAME_DEPT_CUTOFF;

// A straightforward generator with floating-point probabilities, to hold the library to.
struct RefLcg(u64);

impl RefLcg {
    fn new(seed: u64) -> Self {
        RefLcg(seed ^ 0xdead_beef_cafe_babe)
    }
    fn next(&mut self) -> u64 {
        self.0 = self.0.wrapping_mul(6364136223846793005).wrapping_add(1442695040888963407);
        self.0
    }
    fn range(&mut self, lo: usize, hi: usize) -> usize {
        if hi <= lo {
            return lo;
        }
        lo + (self.next() as usize % (hi - lo))
    }
    fn frac(&mut self) -> f64 {
        (self.next() >> 11) as f64 / (1u64 << 53) as f64
    }
    fn biased(&mut self, total: usize, hot_count: usize, hot_weight: f64) -> usize {
        let hot = hot_count.min(total);
        let hot_mass = hot as f64 * hot_weight;
        let cold_mass = (total - hot) as f64;
        let p_hot = hot_mass / (hot_mass + cold_mass);
        if self.frac() < p_hot { self.range(0, hot) } else { self.range(hot, total) }
    }
}

struct RefConfig {
    users: usize,
    documents: usize,
    policies: usize,
    requests: usize,
    departments: usize,
    teams: usize,
    attrs: usize,
    read_ratio: f64,
    update_ratio: f64,
    seed: u64,
}

fn cutoff(p: f64) -> u64 {
    if !(p > 0.0) {
        0
    } else if p >= 1.0 {
        UNIT
    } else {
        (p * UNIT as f64).ceil() as u64
    }
}

fn hot_cutoff(total: usize, hot_count: usize, weight: f64) -> u64 {
    let hot = hot_count.min(total);
    let hot_mass = hot as f64 * weight;
    let cold_mass = (total - hot) as f64;
    cutoff(hot_mass / (hot_mass + cold_mass))
}

fn params(c: &RefConfig) -> DatasetParams {
    DatasetParams {
        users: c.users,
        documents: c.documents,
        policies: c.policies,
        requests: c.requests,
        departments: c.departments,
        teams: c.teams,
        attributes_per_entity: c.attrs,
        random_seed: c.seed,
        read_cutoff: cutoff(c.read_ratio),
        update_cutoff: cutoff(c.read_ratio + c.update_ratio),
        hot_user_cutoff: hot_cutoff(c.users, hot_users(c.users), 5.0),
        hot_doc_cutoff: hot_cutoff(c.documents, hot_docs(c.documents), 3.0),
    }
}

const DEPTS: [&str; 8] = ["engineering", "finance", "legal", "hr", "sales", "ops", "research", "security"];

fn dname(i: usize) -> &'static str {
    if i < 8 { DEPTS[i] } else { "dept_other" }
}

fn cname(l: usize) -> &'static str {
    match l {
        0 => "public",
        1 => "internal",
        2 => "confidential",
        _ => "secret",
    }
}

struct RefUser {
    id: String,
    dept: usize,
    team: usize,
    cl: usize,
    mgr: bool,
    extra: Vec<(String, String)>,
}

struct RefDoc {
    id: String,
    owner: usize,
    dept: usize,
    cl: usize,
    extra: Vec<(String, String)>,
}

fn ref_generate(c: &RefConfig) -> (Vec<RefUser>, Vec<RefDoc>, Vec<(String, String, String)>, usize) {
    let mut rng = RefLcg::new(c.seed);
    let manager_every = (c.users / (c.departments * c.teams).max(1)).max(5);
    let mut users = Vec::new();
    for i in 0..c.users {
        let dept = rng.range(0, c.departments);
        let team = rng.range(0, c.teams);
        let cl = rng.range(0, 4);
        let mgr = i % manager_every == 0;
        let mut extra = Vec::new();
        for k in 0..c.attrs {
            extra.push((format!("attr_{k}"), format!("val_{}_{}", k, rng.range(0, 10))));
        }
        users.push(RefUser { id: format!("user_{i:06}"), dept, team, cl, mgr, extra });
    }
    let mut docs = Vec::new();
    for i in 0..c.documents {
        let owner = rng.range(0, c.users);
        let dept = users[owner].dept;
        let cl = rng.range(0, 4);
        let mut extra = Vec::new();
        for k in 0..c.attrs {
            extra.push((format!("attr_{k}"), format!("val_{}_{}", k, rng.range(0, 10))));
        }
        docs.push(RefDoc { id: format!("doc_{i:07}"), owner, dept, cl, extra });
    }
    let hot_users = (c.users / 20).max(1);
    let hot_docs = (c.documents / 50).max(1);
    let mut reqs = Vec::new();
    let mut n_allow = 0;
    for _ in 0..c.requests {
        let u_idx = rng.biased(c.users, hot_users, 5.0);
        let user = &users[u_idx];
        let d_idx = if rng.frac() < 0.80 {
            let start = rng.biased(c.documents, hot_docs, 3.0);
            let mut found = start;
            for off in 0..c.documents {
                let cand = (start + off) % c.documents;
                if docs[cand].dept == user.dept {
                    found = cand;
                    break;
                }
            }
            found
        } else {
            rng.biased(c.documents, hot_docs, 3.0)
        };
        let doc = &docs[d_idx];
        let roll = rng.frac();
        let action = if roll < c.read_ratio {
            "read"
        } else if roll < c.read_ratio + c.update_ratio {
            "update"
        } else {
            "delete"
        };
        let is_owner = doc.owner == u_idx;
        let same = doc.dept == user.dept;
        let cl_ok = user.cl >= doc.cl;
        let public = doc.cl == 0;
        let allow = is_owner
            || (same && action == "read" && cl_ok)
            || (same && action == "update" && public)
            || (user.mgr && action == "admin" && same)
            || (action == "read" && public);
        if allow {
            n_allow += 1;
        }
        reqs.push((
            format!("User::\"{}\"", user.id),
            format!("Action::\"{}\"", action),
            format!("Document::\"{}\"", doc.id),
        ));
    }
    (users, docs, reqs, n_allow)
}

fn extra_pairs(extra: &Vec<Attribute>) -> Vec<(String, String)> {
    extra.iter().map(|a| (a.name.clone(), a.value.clone())).collect()
}

fn check_against_reference(c: &RefConfig) {
    let p = params(c);
    let ds = build_dataset(&p);
    let (users, docs, reqs, n_allow) = ref_generate(c);
    assert_eq!(ds.entities.users.len(), users.len());
    assert_eq!(ds.entities.docs.len(), docs.len());
    assert_eq!(ds.entities.records.len(), 4 + users.len() + docs.len());
    for (i, u) in users.iter().enumerate() {
        let m = &ds.entities.users[i];
        assert_eq!(m.id, u.id);
        assert_eq!((m.dept_idx, m.team_idx, m.clearance_level, m.is_manager), (u.dept, u.team, u.cl, u.mgr));
        match &ds.entities.records[4 + i] {
            EntityRecord::User { id, department, team, clearance, is_manager, employee_id, extra } => {
                assert_eq!(id, &u.id);
                assert_eq!(department, dname(u.dept));
                assert_eq!(team, &format!("{}_{}", dname(u.dept), u.team));
                assert_eq!(clearance, cname(u.cl));
                assert_eq!(*is_manager, u.mgr);
                assert_eq!(employee_id, &format!("emp_{i:06}"));
                assert_eq!(extra_pairs(extra), u.extra);
            }
            _ => panic!("user record expected"),
        }
    }
    for (i, d) in docs.iter().enumerate() {
        let m = &ds.entities.docs[i];
        assert_eq!(m.id, d.id);
        assert_eq!((m.owner_idx, m.dept_idx, m.clearance_level), (d.owner, d.dept, d.cl));
        match &ds.entities.records[4 + users.len() + i] {
            EntityRecord::Document { id, owner, department, clearance, doc_type, extra } => {
                assert_eq!(id, &d.id);
                assert_eq!(owner, &users[d.owner].id);
                assert_eq!(department, dname(d.dept));
                assert_eq!(clearance, cname(d.cl));
                let t = if i % 3 == 0 { "report" } else if i % 3 == 1 { "contract" } else { "memo" };
                assert_eq!(doc_type, t);
                assert_eq!(extra_pairs(extra), d.extra);
            }
            _ => panic!("document record expected"),
        }
    }
    assert_eq!(ds.requests.len(), reqs.len());
    for (q, r) in ds.requests.iter().zip(reqs.iter()) {
        assert_eq!(q.principal, r.0);
        assert_eq!(q.action, r.1);
        assert_eq!(q.resource, r.2);
    }
    assert_eq!(ds.allowed, n_allow);
}

fn config(users: usize, documents: usize, requests: usize, departments: usize, teams: usize, seed: u64) -> RefConfig {
    RefConfig {
        users,
        documents,
        policies: 20,
        requests,
        departments,
        teams,
        attrs: 3,
        read_ratio: 0.70,
        update_ratio: 0.20,
        seed,
    }
}

#[test]
fn dataset_matches_float_generator_default_mix() {
    check_against_reference(&config(100, 1000, 2000, 8, 4, 42));
}

#[test]
fn dataset_matches_float_generator_many_seeds() {
    for seed in 0..20u64 {
        check_against_reference(&config(40, 120, 300, 5, 3, seed));
    }
}

#[test]
fn dataset_matches_float_generator_tiny_sizes() {
    check_against_reference(&config(1, 1, 50, 1, 1, 3));
    check_against_reference(&config(2, 1, 50, 3, 2, 4));
    check_against_reference(&config(1, 5, 50, 2, 2, 5));
    let mut c = config(3, 0, 0, 0, 0, 6);
    c.policies = 0;
    check_against_reference(&c);
}

#[test]
fn dataset_matches_float_generator_odd_ratios() {
    let mut c = config(30, 60, 400, 4, 2, 11);
    c.read_ratio = 0.1;
    c.update_ratio = 0.85;
    check_against_reference(&c);
    c.read_ratio = 0.0;
    c.update_ratio = 0.0;
    check_against_reference(&c);
    c.read_ratio = 1.5;
    check_against_reference(&c);
}

#[test]
fn same_dept_cutoff_is_point_eight() {
    assert_eq!(SAME_DEPT_CUTOFF as f64 / (1u64 << 53) as f64, 0.80);
    assert!(((SAME_DEPT_CUTOFF - 1) as f64 / (1u64 << 53) as f64) < 0.80);
}

#[test]
fn manager_period_examples() {
    assert_eq!(manager_every(1000, 8, 4), 31);
    assert_eq!(manager_every(10, 8, 4), 5);
    assert_eq!(manager_every(100, 0, 0), 100);
    assert_eq!(manager_every(3, 0, 5), 5);
}

#[test]
fn hot_counts() {
    assert_eq!(hot_users(1000), 50);
    assert_eq!(hot_users(10), 1);
    assert_eq!(hot_users(0), 1);
    assert_eq!(hot_docs(10_000), 200);
    assert_eq!(hot_docs(49), 1);
}

#[test]
fn policies_follow_the_eight_templates() {
    let c = config(10, 10, 0, 8, 4, 1);
    let mut p = params(&c);
    p.policies = 16;
    let entries = build_policies(&p);
    assert_eq!(entries.len(), 16);
    assert_eq!(entries[0].id, "owner-access-0");
    assert_eq!(
        entries[0].content,
        r#"permit(principal, action, resource is Document) when { resource.owner == principal.employee_id };"#
    );
    assert_eq!(entries[9].id, "dept-read-9");
    assert_eq!(
        entries[9].content,
        r#"permit(principal is User, action == Action::"read", resource is Document) when { principal.department == "finance" && resource.department == "finance" };"#
    );
    assert_eq!(entries[2].id, "dept-update-2");
    assert_eq!(
        entries[2].content,
        r#"permit(principal is User, action == Action::"update", resource is Document) when { principal.department == "legal" && resource.department == "legal" && resource.clearance == "public" };"#
    );
    assert_eq!(entries[11].id, "team-read-11");
    assert_eq!(
        entries[11].content,
        r#"permit(principal is User, action == Action::"read", resource is Document) when { principal.team == "hr_3" && resource.department == "hr" };"#
    );
    assert_eq!(entries[4].id, "clearance-read-4");
    assert_eq!(
        entries[4].content,
        r#"permit(principal is User, action == Action::"read", resource is Document) when { principal.clearance == "public" && resource.clearance == "public" };"#
    );
    assert_eq!(entries[13].id, "manager-admin-13");
    assert_eq!(
        entries[13].content,
        r#"permit(principal is User, action == Action::"admin", resource is Document) when { principal.is_manager == true && principal.department == "ops" && resource.department == "ops" };"#
    );
    assert_eq!(entries[6].id, "internal-read-6");
    assert_eq!(
        entries[6].content,
        r#"permit(principal is User, action == Action::"read", resource is Document) when { principal.clearance == "internal" && resource.clearance == "internal" && resource.department == "research" };"#
    );
    assert_eq!(entries[15].id, "public-read-15");
    assert_eq!(
        entries[15].content,
        r#"permit(principal, action == Action::"read", resource is Document) when { resource.clearance == "public" };"#
    );
}

#[test]
fn generated_policies_form_a_policy_set() {
    let c = config(10, 10, 0, 8, 4, 1);
    let mut p = params(&c);
    p.policies = 100;
    let entries = build_policies(&p);
    assert!(entries.iter().all(|e| policy_text_within_limit(&e.content)));
    let ids: Vec<String> = entries.iter().map(|e| e.id.clone()).collect();
    let set = build_policy_set(PoliciesDocument::Entries(entries)).unwrap();
    assert_eq!(set.policies().count(), 100);
    for id in ids {
        let pid = cedar_policy::PolicyId::new(&id);
        assert!(set.policy(&pid).is_some(), "missing {id}");
    }
}

#[test]
fn dataset_identifiers_are_unique() {
    let c = config(50, 200, 10, 8, 4, 9);
    let ds = build_dataset(&params(&c));
    let mut ids: Vec<String> = ds
        .entities
        .records
        .iter()
        .map(|r| match r {
            EntityRecord::Action { id } => id.clone(),
            EntityRecord::User { id, .. } => id.clone(),
            EntityRecord::Document { id, .. } => id.clone(),
        })
        .collect();
    let n = ids.len();
    ids.sort();
    ids.dedup();
    assert_eq!(ids.len(), n);
    let mut pids: Vec<String> = ds.policies.iter().map(|p| p.id.clone()).collect();
    pids.sort();
    pids.dedup();
    assert_eq!(pids.len(), 20);
}

#[test]
fn documents_share_their_owner_department() {
    let c = config(30, 300, 0, 6, 2, 77);
    let ds = build_dataset(&params(&c));
    for d in ds.entities.docs.iter() {
        assert_eq!(d.dept_idx, ds.entities.users[d.owner_idx].dept_idx);
    }
}

#[test]
fn requests_never_use_admin() {
    let c = config(30, 300, 500, 6, 2, 5);
    let ds = build_dataset(&params(&c));
    assert!(ds.requests.iter().all(|r| r.action != "Action::\"admin\""));
    assert!(ds.allowed <= 500);
}

#[test]
fn same_seed_same_dataset() {
    let c = config(25, 80, 200, 4, 3, 123);
    let a = build_dataset(&params(&c));
    let b = build_dataset(&params(&c));
    assert_eq!(a.allowed, b.allowed);
    for (x, y) in a.requests.iter().zip(b.requests.iter()) {
        assert_eq!((&x.principal, &x.action, &x.resource), (&y.principal, &y.action, &y.resource));
    }
}
