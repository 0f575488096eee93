//! The authorization workload: who asks to do what to which document, and whether the
//! dataset's policies are expected to allow it.
use vstd::prelude::*;
use vstd::string::*;

use crate::entities::{DocMeta, UserMeta};
use crate::lcg::{biased_draw, frac_draw, Lcg, UNIT};
use crate::names::{action_name_spec, Action};
use crate::params::{hot_docs, hot_docs_spec, hot_users, hot_users_spec, DatasetParams};

verus! {

/// Fractions below this cutoff keep the request inside the principal's department: it is
/// the probability 0.80 over `UNIT`, since the double nearest 0.80 is exactly
/// 7205759403792794 / 2^53.
pub const SAME_DEPT_CUTOFF: u64 = 7205759403792794;

/// The action picked by the fraction `bits`.
pub open spec fn action_spec(bits: u64, p: DatasetParams) -> Action {
    if bits < p.read_cutoff {
        Action::Read
    } else if bits < p.update_cutoff {
        Action::Update
    } else {
        Action::Delete
    }
}

/// The action picked by the fraction `roll` (a numerator over `UNIT`).
pub fn action_for(roll: u64, p: &DatasetParams) -> (a: Action)
    ensures
        a == action_spec(roll, *p),
{
    if roll < p.read_cutoff {
        Action::Read
    } else if roll < p.update_cutoff {
        Action::Update
    } else {
        Action::Delete
    }
}

/// Walking forward from `start + off` (cyclically), the first document of department
/// `dept`; `start` itself when no document is.
pub open spec fn walk_spec(docs: Seq<DocMeta>, start: nat, dept: usize, off: nat) -> nat
    decreases docs.len() - off,
{
    if off >= docs.len() {
        start
    } else if docs[((start + off) % docs.len()) as int].dept_idx == dept {
        (start + off) % docs.len()
    } else {
        walk_spec(docs, start, dept, off + 1)
    }
}

/// What the generator decides for one request.
pub struct RequestDraw {
    pub user: usize,
    pub doc: usize,
    pub action: Action,
}

/// The draws for one request from state `s`: the principal (hot-biased); then whether the
/// resource is looked for in the principal's department; then a hot-biased document, from
/// which the walk starts in that case; then the action.
pub open spec fn request_step(
    p: DatasetParams,
    users: Seq<UserMeta>,
    docs: Seq<DocMeta>,
    s: u64,
) -> (RequestDraw, u64) {
    let (u, s1) = biased_draw(s, p.users, hot_users_spec(p.users), p.hot_user_cutoff);
    let (near, s2) = frac_draw(s1);
    let (start, s3) = biased_draw(s2, p.documents, hot_docs_spec(p.documents), p.hot_doc_cutoff);
    let d = if near < SAME_DEPT_CUTOFF {
        walk_spec(docs, start as nat, users[u as int].dept_idx, 0) as usize
    } else {
        start
    };
    let (roll, s4) = frac_draw(s3);
    (RequestDraw { user: u, doc: d, action: action_spec(roll, p) }, s4)
}

/// The draws for the first `n` requests from state `s`, with the state they leave.
pub open spec fn requests_gen(
    p: DatasetParams,
    users: Seq<UserMeta>,
    docs: Seq<DocMeta>,
    s: u64,
    n: nat,
) -> (Seq<RequestDraw>, u64)
    decreases n,
{
    if n == 0 {
        (Seq::empty(), s)
    } else {
        let (prev, s1) = requests_gen(p, users, docs, s, (n - 1) as nat);
        let (r, s2) = request_step(p, users, docs, s1);
        (prev.push(r), s2)
    }
}

/// Whether the dataset's policies are expected to allow request `r`: the principal owns the
/// document; or reads a document of its department at or below its clearance; or updates a
/// public document of its department; or is a manager administering a document of its
/// department; or reads a public document.
pub open spec fn allowed_spec(users: Seq<UserMeta>, docs: Seq<DocMeta>, r: RequestDraw) -> bool {
    let u = users[r.user as int];
    let d = docs[r.doc as int];
    let same_dept = d.dept_idx == u.dept_idx;
    let public_doc = d.clearance_level == 0;
    ||| d.owner_idx == r.user
    ||| same_dept && r.action == Action::Read && u.clearance_level >= d.clearance_level
    ||| same_dept && r.action == Action::Update && public_doc
    ||| u.is_manager && r.action == Action::Admin && same_dept
    ||| r.action == Action::Read && public_doc
}

/// How many of `draws` are expected to be allowed.
pub open spec fn allowed_count(users: Seq<UserMeta>, docs: Seq<DocMeta>, draws: Seq<RequestDraw>) -> nat
    decreases draws.len(),
{
    if draws.len() == 0 {
        0
    } else {
        allowed_count(users, docs, draws.drop_last()) + if allowed_spec(users, docs, draws.last()) {
            1nat
        } else {
            0nat
        }
    }
}

/// A request as written to the workload file: Cedar entity references of the principal,
/// the action and the resource.
pub struct AuthRequest {
    pub principal: String,
    pub action: String,
    pub resource: String,
}

/// The Cedar reference `<prefix>"<id>"`.
pub open spec fn entity_ref_spec(prefix: Seq<char>, id: Seq<char>) -> Seq<char> {
    prefix + "\""@ + id + "\""@
}

/// Request `r` as written: `User::"<id>"`, `Action::"<name>"`, `Document::"<id>"`.
pub open spec fn request_matches(
    q: AuthRequest,
    users: Seq<UserMeta>,
    docs: Seq<DocMeta>,
    r: RequestDraw,
) -> bool {
    &&& q.principal@ == entity_ref_spec("User::"@, users[r.user as int].id@)
    &&& q.action@ == entity_ref_spec("Action::"@, action_name_spec(r.action))
    &&& q.resource@ == entity_ref_spec("Document::"@, docs[r.doc as int].id@)
}

/// `prefix`, then `"`, `id` and `"`.
fn entity_ref(prefix: &str, id: &str) -> (s: String)
    ensures
        s@ == entity_ref_spec(prefix@, id@),
{
    let mut s = String::from_str(prefix);
    s.append("\"");
    s.append(id);
    s.append("\"");
    s
}

/// The first document of department `dept` walking forward from `start`, or `start`.
fn walk_same_dept(docs: &Vec<DocMeta>, start: usize, dept: usize) -> (c: usize)
    requires
        start < docs@.len(),
        2 * docs@.len() <= usize::MAX,
    ensures
        c as nat == walk_spec(docs@, start as nat, dept, 0),
        c < docs@.len(),
{
    let n = docs.len();
    let mut off: usize = 0;
    while off < n
        invariant
            n == docs@.len(),
            start < n,
            2 * n <= usize::MAX,
            off <= n,
            walk_spec(docs@, start as nat, dept, 0) == walk_spec(docs@, start as nat, dept, off as nat),
        decreases n - off,
    {
        let c = (start + off) % n;
        if docs[c].dept_idx == dept {
            return c;
        }
        off = off + 1;
    }
    start
}

/// `draws` are drawn for users that exist and documents that exist.
pub open spec fn draws_in_range(draws: Seq<RequestDraw>, users: nat, docs: nat) -> bool {
    forall|i: int| 0 <= i < draws.len() ==> (#[trigger] draws[i]).user < users && draws[i].doc < docs
}

/// `requests_gen` draws `n` requests, each within the users and the documents.
pub proof fn lemma_requests_gen(
    p: DatasetParams,
    users: Seq<UserMeta>,
    docs: Seq<DocMeta>,
    s: u64,
    n: nat,
)
    requires
        p.requests_fit(),
        n > 0 ==> p.users > 0 && p.documents > 0,
        users.len() == p.users,
        docs.len() == p.documents,
    ensures
        requests_gen(p, users, docs, s, n).0.len() == n,
        draws_in_range(requests_gen(p, users, docs, s, n).0, p.users as nat, p.documents as nat),
    decreases n,
{
    if n > 0 {
        lemma_requests_gen(p, users, docs, s, (n - 1) as nat);
        let s1 = requests_gen(p, users, docs, s, (n - 1) as nat).1;
        lemma_request_step_in_range(p, users, docs, s1);
    }
}

proof fn lemma_walk_in_range(docs: Seq<DocMeta>, start: nat, dept: usize, off: nat)
    requires
        start < docs.len(),
    ensures
        walk_spec(docs, start, dept, off) < docs.len(),
    decreases docs.len() - off,
{
    if off < docs.len() {
        lemma_walk_in_range(docs, start, dept, off + 1);
    }
}

proof fn lemma_biased_in_range(s: u64, total: usize, hot_count: usize, hot_cutoff: u64)
    requires
        total > 0,
        hot_count < total || hot_cutoff >= UNIT,
    ensures
        biased_draw(s, total, hot_count, hot_cutoff).0 < total,
{
    assert(frac_draw(s).0 < UNIT) by {
        let x = crate::lcg::lcg_step(s);
        assert(x >> 11u64 < 0x20_0000_0000_0000u64) by (bit_vector);
    }
}

proof fn lemma_request_step_in_range(p: DatasetParams, users: Seq<UserMeta>, docs: Seq<DocMeta>, s: u64)
    requires
        p.requests_fit(),
        p.users > 0,
        p.documents > 0,
        users.len() == p.users,
        docs.len() == p.documents,
    ensures
        request_step(p, users, docs, s).0.user < p.users,
        request_step(p, users, docs, s).0.doc < p.documents,
{
    let (u, s1) = biased_draw(s, p.users, hot_users_spec(p.users), p.hot_user_cutoff);
    lemma_biased_in_range(s, p.users, hot_users_spec(p.users), p.hot_user_cutoff);
    let (near, s2) = frac_draw(s1);
    lemma_biased_in_range(s2, p.documents, hot_docs_spec(p.documents), p.hot_doc_cutoff);
    let (start, s3) = biased_draw(s2, p.documents, hot_docs_spec(p.documents), p.hot_doc_cutoff);
    lemma_walk_in_range(docs, start as nat, users[u as int].dept_idx, 0);
}

/// Draws one request: principal, resource and action indices.
fn draw_request(
    p: &DatasetParams,
    users: &Vec<UserMeta>,
    docs: &Vec<DocMeta>,
    n_users: usize,
    n_docs: usize,
    rng: &mut Lcg,
) -> (res: (usize, usize, Action))
    requires
        p.requests_fit(),
        p.users > 0,
        p.documents > 0,
        users@.len() == p.users,
        docs@.len() == p.documents,
        n_users == hot_users_spec(p.users),
        n_docs == hot_docs_spec(p.documents),
    ensures
        (RequestDraw { user: res.0, doc: res.1, action: res.2 }, final(rng)@) == request_step(
            *p,
            users@,
            docs@,
            old(rng)@,
        ),
        res.0 < p.users,
        res.1 < p.documents,
{
    proof {
        lemma_request_step_in_range(*p, users@, docs@, rng@);
        assert(p.users >= 2 ==> n_users < p.users);
        assert(p.documents >= 2 ==> n_docs < p.documents);
    }
    let u_idx = rng.biased(p.users, n_users, p.hot_user_cutoff);
    let near = rng.frac_bits();
    let start = rng.biased(p.documents, n_docs, p.hot_doc_cutoff);
    let d_idx = if near < SAME_DEPT_CUTOFF {
        walk_same_dept(docs, start, users[u_idx].dept_idx)
    } else {
        start
    };
    let roll = rng.frac_bits();
    let action = action_for(roll, p);
    (u_idx, d_idx, action)
}

/// Whether request `(u_idx, d_idx, action)` is expected to be allowed.
fn is_allowed(users: &Vec<UserMeta>, docs: &Vec<DocMeta>, u_idx: usize, d_idx: usize, action: Action) -> (allow: bool)
    requires
        u_idx < users@.len(),
        d_idx < docs@.len(),
    ensures
        allow == allowed_spec(users@, docs@, RequestDraw { user: u_idx, doc: d_idx, action }),
{
    let user = &users[u_idx];
    let doc = &docs[d_idx];
    let is_owner = doc.owner_idx == u_idx;
    let same_dept = doc.dept_idx == user.dept_idx;
    let cl_ok = user.clearance_level >= doc.clearance_level;
    let public_doc = doc.clearance_level == 0;
    is_owner || (same_dept && action == Action::Read && cl_ok) || (same_dept && action
        == Action::Update && public_doc) || (user.is_manager && action == Action::Admin && same_dept)
        || (action == Action::Read && public_doc)
}

/// The written form of request `(u_idx, d_idx, action)`.
fn make_request(users: &Vec<UserMeta>, docs: &Vec<DocMeta>, u_idx: usize, d_idx: usize, action: Action) -> (q: AuthRequest)
    requires
        u_idx < users@.len(),
        d_idx < docs@.len(),
    ensures
        request_matches(q, users@, docs@, RequestDraw { user: u_idx, doc: d_idx, action }),
{
    AuthRequest {
        principal: entity_ref("User::", users[u_idx].id.as_str()),
        action: entity_ref("Action::", action.name()),
        resource: entity_ref("Document::", docs[d_idx].id.as_str()),
    }
}

/// Generates `p.requests` requests from the users and documents, drawing from `rng`, and
/// counts how many of them are expected to be allowed.
pub fn build_requests(
    p: &DatasetParams,
    users: &Vec<UserMeta>,
    docs: &Vec<DocMeta>,
    rng: &mut Lcg,
) -> (res: (Vec<AuthRequest>, usize))
    requires
        p.requests_fit(),
        users@.len() == p.users,
        docs@.len() == p.documents,
    ensures
        res.0@.len() == p.requests,
        forall|i: int|
            0 <= i < p.requests ==> request_matches(
                #[trigger] res.0@[i],
                users@,
                docs@,
                requests_gen(*p, users@, docs@, old(rng)@, p.requests as nat).0[i],
            ),
        res.1 == allowed_count(users@, docs@, requests_gen(*p, users@, docs@, old(rng)@, p.requests as nat).0),
        final(rng)@ == requests_gen(*p, users@, docs@, old(rng)@, p.requests as nat).1,
{
    let ghost s0 = rng@;
    let n_users = hot_users(p.users);
    let n_docs = hot_docs(p.documents);
    let mut reqs: Vec<AuthRequest> = Vec::new();
    let mut n_allow: usize = 0;
    for i in 0..p.requests
        invariant
            p.requests_fit(),
            users@.len() == p.users,
            docs@.len() == p.documents,
            n_users == hot_users_spec(p.users),
            n_docs == hot_docs_spec(p.documents),
            reqs@.len() == i,
            rng@ == requests_gen(*p, users@, docs@, s0, i as nat).1,
            n_allow == allowed_count(users@, docs@, requests_gen(*p, users@, docs@, s0, i as nat).0),
            n_allow <= i,
            forall|j: int|
                0 <= j < i ==> request_matches(
                    #[trigger] reqs@[j],
                    users@,
                    docs@,
                    requests_gen(*p, users@, docs@, s0, i as nat).0[j],
                ),
    {
        let ghost prev = requests_gen(*p, users@, docs@, s0, i as nat).0;
        let ghost s_i = rng@;
        proof {
            lemma_requests_gen(*p, users@, docs@, s0, i as nat);
        }
        let (u_idx, d_idx, action) = draw_request(p, users, docs, n_users, n_docs, rng);
        if is_allowed(users, docs, u_idx, d_idx, action) {
            n_allow = n_allow + 1;
        }
        reqs.push(make_request(users, docs, u_idx, d_idx, action));
        proof {
            let r = request_step(*p, users@, docs@, s_i).0;
            let next = requests_gen(*p, users@, docs@, s0, (i + 1) as nat).0;
            assert(next == prev.push(r));
            assert(next.drop_last() == prev);
            assert(r == RequestDraw { user: u_idx, doc: d_idx, action });
            assert forall|j: int| 0 <= j < i + 1 implies request_matches(
                #[trigger] reqs@[j],
                users@,
                docs@,
                next[j],
            ) by {
                if j < i {
                    assert(next[j] == prev[j]);
                }
            }
        }
    }
    (reqs, n_allow)
}

/// No request is drawn with the `admin` action: the action is always read, update or
/// delete.
pub proof fn lemma_requests_never_admin(
    p: DatasetParams,
    users: Seq<UserMeta>,
    docs: Seq<DocMeta>,
    s: u64,
    n: nat,
)
    ensures
        forall|i: int|
            0 <= i < requests_gen(p, users, docs, s, n).0.len() ==> (#[trigger] requests_gen(
                p,
                users,
                docs,
                s,
                n,
            ).0[i]).action != Action::Admin,
    decreases n,
{
    if n > 0 {
        lemma_requests_never_admin(p, users, docs, s, (n - 1) as nat);
        let prev = requests_gen(p, users, docs, s, (n - 1) as nat).0;
        let all = requests_gen(p, users, docs, s, n).0;
        assert forall|i: int| 0 <= i < all.len() implies (#[trigger] all[i]).action != Action::Admin by {
            if i < prev.len() {
                assert(all[i] == prev[i]);
            }
        }
    }
}

/// At most all of the requests are expected to be allowed.
pub proof fn lemma_allowed_at_most_all(users: Seq<UserMeta>, docs: Seq<DocMeta>, draws: Seq<RequestDraw>)
    ensures
        allowed_count(users, docs, draws) <= draws.len(),
    decreases draws.len(),
{
    if draws.len() > 0 {
        lemma_allowed_at_most_all(users, docs, draws.drop_last());
    }
}

/// A request on a document its principal owns is always expected to be allowed.
pub proof fn lemma_owner_allowed(users: Seq<UserMeta>, docs: Seq<DocMeta>, r: RequestDraw)
    requires
        docs[r.doc as int].owner_idx == r.user,
    ensures
        allowed_spec(users, docs, r),
{
}

/// Walking from `start`, the walk stops at a document of department `dept` whenever the
/// documents hold one.
pub proof fn lemma_walk_finds_department(docs: Seq<DocMeta>, start: nat, dept: usize, c: int)
    requires
        start < docs.len(),
        0 <= c < docs.len(),
        docs[c].dept_idx == dept,
    ensures
        docs[walk_spec(docs, start, dept, 0) as int].dept_idx == dept,
{
    let n = docs.len() as int;
    let off = if c >= start { c - start } else { c + n - start };
    assert((start + off) % n == c) by {
        if c >= start {
            vstd::arithmetic::div_mod::lemma_small_mod(c as nat, n as nat);
        } else {
            vstd::arithmetic::div_mod::lemma_mod_add_multiples_vanish(c, n);
            vstd::arithmetic::div_mod::lemma_small_mod(c as nat, n as nat);
        }
    }
    lemma_walk_finds_from(docs, start, dept, 0, off as nat);
}

proof fn lemma_walk_finds_from(docs: Seq<DocMeta>, start: nat, dept: usize, off: nat, target: nat)
    requires
        start < docs.len(),
        off <= target < docs.len(),
        docs[((start + target) % docs.len()) as int].dept_idx == dept,
    ensures
        docs[walk_spec(docs, start, dept, off) as int].dept_idx == dept,
    decreases target - off,
{
    if docs[((start + off) % docs.len()) as int].dept_idx != dept {
        lemma_walk_finds_from(docs, start, dept, off + 1, target);
    }
}

/// Two lists of users that agree on everything the requests read of them.
pub open spec fn same_users(a: Seq<UserMeta>, b: Seq<UserMeta>) -> bool {
    &&& a.len() == b.len()
    &&& forall|i: int|
        0 <= i < a.len() ==> {
            &&& (#[trigger] a[i]).id@ == b[i].id@
            &&& a[i].dept_idx == b[i].dept_idx
            &&& a[i].team_idx == b[i].team_idx
            &&& a[i].clearance_level == b[i].clearance_level
            &&& a[i].is_manager == b[i].is_manager
        }
}

/// Two lists of documents that agree on everything the requests read of them.
pub open spec fn same_docs(a: Seq<DocMeta>, b: Seq<DocMeta>) -> bool {
    &&& a.len() == b.len()
    &&& forall|i: int|
        0 <= i < a.len() ==> {
            &&& (#[trigger] a[i]).id@ == b[i].id@
            &&& a[i].owner_idx == b[i].owner_idx
            &&& a[i].dept_idx == b[i].dept_idx
            &&& a[i].clearance_level == b[i].clearance_level
        }
}

proof fn lemma_walk_congruent(a: Seq<DocMeta>, b: Seq<DocMeta>, start: nat, dept: usize, off: nat)
    requires
        same_docs(a, b),
    ensures
        walk_spec(a, start, dept, off) == walk_spec(b, start, dept, off),
    decreases a.len() - off,
{
    if off < a.len() {
        lemma_walk_congruent(a, b, start, dept, off + 1);
        let c = ((start + off) % a.len()) as int;
        assert(a[c].dept_idx == b[c].dept_idx);
    }
}

proof fn lemma_request_step_congruent(
    p: DatasetParams,
    u1: Seq<UserMeta>,
    u2: Seq<UserMeta>,
    d1: Seq<DocMeta>,
    d2: Seq<DocMeta>,
    s: u64,
)
    requires
        p.requests_fit(),
        u1.len() == p.users,
        d1.len() == p.documents,
        p.users > 0,
        p.documents > 0,
        same_users(u1, u2),
        same_docs(d1, d2),
    ensures
        request_step(p, u1, d1, s) == request_step(p, u2, d2, s),
{
    let (u, s1) = biased_draw(s, p.users, hot_users_spec(p.users), p.hot_user_cutoff);
    lemma_biased_in_range(s, p.users, hot_users_spec(p.users), p.hot_user_cutoff);
    let (near, s2) = frac_draw(s1);
    let (start, s3) = biased_draw(s2, p.documents, hot_docs_spec(p.documents), p.hot_doc_cutoff);
    assert(u1[u as int].dept_idx == u2[u as int].dept_idx);
    lemma_walk_congruent(d1, d2, start as nat, u1[u as int].dept_idx, 0);
}

/// The requests drawn depend only on what the users and documents hold, not on which
/// copies of them are given.
pub proof fn lemma_requests_gen_congruent(
    p: DatasetParams,
    u1: Seq<UserMeta>,
    u2: Seq<UserMeta>,
    d1: Seq<DocMeta>,
    d2: Seq<DocMeta>,
    s: u64,
    n: nat,
)
    requires
        p.requests_fit(),
        n > 0 ==> p.users > 0 && p.documents > 0,
        u1.len() == p.users,
        d1.len() == p.documents,
        same_users(u1, u2),
        same_docs(d1, d2),
    ensures
        requests_gen(p, u1, d1, s, n) == requests_gen(p, u2, d2, s, n),
    decreases n,
{
    if n > 0 {
        lemma_requests_gen_congruent(p, u1, u2, d1, d2, s, (n - 1) as nat);
        let s1 = requests_gen(p, u1, d1, s, (n - 1) as nat).1;
        lemma_request_step_congruent(p, u1, u2, d1, d2, s1);
    }
}

/// The expected-allowed count depends only on what the users and documents hold.
pub proof fn lemma_allowed_count_congruent(
    u1: Seq<UserMeta>,
    u2: Seq<UserMeta>,
    d1: Seq<DocMeta>,
    d2: Seq<DocMeta>,
    draws: Seq<RequestDraw>,
)
    requires
        same_users(u1, u2),
        same_docs(d1, d2),
        draws_in_range(draws, u1.len(), d1.len()),
    ensures
        allowed_count(u1, d1, draws) == allowed_count(u2, d2, draws),
    decreases draws.len(),
{
    if draws.len() > 0 {
        let last = draws.last();
        assert(draws[draws.len() - 1] == last);
        assert(draws_in_range(draws.drop_last(), u1.len(), d1.len())) by {
            assert forall|i: int| 0 <= i < draws.drop_last().len() implies (
            #[trigger] draws.drop_last()[i]).user < u1.len() && draws.drop_last()[i].doc < d1.len() by {
                assert(draws.drop_last()[i] == draws[i]);
            }
        }
        lemma_allowed_count_congruent(u1, u2, d1, d2, draws.drop_last());
        assert(u1[last.user as int].dept_idx == u2[last.user as int].dept_idx);
        assert(d1[last.doc as int].dept_idx == d2[last.doc as int].dept_idx);
    }
}

} // verus!
