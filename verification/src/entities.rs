//! The entity store of the dataset: four actions, the users, then the documents.
use vstd::prelude::*;
use vstd::string::*;

use crate::lcg::{draw_seq, lemma_draw_seq_below, lemma_draw_seq_len, range_draw, Lcg};
use crate::names::{
    action_at, action_name_spec, clearance_spec, clearance_str, dept_name, dept_name_spec,
    team_name, team_name_spec, Action,
};
use crate::params::{manager_every, DatasetParams};
use crate::text::{dec, lemma_padded_injective, lemma_strip_prefix, padded, push_decimal, push_padded};

verus! {

/// What the generator decides for one user.
pub struct UserDraw {
    pub dept: usize,
    pub team: usize,
    pub clearance: usize,
    pub extra: Seq<usize>,
}

/// What the generator decides for one document.
pub struct DocDraw {
    pub owner: usize,
    pub clearance: usize,
    pub extra: Seq<usize>,
}

/// The draws for one user from state `s`: department, team, clearance, then one value in
/// `[0, 10)` per extra attribute.
pub open spec fn user_step(p: DatasetParams, s: u64) -> (UserDraw, u64) {
    let (dept, s1) = range_draw(s, 0, p.departments);
    let (team, s2) = range_draw(s1, 0, p.teams);
    let (clearance, s3) = range_draw(s2, 0, 4);
    let (extra, s4) = draw_seq(s3, p.attributes_per_entity as nat, 10);
    (UserDraw { dept, team, clearance, extra }, s4)
}

/// The draws for one document from state `s`: owner, clearance, then the extra values.
pub open spec fn doc_step(p: DatasetParams, s: u64) -> (DocDraw, u64) {
    let (owner, s1) = range_draw(s, 0, p.users);
    let (clearance, s2) = range_draw(s1, 0, 4);
    let (extra, s3) = draw_seq(s2, p.attributes_per_entity as nat, 10);
    (DocDraw { owner, clearance, extra }, s3)
}

/// The draws for the first `n` users from state `s`, with the state they leave.
pub open spec fn users_gen(p: DatasetParams, s: u64, n: nat) -> (Seq<UserDraw>, u64)
    decreases n,
{
    if n == 0 {
        (Seq::empty(), s)
    } else {
        let (prev, s1) = users_gen(p, s, (n - 1) as nat);
        let (u, s2) = user_step(p, s1);
        (prev.push(u), s2)
    }
}

/// The draws for the first `n` documents from state `s`, with the state they leave.
pub open spec fn docs_gen(p: DatasetParams, s: u64, n: nat) -> (Seq<DocDraw>, u64)
    decreases n,
{
    if n == 0 {
        (Seq::empty(), s)
    } else {
        let (prev, s1) = docs_gen(p, s, (n - 1) as nat);
        let (d, s2) = doc_step(p, s1);
        (prev.push(d), s2)
    }
}

/// `users_gen` draws `n` users.
pub proof fn lemma_users_gen_len(p: DatasetParams, s: u64, n: nat)
    ensures
        users_gen(p, s, n).0.len() == n,
    decreases n,
{
    if n > 0 {
        lemma_users_gen_len(p, s, (n - 1) as nat);
    }
}

/// `docs_gen` draws `n` documents.
pub proof fn lemma_docs_gen_len(p: DatasetParams, s: u64, n: nat)
    ensures
        docs_gen(p, s, n).0.len() == n,
    decreases n,
{
    if n > 0 {
        lemma_docs_gen_len(p, s, (n - 1) as nat);
    }
}

/// All the users' draws, then all the documents' draws, from state `s`.
pub open spec fn entities_gen(p: DatasetParams, s: u64) -> (Seq<UserDraw>, Seq<DocDraw>, u64) {
    let (us, s1) = users_gen(p, s, p.users as nat);
    let (ds, s2) = docs_gen(p, s1, p.documents as nat);
    (us, ds, s2)
}

/// The identifier of user `i`: `user_` and `i` on six digits.
pub open spec fn user_id_spec(i: nat) -> Seq<char> {
    "user_"@ + padded(i, 6)
}

/// The employee number of user `i`: `emp_` and `i` on six digits.
pub open spec fn employee_id_spec(i: nat) -> Seq<char> {
    "emp_"@ + padded(i, 6)
}

/// The identifier of document `i`: `doc_` and `i` on seven digits.
pub open spec fn doc_id_spec(i: nat) -> Seq<char> {
    "doc_"@ + padded(i, 7)
}

/// The type of document `i`: report, contract, memo in turn.
pub open spec fn doc_type_spec(i: nat) -> Seq<char> {
    if i % 3 == 0 {
        "report"@
    } else if i % 3 == 1 {
        "contract"@
    } else {
        "memo"@
    }
}

/// What the generator keeps of a user.
pub struct UserMeta {
    pub id: String,
    pub dept_idx: usize,
    pub team_idx: usize,
    pub clearance_level: usize,
    pub is_manager: bool,
}

/// What the generator keeps of a document.
pub struct DocMeta {
    pub id: String,
    pub owner_idx: usize,
    pub dept_idx: usize,
    pub clearance_level: usize,
}

/// A named string attribute of an entity.
pub struct Attribute {
    pub name: String,
    pub value: String,
}

/// One entity of the store, with the attributes it is written with.
pub enum EntityRecord {
    Action { id: String },
    User {
        id: String,
        department: String,
        team: String,
        clearance: String,
        is_manager: bool,
        employee_id: String,
        extra: Vec<Attribute>,
    },
    Document {
        id: String,
        owner: String,
        department: String,
        clearance: String,
        doc_type: String,
        extra: Vec<Attribute>,
    },
}

/// Extra attribute `k`, drawn as `v`: `attr_<k>` holds `val_<k>_<v>`.
pub open spec fn attribute_matches(a: Attribute, k: nat, v: usize) -> bool {
    &&& a.name@ == "attr_"@ + dec(k)
    &&& a.value@ == "val_"@ + dec(k) + "_"@ + dec(v as nat)
}

/// The extra attributes drawn as `draws`.
pub open spec fn extra_matches(extra: Seq<Attribute>, draws: Seq<usize>) -> bool {
    &&& extra.len() == draws.len()
    &&& forall|k: int| 0 <= k < extra.len() ==> attribute_matches(#[trigger] extra[k], k as nat, draws[k])
}

/// User `i` as kept by the generator, given its draws.
#[verifier::opaque]
pub open spec fn user_meta_matches(m: UserMeta, p: DatasetParams, i: nat, d: UserDraw) -> bool {
    &&& m.id@ == user_id_spec(i)
    &&& m.dept_idx == d.dept
    &&& m.team_idx == d.team
    &&& m.clearance_level == d.clearance
    &&& m.is_manager == (i % (p.manager_period() as nat) == 0)
}

/// Document `i` as kept by the generator, given its draws and the users' draws: its
/// department is its owner's.
#[verifier::opaque]
pub open spec fn doc_meta_matches(m: DocMeta, i: nat, d: DocDraw, us: Seq<UserDraw>) -> bool {
    &&& m.id@ == doc_id_spec(i)
    &&& m.owner_idx == d.owner
    &&& m.dept_idx == us[d.owner as int].dept
    &&& m.clearance_level == d.clearance
}

/// The record of action entity `k`.
#[verifier::opaque]
pub open spec fn action_record_matches(r: EntityRecord, k: nat) -> bool {
    match r {
        EntityRecord::Action { id } => id@ == action_name_spec(action_at(k)),
        _ => false,
    }
}

/// The record of user `i`, given its draws.
#[verifier::opaque]
pub open spec fn user_record_matches(r: EntityRecord, p: DatasetParams, i: nat, d: UserDraw) -> bool {
    match r {
        EntityRecord::User { id, department, team, clearance, is_manager, employee_id, extra } => {
            &&& id@ == user_id_spec(i)
            &&& department@ == dept_name_spec(d.dept as nat)
            &&& team@ == team_name_spec(d.dept as nat, d.team as nat)
            &&& clearance@ == clearance_spec(d.clearance as nat)
            &&& is_manager == (i % (p.manager_period() as nat) == 0)
            &&& employee_id@ == employee_id_spec(i)
            &&& extra_matches(extra@, d.extra)
        },
        _ => false,
    }
}

/// The record of document `i`, given its draws and the users' draws.
#[verifier::opaque]
pub open spec fn doc_record_matches(r: EntityRecord, i: nat, d: DocDraw, us: Seq<UserDraw>) -> bool {
    match r {
        EntityRecord::Document { id, owner, department, clearance, doc_type, extra } => {
            &&& id@ == doc_id_spec(i)
            &&& owner@ == user_id_spec(d.owner as nat)
            &&& department@ == dept_name_spec(us[d.owner as int].dept as nat)
            &&& clearance@ == clearance_spec(d.clearance as nat)
            &&& doc_type@ == doc_type_spec(i)
            &&& extra_matches(extra@, d.extra)
        },
        _ => false,
    }
}

/// The users, the documents and the whole entity store of a dataset.
pub struct EntitySet {
    pub users: Vec<UserMeta>,
    pub docs: Vec<DocMeta>,
    pub records: Vec<EntityRecord>,
}

/// `es` is the entity set generated for `p` from state `s`.
pub open spec fn entity_set_matches(es: EntitySet, p: DatasetParams, s: u64) -> bool {
    let (us, ds, _s2) = entities_gen(p, s);
    &&& es.users@.len() == p.users
    &&& es.docs@.len() == p.documents
    &&& es.records@.len() == 4 + p.users + p.documents
    &&& forall|i: int| 0 <= i < p.users ==> user_meta_matches(#[trigger] es.users@[i], p, i as nat, us[i])
    &&& forall|i: int| 0 <= i < p.documents ==> doc_meta_matches(#[trigger] es.docs@[i], i as nat, ds[i], us)
    &&& forall|k: int| 0 <= k < 4 ==> action_record_matches(#[trigger] es.records@[k], k as nat)
    &&& forall|i: int|
        0 <= i < p.users ==> user_record_matches(#[trigger] es.records@[4 + i], p, i as nat, us[i])
    &&& forall|i: int|
        0 <= i < p.documents ==> doc_record_matches(
            #[trigger] es.records@[4 + p.users + i],
            i as nat,
            ds[i],
            us,
        )
}

/// Draws `count` extra attributes.
fn draw_extra(rng: &mut Lcg, count: usize) -> (extra: Vec<Attribute>)
    ensures
        extra_matches(extra@, draw_seq(old(rng)@, count as nat, 10).0),
        final(rng)@ == draw_seq(old(rng)@, count as nat, 10).1,
{
    let mut extra: Vec<Attribute> = Vec::new();
    let ghost s0 = rng@;
    for k in 0..count
        invariant
            extra_matches(extra@, draw_seq(s0, k as nat, 10).0),
            rng@ == draw_seq(s0, k as nat, 10).1,
    {
        let v = rng.range(0, 10);
        let mut name = String::from_str("attr_");
        push_decimal(&mut name, k);
        let mut value = String::from_str("val_");
        push_decimal(&mut value, k);
        value.append("_");
        push_decimal(&mut value, v);
        proof {
            lemma_draw_seq_len(s0, k as nat, 10);
            lemma_draw_seq_len(s0, (k + 1) as nat, 10);
        }
        let ghost old_extra = extra@;
        extra.push(Attribute { name, value });
        proof {
            let next = draw_seq(s0, (k + 1) as nat, 10).0;
            assert(next == draw_seq(s0, k as nat, 10).0.push(v));
            assert forall|j: int| 0 <= j < extra@.len() implies attribute_matches(
                #[trigger] extra@[j],
                j as nat,
                next[j],
            ) by {
                if j < k {
                    assert(extra@[j] == old_extra[j]);
                    assert(next[j] == draw_seq(s0, k as nat, 10).0[j]);
                }
            }
        }
    }
    extra
}

/// A string holding `prefix` followed by `n` zero-padded to `width` digits.
fn padded_id(prefix: &str, n: usize, width: usize) -> (id: String)
    ensures
        id@ == prefix@ + padded(n as nat, width as nat),
{
    let mut id = String::from_str(prefix);
    push_padded(&mut id, n, width);
    id
}

/// The user with index `i`, drawing from `rng`.
fn build_user(p: &DatasetParams, period: usize, i: usize, rng: &mut Lcg) -> (res: (UserMeta, EntityRecord))
    requires
        period as int == p.manager_period(),
    ensures
        user_meta_matches(res.0, *p, i as nat, user_step(*p, old(rng)@).0),
        user_record_matches(res.1, *p, i as nat, user_step(*p, old(rng)@).0),
        final(rng)@ == user_step(*p, old(rng)@).1,
{
    reveal(user_meta_matches);
    reveal(user_record_matches);
    let dept_idx = rng.range(0, p.departments);
    let team_idx = rng.range(0, p.teams);
    let cl = rng.range(0, 4);
    let is_mgr = i % period == 0;
    let extra = draw_extra(rng, p.attributes_per_entity);
    let id = padded_id("user_", i, 6);
    let record = EntityRecord::User {
        id: id.clone(),
        department: String::from_str(dept_name(dept_idx)),
        team: team_name(dept_idx, team_idx),
        clearance: String::from_str(clearance_str(cl)),
        is_manager: is_mgr,
        employee_id: padded_id("emp_", i, 6),
        extra,
    };
    let meta = UserMeta { id, dept_idx, team_idx, clearance_level: cl, is_manager: is_mgr };
    (meta, record)
}

/// The type of document `i`.
fn doc_type(i: usize) -> (t: &'static str)
    ensures
        t@ == doc_type_spec(i as nat),
{
    if i % 3 == 0 {
        "report"
    } else if i % 3 == 1 {
        "contract"
    } else {
        "memo"
    }
}

/// The document with index `i`, drawing from `rng`.
fn build_doc(
    p: &DatasetParams,
    users: &Vec<UserMeta>,
    i: usize,
    rng: &mut Lcg,
    Ghost(us): Ghost<Seq<UserDraw>>,
) -> (res: (DocMeta, EntityRecord))
    requires
        users@.len() == p.users,
        us.len() == p.users,
        p.users > 0,
        forall|j: int| 0 <= j < p.users ==> user_meta_matches(#[trigger] users@[j], *p, j as nat, us[j]),
    ensures
        doc_meta_matches(res.0, i as nat, doc_step(*p, old(rng)@).0, us),
        doc_record_matches(res.1, i as nat, doc_step(*p, old(rng)@).0, us),
        final(rng)@ == doc_step(*p, old(rng)@).1,
{
    reveal(user_meta_matches);
    reveal(doc_meta_matches);
    reveal(doc_record_matches);
    let owner_idx = rng.range(0, p.users);
    let dept_idx = users[owner_idx].dept_idx;
    let cl = rng.range(0, 4);
    let extra = draw_extra(rng, p.attributes_per_entity);
    let id = padded_id("doc_", i, 7);
    let record = EntityRecord::Document {
        id: id.clone(),
        owner: users[owner_idx].id.clone(),
        department: String::from_str(dept_name(dept_idx)),
        clearance: String::from_str(clearance_str(cl)),
        doc_type: String::from_str(doc_type(i)),
        extra,
    };
    let meta = DocMeta { id, owner_idx, dept_idx, clearance_level: cl };
    (meta, record)
}

/// Generates the entity store: the four actions, then `p.users` users, then `p.documents`
/// documents, drawing from `rng` in that order.
pub fn build_entities(p: &DatasetParams, rng: &mut Lcg) -> (es: EntitySet)
    requires
        p.entities_fit(),
    ensures
        entity_set_matches(es, *p, old(rng)@),
        final(rng)@ == entities_gen(*p, old(rng)@).2,
{
    let ghost s0 = rng@;
    let mut records: Vec<EntityRecord> = Vec::new();
    let actions = [Action::Read, Action::Update, Action::Delete, Action::Admin];
    for k in 0..4
        invariant
            records@.len() == k,
            actions@ == seq![Action::Read, Action::Update, Action::Delete, Action::Admin],
            forall|j: int| 0 <= j < k ==> action_record_matches(#[trigger] records@[j], j as nat),
    {
        proof {
            reveal(action_record_matches);
        }
        records.push(EntityRecord::Action { id: String::from_str(actions[k].name()) });
    }

    let period = manager_every(p.users, p.departments, p.teams);
    let mut users: Vec<UserMeta> = Vec::new();
    for i in 0..p.users
        invariant
            p.entities_fit(),
            period as int == p.manager_period(),
            users@.len() == i,
            records@.len() == 4 + i,
            rng@ == users_gen(*p, s0, i as nat).1,
            forall|k: int| 0 <= k < 4 ==> action_record_matches(#[trigger] records@[k], k as nat),
            forall|j: int|
                0 <= j < i ==> user_meta_matches(
                    #[trigger] users@[j],
                    *p,
                    j as nat,
                    users_gen(*p, s0, i as nat).0[j],
                ),
            forall|j: int|
                0 <= j < i ==> user_record_matches(
                    #[trigger] records@[4 + j],
                    *p,
                    j as nat,
                    users_gen(*p, s0, i as nat).0[j],
                ),
    {
        let ghost prev = users_gen(*p, s0, i as nat).0;
        proof {
            lemma_users_gen_len(*p, s0, i as nat);
        }
        let (meta, record) = build_user(p, period, i, rng);
        users.push(meta);
        records.push(record);
        proof {
            assert(users_gen(*p, s0, (i + 1) as nat).0 == prev.push(user_step(*p, users_gen(*p, s0, i as nat).1).0));
        }
    }

    let ghost us = users_gen(*p, s0, p.users as nat).0;
    proof {
        lemma_users_gen_len(*p, s0, p.users as nat);
    }
    let ghost s1 = rng@;
    let mut docs: Vec<DocMeta> = Vec::new();
    for i in 0..p.documents
        invariant
            p.entities_fit(),
            users@.len() == p.users,
            us.len() == p.users,
            us == users_gen(*p, s0, p.users as nat).0,
            s1 == users_gen(*p, s0, p.users as nat).1,
            docs@.len() == i,
            records@.len() == 4 + p.users + i,
            rng@ == docs_gen(*p, s1, i as nat).1,
            forall|k: int| 0 <= k < 4 ==> action_record_matches(#[trigger] records@[k], k as nat),
            forall|j: int| 0 <= j < p.users ==> user_meta_matches(#[trigger] users@[j], *p, j as nat, us[j]),
            forall|j: int|
                0 <= j < p.users ==> user_record_matches(#[trigger] records@[4 + j], *p, j as nat, us[j]),
            forall|j: int|
                0 <= j < i ==> doc_meta_matches(
                    #[trigger] docs@[j],
                    j as nat,
                    docs_gen(*p, s1, i as nat).0[j],
                    us,
                ),
            forall|j: int|
                0 <= j < i ==> doc_record_matches(
                    #[trigger] records@[4 + p.users + j],
                    j as nat,
                    docs_gen(*p, s1, i as nat).0[j],
                    us,
                ),
    {
        let ghost prev = docs_gen(*p, s1, i as nat).0;
        proof {
            lemma_docs_gen_len(*p, s1, i as nat);
        }
        let (meta, record) = build_doc(p, &users, i, rng, Ghost(us));
        docs.push(meta);
        records.push(record);
        proof {
            assert(docs_gen(*p, s1, (i + 1) as nat).0 == prev.push(doc_step(*p, docs_gen(*p, s1, i as nat).1).0));
        }
    }
    EntitySet { users, docs, records }
}

/// The identifier an entity is stored under.
pub open spec fn record_id(r: EntityRecord) -> Seq<char> {
    match r {
        EntityRecord::Action { id } => id@,
        EntityRecord::User { id, .. } => id@,
        EntityRecord::Document { id, .. } => id@,
    }
}

proof fn lemma_docs_gen_owner(p: DatasetParams, s: u64, n: nat)
    requires
        p.users > 0,
    ensures
        forall|i: int| 0 <= i < n ==> (#[trigger] docs_gen(p, s, n).0[i]).owner < p.users,
    decreases n,
{
    lemma_docs_gen_len(p, s, n);
    if n > 0 {
        lemma_docs_gen_owner(p, s, (n - 1) as nat);
        lemma_docs_gen_len(p, s, (n - 1) as nat);
        let prev = docs_gen(p, s, (n - 1) as nat).0;
        assert forall|i: int| 0 <= i < n implies (#[trigger] docs_gen(p, s, n).0[i]).owner < p.users by {
            if i < n - 1 {
                assert(docs_gen(p, s, n).0[i] == prev[i]);
            }
        }
    }
}

/// Every document is owned by one of the users and belongs to its owner's department.
pub proof fn lemma_documents_in_owner_department(es: EntitySet, p: DatasetParams, s: u64)
    requires
        p.entities_fit(),
        entity_set_matches(es, p, s),
    ensures
        forall|i: int|
            0 <= i < p.documents ==> {
                &&& (#[trigger] es.docs@[i]).owner_idx < p.users
                &&& es.docs@[i].dept_idx == es.users@[es.docs@[i].owner_idx as int].dept_idx
            },
{
    reveal(doc_meta_matches);
    reveal(user_meta_matches);
    let (us, ds, _s2) = entities_gen(p, s);
    let s1 = users_gen(p, s, p.users as nat).1;
    if p.documents > 0 {
        lemma_docs_gen_owner(p, s1, p.documents as nat);
    }
    assert forall|i: int| 0 <= i < p.documents implies {
        &&& (#[trigger] es.docs@[i]).owner_idx < p.users
        &&& es.docs@[i].dept_idx == es.users@[es.docs@[i].owner_idx as int].dept_idx
    } by {
        assert(doc_meta_matches(es.docs@[i], i as nat, ds[i], us));
        let o = ds[i].owner as int;
        assert(user_meta_matches(es.users@[o], p, o as nat, us[o]));
    }
}

proof fn lemma_user_ids_distinct(i: nat, j: nat)
    requires
        user_id_spec(i) == user_id_spec(j),
    ensures
        i == j,
{
    lemma_strip_prefix("user_"@, padded(i, 6), padded(j, 6));
    lemma_padded_injective(i, j, 6);
}

proof fn lemma_doc_ids_distinct(i: nat, j: nat)
    requires
        doc_id_spec(i) == doc_id_spec(j),
    ensures
        i == j,
{
    lemma_strip_prefix("doc_"@, padded(i, 7), padded(j, 7));
    lemma_padded_injective(i, j, 7);
}

/// The identifier of entity `k` of the store generated for `p`.
pub open spec fn expected_id(p: DatasetParams, k: int) -> Seq<char> {
    if k < 4 {
        action_name_spec(action_at(k as nat))
    } else if k < 4 + p.users {
        user_id_spec((k - 4) as nat)
    } else {
        doc_id_spec((k - 4 - p.users) as nat)
    }
}

proof fn lemma_action_record_id(r: EntityRecord, k: nat)
    requires
        action_record_matches(r, k),
    ensures
        record_id(r) == action_name_spec(action_at(k)),
{
    reveal(action_record_matches);
}

proof fn lemma_user_record_id(r: EntityRecord, p: DatasetParams, i: nat, d: UserDraw)
    requires
        user_record_matches(r, p, i, d),
    ensures
        record_id(r) == user_id_spec(i),
{
    reveal(user_record_matches);
}

proof fn lemma_doc_record_id(r: EntityRecord, i: nat, d: DocDraw, us: Seq<UserDraw>)
    requires
        doc_record_matches(r, i, d, us),
    ensures
        record_id(r) == doc_id_spec(i),
{
    reveal(doc_record_matches);
}

proof fn lemma_record_id(es: EntitySet, p: DatasetParams, s: u64, k: int)
    requires
        entity_set_matches(es, p, s),
        0 <= k < es.records@.len(),
    ensures
        record_id(es.records@[k]) == expected_id(p, k),
{
    let (us, ds, _s2) = entities_gen(p, s);
    if k < 4 {
        lemma_action_record_id(es.records@[k], k as nat);
    } else if k < 4 + p.users {
        let j = k - 4;
        assert(user_record_matches(es.records@[4 + j], p, j as nat, us[j]));
        lemma_user_record_id(es.records@[4 + j], p, j as nat, us[j]);
    } else {
        let j = k - 4 - p.users;
        assert(doc_record_matches(es.records@[4 + p.users + j], j as nat, ds[j], us));
        lemma_doc_record_id(es.records@[4 + p.users + j], j as nat, ds[j], us);
    }
}

proof fn lemma_id_heads(i: nat, j: nat)
    ensures
        user_id_spec(i)[0] == 'u',
        user_id_spec(i)[1] == 's',
        doc_id_spec(j)[0] == 'd',
        doc_id_spec(j)[1] == 'o',
        action_name_spec(Action::Read)[0] == 'r',
        action_name_spec(Action::Update)[0] == 'u',
        action_name_spec(Action::Update)[1] == 'p',
        action_name_spec(Action::Delete)[0] == 'd',
        action_name_spec(Action::Delete)[1] == 'e',
        action_name_spec(Action::Admin)[0] == 'a',
        action_name_spec(Action::Read).len() == 4,
        action_name_spec(Action::Update).len() == 6,
        action_name_spec(Action::Delete).len() == 6,
        action_name_spec(Action::Admin).len() == 5,
{
    reveal_strlit("read");
    reveal_strlit("update");
    reveal_strlit("delete");
    reveal_strlit("admin");
    reveal_strlit("user_");
    reveal_strlit("doc_");
}

proof fn lemma_expected_ids_distinct(p: DatasetParams, a: int, b: int)
    requires
        0 <= a < b,
    ensures
        expected_id(p, a) != expected_id(p, b),
{
    let ra = expected_id(p, a);
    let rb = expected_id(p, b);
    let nu = p.users as int;
    lemma_id_heads(0, 0);
    if b < 4 {
        assert(ra[0] != rb[0]);
    } else if b < 4 + nu {
        lemma_id_heads((b - 4) as nat, 0);
        if a < 4 {
            assert(ra[0] != rb[0] || ra[1] != rb[1]);
        } else if ra == rb {
            lemma_user_ids_distinct((a - 4) as nat, (b - 4) as nat);
        }
    } else {
        lemma_id_heads(0, (b - 4 - nu) as nat);
        if a < 4 {
            assert(ra[0] != rb[0] || ra[1] != rb[1]);
        } else if a < 4 + nu {
            lemma_id_heads((a - 4) as nat, 0);
            assert(ra[0] != rb[0]);
        } else if ra == rb {
            lemma_doc_ids_distinct((a - 4 - nu) as nat, (b - 4 - nu) as nat);
        }
    }
}

/// No two entities of the generated store share an identifier: actions, users (`user_`
/// and six digits) and documents (`doc_` and seven digits) are all distinct.
pub proof fn lemma_entity_ids_unique(es: EntitySet, p: DatasetParams, s: u64)
    requires
        entity_set_matches(es, p, s),
    ensures
        forall|a: int, b: int|
            0 <= a < b < es.records@.len() ==> record_id(#[trigger] es.records@[a]) != record_id(
                #[trigger] es.records@[b],
            ),
{
    assert forall|a: int, b: int|
        0 <= a < b < es.records@.len() implies record_id(#[trigger] es.records@[a]) != record_id(
        #[trigger] es.records@[b],
    ) by {
        lemma_record_id(es, p, s, a);
        lemma_record_id(es, p, s, b);
        lemma_expected_ids_distinct(p, a, b);
    }
}

/// Two lists of extra attributes with the same names and values, in the same order.
pub open spec fn attributes_agree(a: Seq<Attribute>, b: Seq<Attribute>) -> bool {
    &&& a.len() == b.len()
    &&& forall|k: int| 0 <= k < a.len() ==> (#[trigger] a[k]).name@ == b[k].name@ && a[k].value@ == b[k].value@
}

/// Two entity records of the same kind whose fields hold the same values.
pub open spec fn records_agree(a: EntityRecord, b: EntityRecord) -> bool {
    match (a, b) {
        (EntityRecord::Action { id: i1 }, EntityRecord::Action { id: i2 }) => i1@ == i2@,
        (
            EntityRecord::User {
                id: i1,
                department: d1,
                team: t1,
                clearance: c1,
                is_manager: m1,
                employee_id: e1,
                extra: x1,
            },
            EntityRecord::User {
                id: i2,
                department: d2,
                team: t2,
                clearance: c2,
                is_manager: m2,
                employee_id: e2,
                extra: x2,
            },
        ) => {
            &&& i1@ == i2@
            &&& d1@ == d2@
            &&& t1@ == t2@
            &&& c1@ == c2@
            &&& m1 == m2
            &&& e1@ == e2@
            &&& attributes_agree(x1@, x2@)
        },
        (
            EntityRecord::Document { id: i1, owner: o1, department: d1, clearance: c1, doc_type: t1, extra: x1 },
            EntityRecord::Document { id: i2, owner: o2, department: d2, clearance: c2, doc_type: t2, extra: x2 },
        ) => {
            &&& i1@ == i2@
            &&& o1@ == o2@
            &&& d1@ == d2@
            &&& c1@ == c2@
            &&& t1@ == t2@
            &&& attributes_agree(x1@, x2@)
        },
        _ => false,
    }
}

proof fn lemma_extras_agree(a: Seq<Attribute>, b: Seq<Attribute>, draws: Seq<usize>)
    requires
        extra_matches(a, draws),
        extra_matches(b, draws),
    ensures
        attributes_agree(a, b),
{
    assert forall|k: int| 0 <= k < a.len() implies (#[trigger] a[k]).name@ == b[k].name@ && a[k].value@
        == b[k].value@ by {
        assert(attribute_matches(a[k], k as nat, draws[k]));
        assert(attribute_matches(b[k], k as nat, draws[k]));
    }
}

/// Two entity stores generated for the same parameters from the same state hold the same
/// records: the same kinds, in the same order, with the same attribute values.
pub proof fn lemma_entity_records_agree(a: EntitySet, b: EntitySet, p: DatasetParams, s: u64)
    requires
        entity_set_matches(a, p, s),
        entity_set_matches(b, p, s),
    ensures
        a.records@.len() == b.records@.len(),
        forall|k: int| 0 <= k < a.records@.len() ==> records_agree(#[trigger] a.records@[k], b.records@[k]),
{
    reveal(action_record_matches);
    reveal(user_record_matches);
    reveal(doc_record_matches);
    let (us, ds, _s2) = entities_gen(p, s);
    assert forall|k: int| 0 <= k < a.records@.len() implies records_agree(#[trigger] a.records@[k], b.records@[k]) by {
        if k < 4 {
            assert(action_record_matches(a.records@[k], k as nat));
            assert(action_record_matches(b.records@[k], k as nat));
        } else if k < 4 + p.users {
            let i = k - 4;
            assert(user_record_matches(a.records@[4 + i], p, i as nat, us[i]));
            assert(user_record_matches(b.records@[4 + i], p, i as nat, us[i]));
            match (a.records@[k], b.records@[k]) {
                (EntityRecord::User { extra: x1, .. }, EntityRecord::User { extra: x2, .. }) => {
                    lemma_extras_agree(x1@, x2@, us[i].extra);
                },
                _ => {},
            }
        } else {
            let i = k - 4 - p.users;
            assert(doc_record_matches(a.records@[4 + p.users + i], i as nat, ds[i], us));
            assert(doc_record_matches(b.records@[4 + p.users + i], i as nat, ds[i], us));
            match (a.records@[k], b.records@[k]) {
                (EntityRecord::Document { extra: x1, .. }, EntityRecord::Document { extra: x2, .. }) => {
                    lemma_extras_agree(x1@, x2@, ds[i].extra);
                },
                _ => {},
            }
        }
    }
}

/// `extra` holds `n` attributes `attr_0` .. `attr_{n-1}`, in order, attribute `k` holding
/// `val_<k>_<v>` for some `v` below ten.
pub open spec fn numbered_attributes(extra: Seq<Attribute>, n: nat) -> bool {
    &&& extra.len() == n
    &&& forall|k: int|
        0 <= k < n ==> (#[trigger] extra[k]).name@ == "attr_"@ + dec(k as nat) && exists|v: nat|
            v < 10 && extra[k].value@ == "val_"@ + dec(k as nat) + "_"@ + #[trigger] dec(v)
}

proof fn lemma_users_gen_extras(p: DatasetParams, s: u64, n: nat)
    ensures
        forall|i: int|
            0 <= i < n ==> {
                &&& (#[trigger] users_gen(p, s, n).0[i]).extra.len() == p.attributes_per_entity
                &&& forall|k: int| 0 <= k < p.attributes_per_entity ==> #[trigger] users_gen(p, s, n).0[i].extra[k] < 10
            },
    decreases n,
{
    lemma_users_gen_len(p, s, n);
    if n > 0 {
        lemma_users_gen_extras(p, s, (n - 1) as nat);
        lemma_users_gen_len(p, s, (n - 1) as nat);
        let (prev, s1) = users_gen(p, s, (n - 1) as nat);
        let (dept, t1) = range_draw(s1, 0, p.departments);
        let (team, t2) = range_draw(t1, 0, p.teams);
        let (cl, t3) = range_draw(t2, 0, 4);
        lemma_draw_seq_len(t3, p.attributes_per_entity as nat, 10);
        lemma_draw_seq_below(t3, p.attributes_per_entity as nat, 10);
        assert forall|i: int| 0 <= i < n implies {
            &&& (#[trigger] users_gen(p, s, n).0[i]).extra.len() == p.attributes_per_entity
            &&& forall|k: int| 0 <= k < p.attributes_per_entity ==> #[trigger] users_gen(p, s, n).0[i].extra[k] < 10
        } by {
            if i < n - 1 {
                assert(users_gen(p, s, n).0[i] == prev[i]);
            }
        }
    }
}

proof fn lemma_docs_gen_extras(p: DatasetParams, s: u64, n: nat)
    ensures
        forall|i: int|
            0 <= i < n ==> {
                &&& (#[trigger] docs_gen(p, s, n).0[i]).extra.len() == p.attributes_per_entity
                &&& forall|k: int| 0 <= k < p.attributes_per_entity ==> #[trigger] docs_gen(p, s, n).0[i].extra[k] < 10
            },
    decreases n,
{
    lemma_docs_gen_len(p, s, n);
    if n > 0 {
        lemma_docs_gen_extras(p, s, (n - 1) as nat);
        lemma_docs_gen_len(p, s, (n - 1) as nat);
        let (prev, s1) = docs_gen(p, s, (n - 1) as nat);
        let (owner, t1) = range_draw(s1, 0, p.users);
        let (cl, t2) = range_draw(t1, 0, 4);
        lemma_draw_seq_len(t2, p.attributes_per_entity as nat, 10);
        lemma_draw_seq_below(t2, p.attributes_per_entity as nat, 10);
        assert forall|i: int| 0 <= i < n implies {
            &&& (#[trigger] docs_gen(p, s, n).0[i]).extra.len() == p.attributes_per_entity
            &&& forall|k: int| 0 <= k < p.attributes_per_entity ==> #[trigger] docs_gen(p, s, n).0[i].extra[k] < 10
        } by {
            if i < n - 1 {
                assert(docs_gen(p, s, n).0[i] == prev[i]);
            }
        }
    }
}

proof fn lemma_numbered(extra: Seq<Attribute>, draws: Seq<usize>, n: nat)
    requires
        extra_matches(extra, draws),
        draws.len() == n,
        forall|k: int| 0 <= k < n ==> #[trigger] draws[k] < 10,
    ensures
        numbered_attributes(extra, n),
{
    assert forall|k: int| 0 <= k < n implies (#[trigger] extra[k]).name@ == "attr_"@ + dec(k as nat) && exists|v: nat|
        v < 10 && extra[k].value@ == "val_"@ + dec(k as nat) + "_"@ + #[trigger] dec(v) by {
        assert(attribute_matches(extra[k], k as nat, draws[k]));
        let v = draws[k] as nat;
        assert(v < 10 && extra[k].value@ == "val_"@ + dec(k as nat) + "_"@ + dec(v));
    }
}

/// Every user and every document of the generated store carries exactly
/// `attributes_per_entity` extra attributes, `attr_0` to `attr_{n-1}` in order, each holding
/// `val_<k>_<v>` for a value `v` below ten.
pub proof fn lemma_records_carry_extra_attributes(es: EntitySet, p: DatasetParams, s: u64)
    requires
        entity_set_matches(es, p, s),
    ensures
        forall|i: int|
            0 <= i < p.users ==> (#[trigger] es.records@[4 + i] matches EntityRecord::User { extra, .. }
                && numbered_attributes(extra@, p.attributes_per_entity as nat)),
        forall|i: int|
            0 <= i < p.documents ==> (#[trigger] es.records@[4 + p.users + i] matches EntityRecord::Document {
                extra,
                ..
            } && numbered_attributes(extra@, p.attributes_per_entity as nat)),
{
    reveal(user_record_matches);
    reveal(doc_record_matches);
    let (us, s1) = users_gen(p, s, p.users as nat);
    let (ds, _s2) = docs_gen(p, s1, p.documents as nat);
    lemma_users_gen_extras(p, s, p.users as nat);
    lemma_docs_gen_extras(p, s1, p.documents as nat);
    assert forall|i: int| 0 <= i < p.users implies (#[trigger] es.records@[4 + i] matches EntityRecord::User {
        extra,
        ..
    } && numbered_attributes(extra@, p.attributes_per_entity as nat)) by {
        assert(user_record_matches(es.records@[4 + i], p, i as nat, us[i]));
        assert(us[i].extra.len() == p.attributes_per_entity);
        assert(forall|k: int| 0 <= k < p.attributes_per_entity ==> #[trigger] us[i].extra[k] < 10);
        match es.records@[4 + i] {
            EntityRecord::User { extra, .. } => {
                lemma_numbered(extra@, us[i].extra, p.attributes_per_entity as nat);
            },
            _ => {},
        }
    }
    assert forall|i: int| 0 <= i < p.documents implies (#[trigger] es.records@[4 + p.users + i] matches EntityRecord::Document {
        extra,
        ..
    } && numbered_attributes(extra@, p.attributes_per_entity as nat)) by {
        assert(doc_record_matches(es.records@[4 + p.users + i], i as nat, ds[i], us));
        assert(ds[i].extra.len() == p.attributes_per_entity);
        assert(forall|k: int| 0 <= k < p.attributes_per_entity ==> #[trigger] ds[i].extra[k] < 10);
        match es.records@[4 + p.users + i] {
            EntityRecord::Document { extra, .. } => {
                lemma_numbered(extra@, ds[i].extra, p.attributes_per_entity as nat);
            },
            _ => {},
        }
    }
}

} // verus!
