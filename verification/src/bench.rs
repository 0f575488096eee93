//! Building the Cedar inputs of the in-process benchmark, checking that two evaluators
//! agree, and splitting the benchmark's iterations among worker threads.
use vstd::prelude::*;
use vstd::string::*;

use cedar_policy::{Authorizer, Context, Entities, EntityUid, Policy, PolicySet, Request};
use serde_json::Value;

use crate::cedar::{
    authorize, cedar_context_is_empty, cedar_context_of_json, cedar_context_parses,
    cedar_entities_parse, cedar_may_decide, cedar_parsed_policy, cedar_policy_id,
    cedar_policy_parses, cedar_policy_set_json_parses, cedar_policy_set_policies,
    cedar_policy_static, cedar_request_parts, cedar_uid_json_parses, cedar_uid_of_json,
    cedar_uid_of_text, cedar_uid_parses, context_empty, context_from_json_value,
    entities_from_json_value, entity_uid_from_json, entity_uid_from_str, parse_policy,
    policy_ids_distinct, policy_set_from_json_value, policy_set_from_policies, request_new, Verdict,
};
use crate::nesting::nesting_within_limit;
use crate::params::DatasetParams;
use crate::policies::{lemma_policy_ids_unique, policies_match, PolicyEntry};

verus! {

/// Message for a policies file that is neither Cedar policy-set JSON, nor an array of
/// entries, nor one policy text.
pub const UNSUPPORTED_SHAPE: &'static str = "unsupported policies.json shape; expected Cedar policy-set JSON or benchmark array";

/// The keys that mark an object as Cedar's JSON policy-set format.
pub open spec fn is_policy_set_key(k: Seq<char>) -> bool {
    k == "staticPolicies"@ || k == "templates"@ || k == "templateLinks"@
}

/// The shape of a policies file, with what the benchmark reads of each shape.
pub enum PoliciesDocument {
    /// A JSON object: its keys, and the object itself.
    Object { keys: Vec<String>, value: Value },
    /// A JSON array whose elements all read as `{id, content}` entries.
    Entries(Vec<PolicyEntry>),
    /// A JSON array with an element that does not read as an entry, and why.
    BadEntries(String),
    /// A JSON string: one policy text.
    Text(String),
    /// Any other JSON value.
    Other,
}

/// `a` followed by `b`.
fn joined(a: &str, b: &str) -> (s: String)
    ensures
        s@ == a@ + b@,
{
    let mut s = String::from_str(a);
    s.append(b);
    s
}

/// `a`, `b`, `c` and `d` in a row.
fn joined4(a: &str, b: &str, c: &str, d: &str) -> (s: String)
    ensures
        s@ == a@ + b@ + c@ + d@,
{
    let mut s = String::from_str(a);
    s.append(b);
    s.append(c);
    s.append(d);
    s
}

/// Whether one of `keys` marks Cedar's policy-set format.
fn has_policy_set_key(keys: &Vec<String>) -> (found: bool)
    ensures
        found <==> exists|i: int| 0 <= i < keys@.len() && is_policy_set_key(#[trigger] keys@[i]@),
{
    let a = String::from_str("staticPolicies");
    let b = String::from_str("templates");
    let c = String::from_str("templateLinks");
    for i in 0..keys.len()
        invariant
            a@ == "staticPolicies"@,
            b@ == "templates"@,
            c@ == "templateLinks"@,
            forall|j: int| 0 <= j < i ==> !is_policy_set_key(#[trigger] keys@[j]@),
    {
        if keys[i] == a || keys[i] == b || keys[i] == c {
            assert(is_policy_set_key(keys@[i as int]@));
            return true;
        }
    }
    false
}

/// Entry `k` is the first whose text does not parse.
pub open spec fn first_unparsable(entries: Seq<PolicyEntry>, k: int) -> bool {
    &&& 0 <= k < entries.len()
    &&& !cedar_policy_parses(entries[k].content@)
    &&& forall|j: int| 0 <= j < k ==> cedar_policy_parses(#[trigger] entries[j].content@)
}

/// `m` is `prefix` followed by some detail.
pub open spec fn starts_with(m: Seq<char>, prefix: Seq<char>) -> bool {
    exists|detail: Seq<char>| m == prefix + detail
}

/// Every entry's text parses as a policy.
pub open spec fn entries_parse(entries: Seq<PolicyEntry>) -> bool {
    forall|j: int| 0 <= j < entries.len() ==> cedar_policy_parses(#[trigger] entries[j].content@)
}

/// No two entries share an identifier.
pub open spec fn entry_ids_distinct(entries: Seq<PolicyEntry>) -> bool {
    forall|a: int, b: int| 0 <= a < b < entries.len() ==> (#[trigger] entries[a]).id@ != (#[trigger] entries[b]).id@
}

/// Every entry's text is shallow enough for Cedar's parser.
pub open spec fn entries_within_limit(entries: Seq<PolicyEntry>) -> bool {
    forall|j: int| 0 <= j < entries.len() ==> nesting_within_limit(#[trigger] entries[j].content@)
}

/// The policy Cedar parses from entry `e`, named by its identifier.
pub open spec fn entry_policy(e: PolicyEntry) -> Policy {
    cedar_parsed_policy(Some(e.id@), e.content@)
}

/// `contents` holds the policy of each entry under the entry's identifier, and nothing else.
pub open spec fn holds_entries(contents: Map<Seq<char>, Policy>, entries: Seq<PolicyEntry>) -> bool {
    &&& forall|k: Seq<char>|
        contents.dom().contains(k) <==> exists|i: int| 0 <= i < entries.len() && (#[trigger] entries[i]).id@ == k
    &&& forall|i: int| 0 <= i < entries.len() ==> contents[(#[trigger] entries[i]).id@] == entry_policy(entries[i])
}

/// The entries form a policy set: every text parses and no identifier is used twice.
pub open spec fn policy_entries_accepted(entries: Seq<PolicyEntry>) -> bool {
    entries_parse(entries) && entry_ids_distinct(entries)
}

/// Parses each entry as a policy named by its identifier, in order, and gathers them into a
/// policy set; fails at the first entry whose text does not parse, and on an identifier used
/// twice.
pub fn policy_set_from_entries(entries: &Vec<PolicyEntry>) -> (r: Result<PolicySet, String>)
    requires
        entries_within_limit(entries@),
    ensures
        r is Ok <==> policy_entries_accepted(entries@),
        r matches Ok(set) ==> holds_entries(cedar_policy_set_policies(set), entries@),
        forall|k: int|
            first_unparsable(entries@, k) ==> (r matches Err(m) && starts_with(
                m@,
                "failed to parse policy "@ + entries@[k].id@ + ": "@,
            )),
        entries_parse(entries@) && !entry_ids_distinct(entries@) ==> (r matches Err(m) && starts_with(
            m@,
            "failed to build policy set: "@,
        )),
{
    let mut parsed: Vec<Policy> = Vec::new();
    for i in 0..entries.len()
        invariant
            parsed@.len() == i,
            forall|j: int| 0 <= j < i ==> cedar_policy_parses(#[trigger] entries@[j].content@),
            entries_within_limit(entries@),
            forall|j: int|
                0 <= j < i ==> cedar_policy_static(#[trigger] parsed@[j]) && cedar_policy_id(parsed@[j])
                    == entries@[j].id@ && parsed@[j] == entry_policy(entries@[j]),
    {
        match parse_policy(Some(entries[i].id.as_str()), entries[i].content.as_str()) {
            Ok(policy) => parsed.push(policy),
            Err(e) => {
                let m = joined4("failed to parse policy ", entries[i].id.as_str(), ": ", e.as_str());
                assert(m@ == "failed to parse policy "@ + entries@[i as int].id@ + ": "@ + e@);
                proof {
                    assert forall|k: int| first_unparsable(entries@, k) implies k == i by {
                        if k < i {
                        } else if k > i {
                            assert(cedar_policy_parses(entries@[i as int].content@));
                        }
                    }
                }
                return Err(m);
            },
        }
    }
    proof {
        assert(policy_ids_distinct(parsed@) <==> entry_ids_distinct(entries@)) by {
            if policy_ids_distinct(parsed@) {
                assert forall|a: int, b: int| 0 <= a < b < entries@.len() implies (#[trigger] entries@[a]).id@
                    != (#[trigger] entries@[b]).id@ by {
                    assert(cedar_policy_id(parsed@[a]) != cedar_policy_id(parsed@[b]));
                }
            }
            if entry_ids_distinct(entries@) {
                assert forall|a: int, b: int| 0 <= a < b < parsed@.len() implies cedar_policy_id(
                    #[trigger] parsed@[a],
                ) != cedar_policy_id(#[trigger] parsed@[b]) by {
                    assert(entries@[a].id@ != entries@[b].id@);
                }
            }
        }
        assert forall|k: int| !first_unparsable(entries@, k) by {}
    }
    let ghost policies = parsed@;
    match policy_set_from_policies(parsed) {
        Ok(set) => {
            proof {
                let contents = cedar_policy_set_policies(set);
                assert forall|k: Seq<char>| contents.dom().contains(k) <==> exists|i: int|
                    0 <= i < entries@.len() && (#[trigger] entries@[i]).id@ == k by {
                    if contents.dom().contains(k) {
                        let i = choose|i: int| 0 <= i < policies.len() && cedar_policy_id(#[trigger] policies[i]) == k;
                        assert(entries@[i].id@ == k);
                    }
                    if exists|i: int| 0 <= i < entries@.len() && (#[trigger] entries@[i]).id@ == k {
                        let i = choose|i: int| 0 <= i < entries@.len() && (#[trigger] entries@[i]).id@ == k;
                        assert(cedar_policy_id(policies[i]) == k);
                    }
                }
                assert forall|i: int| 0 <= i < entries@.len() implies contents[(#[trigger] entries@[i]).id@]
                    == entry_policy(entries@[i]) by {
                    assert(contents[cedar_policy_id(policies[i])] == policies[i]);
                }
            }
            Ok(set)
        },
        Err(e) => {
            let m = joined("failed to build policy set: ", e.as_str());
            assert(m@ == "failed to build policy set: "@ + e@);
            Err(m)
        },
    }
}

/// The generated policies form a policy set exactly when Cedar parses each of their texts:
/// their identifiers never clash.
pub proof fn lemma_generated_policies_accepted(entries: Seq<PolicyEntry>, p: DatasetParams)
    requires
        policies_match(entries, p),
    ensures
        policy_entries_accepted(entries) <==> entries_parse(entries),
{
    lemma_policy_ids_unique(entries, p);
}

/// Builds the policy set of the benchmark from a policies file: Cedar's policy-set JSON
/// when the object has one of its keys; an array of `{id, content}` entries; or one policy
/// text. Anything else is refused.
pub fn build_policy_set(doc: PoliciesDocument) -> (r: Result<PolicySet, String>)
    requires
        match doc {
            PoliciesDocument::Entries(entries) => entries_within_limit(entries@),
            PoliciesDocument::Text(src) => nesting_within_limit(src@),
            _ => true,
        },
    ensures
        match doc {
            PoliciesDocument::Object { keys, value } => if exists|i: int|
                0 <= i < keys@.len() && is_policy_set_key(#[trigger] keys@[i]@) {
                &&& r is Ok <==> cedar_policy_set_json_parses(value)
                &&& r matches Err(m) ==> starts_with(m@, "failed to parse Cedar policy-set JSON: "@)
            } else {
                r matches Err(m) && m@ == UNSUPPORTED_SHAPE@
            },
            PoliciesDocument::Entries(entries) => {
                &&& r is Ok <==> policy_entries_accepted(entries@)
                &&& r matches Ok(set) ==> holds_entries(cedar_policy_set_policies(set), entries@)
                &&& forall|k: int|
                    first_unparsable(entries@, k) ==> (r matches Err(m) && starts_with(
                        m@,
                        "failed to parse policy "@ + entries@[k].id@ + ": "@,
                    ))
                &&& entries_parse(entries@) && !entry_ids_distinct(entries@) ==> (r matches Err(m)
                    && starts_with(m@, "failed to build policy set: "@))
            },
            PoliciesDocument::BadEntries(e) => r matches Err(m) && m@
                == "failed to parse benchmark policy entries: "@ + e@,
            PoliciesDocument::Text(src) => {
                &&& r is Ok <==> cedar_policy_parses(src@)
                &&& r matches Ok(set) ==> cedar_policy_set_policies(set) == map![
                    "policy0"@ => cedar_parsed_policy(None, src@),
                ]
                &&& r matches Err(m) ==> starts_with(m@, "failed to parse policy string: "@)
            },
            PoliciesDocument::Other => r matches Err(m) && m@ == UNSUPPORTED_SHAPE@,
        },
{
    match doc {
        PoliciesDocument::Object { keys, value } => {
            if has_policy_set_key(&keys) {
                match policy_set_from_json_value(value) {
                    Ok(set) => Ok(set),
                    Err(e) => {
                        let m = joined("failed to parse Cedar policy-set JSON: ", e.as_str());
                        assert(m@ == "failed to parse Cedar policy-set JSON: "@ + e@);
                        Err(m)
                    },
                }
            } else {
                Err(String::from_str(UNSUPPORTED_SHAPE))
            }
        },
        PoliciesDocument::Entries(entries) => policy_set_from_entries(&entries),
        PoliciesDocument::BadEntries(e) => Err(joined("failed to parse benchmark policy entries: ", e.as_str())),
        PoliciesDocument::Text(src) => {
            let policy = match parse_policy(None, src.as_str()) {
                Ok(policy) => policy,
                Err(e) => {
                    let m = joined("failed to parse policy string: ", e.as_str());
                    assert(m@ == "failed to parse policy string: "@ + e@);
                    return Err(m);
                },
            };
            let mut one: Vec<Policy> = Vec::new();
            one.push(policy);
            let ghost single = one@;
            match policy_set_from_policies(one) {
                Ok(set) => {
                    proof {
                        let contents = cedar_policy_set_policies(set);
                        let expected = map!["policy0"@ => cedar_parsed_policy(None, src@)];
                        assert(single[0] == cedar_parsed_policy(None, src@));
                        assert(cedar_policy_id(single[0]) == "policy0"@);
                        assert forall|k: Seq<char>| contents.dom().contains(k) <==> expected.dom().contains(k) by {
                            if contents.dom().contains(k) {
                                let i = choose|i: int| 0 <= i < single.len() && cedar_policy_id(#[trigger] single[i]) == k;
                                assert(i == 0);
                            }
                        }
                        assert(contents[cedar_policy_id(single[0])] == single[0]);
                        assert(contents =~= expected);
                    }
                    Ok(set)
                },
                Err(e) => {
                    let m = joined("failed to build policy set: ", e.as_str());
                    assert(m@ == "failed to build policy set: "@ + e@);
                    Err(m)
                },
            }
        },
        PoliciesDocument::Other => Err(String::from_str(UNSUPPORTED_SHAPE)),
    }
}

/// What reading the entity store comes to, given what Cedar's reader returned: the store
/// itself, or Cedar's error behind the benchmark's prefix.
pub fn entities_outcome(parsed: Result<Entities, String>) -> (r: Result<Entities, String>)
    ensures
        match parsed {
            Ok(entities) => r == Ok::<Entities, String>(entities),
            Err(e) => r matches Err(m) && m@ == "failed to parse entities JSON: "@ + e@,
        },
{
    match parsed {
        Ok(entities) => Ok(entities),
        Err(e) => Err(joined("failed to parse entities JSON: ", e.as_str())),
    }
}

/// Reads the entity store of the benchmark from its JSON form.
pub fn build_entities(json: Value) -> (r: Result<Entities, String>)
    ensures
        r is Ok <==> cedar_entities_parse(json),
        r matches Err(m) ==> starts_with(m@, "failed to parse entities JSON: "@),
{
    let parsed = entities_from_json_value(json);
    let ghost given = parsed;
    let r = entities_outcome(parsed);
    proof {
        if given is Err {
            assert(r->Err_0@ == "failed to parse entities JSON: "@ + given->Err_0@);
        }
    }
    r
}

/// How a request file gives an entity reference.
pub enum UidJson {
    /// As a string such as `User::"alice"`.
    Text(String),
    /// As any other JSON value, read as Cedar's JSON form of a reference.
    Json(Value),
}

/// How a request file gives the request's context.
pub enum ContextJson {
    /// No `context` field.
    Absent,
    /// A `null` context.
    Null,
    /// Any other value, read as a context.
    Given(Value),
}

/// The fields of one line of the requests file.
pub struct RequestJson {
    pub principal: Option<UidJson>,
    pub action: Option<UidJson>,
    pub resource: Option<UidJson>,
    pub context: ContextJson,
}

/// The message for a missing field.
pub open spec fn missing_field_message(field: Seq<char>) -> Seq<char> {
    "missing "@ + field + " field in request"@
}

/// A reference that can be read: present, and accepted by Cedar in the form it is given.
pub open spec fn uid_readable(v: Option<UidJson>) -> bool {
    match v {
        None => false,
        Some(UidJson::Text(s)) => cedar_uid_parses(s@),
        Some(UidJson::Json(j)) => cedar_uid_json_parses(j),
    }
}

/// `u` is the entity reference Cedar reads from `v`, in the form `v` gives it.
pub open spec fn uid_read_as(v: Option<UidJson>, u: EntityUid) -> bool {
    match v {
        None => false,
        Some(UidJson::Text(s)) => u == cedar_uid_of_text(s@),
        Some(UidJson::Json(j)) => u == cedar_uid_of_json(j),
    }
}

/// `ctx` is the context read from `c`: Cedar's reading of a given value, an empty context
/// otherwise.
pub open spec fn context_read_as(c: ContextJson, ctx: Context) -> bool {
    match c {
        ContextJson::Given(j) => ctx == cedar_context_of_json(j),
        _ => cedar_context_is_empty(ctx),
    }
}

/// `req` names the references and the context of the request line `json`.
pub open spec fn request_read_as(json: RequestJson, req: Request) -> bool {
    let (principal, action, resource, context) = cedar_request_parts(req);
    &&& uid_read_as(json.principal, principal)
    &&& uid_read_as(json.action, action)
    &&& uid_read_as(json.resource, resource)
    &&& context_read_as(json.context, context)
}

/// A context that can be read: absent, `null`, or accepted by Cedar.
pub open spec fn context_readable(c: ContextJson) -> bool {
    match c {
        ContextJson::Given(j) => cedar_context_parses(j),
        _ => true,
    }
}

/// `m` is the message for failing to read the reference `v` of field `field`.
pub open spec fn uid_error(v: Option<UidJson>, field: Seq<char>, m: Seq<char>) -> bool {
    match v {
        None => m == missing_field_message(field),
        Some(UidJson::Text(s)) => starts_with(
            m,
            "failed to parse "@ + field + " `"@ + s@ + "` as an entity UID: "@,
        ),
        Some(UidJson::Json(_)) => starts_with(m, "failed to parse "@ + field + " JSON as an entity UID: "@),
    }
}

/// Reads the entity reference of field `field_name` of a request.
pub fn parse_entity_uid(value: Option<UidJson>, field_name: &str) -> (r: Result<EntityUid, String>)
    ensures
        r is Ok <==> uid_readable(value),
        r matches Ok(u) ==> uid_read_as(value, u),
        r matches Err(m) ==> uid_error(value, field_name@, m@),
{
    match value {
        None => {
            let mut m = joined("missing ", field_name);
            m.append(" field in request");
            Err(m)
        },
        Some(UidJson::Text(uid)) => match entity_uid_from_str(uid.as_str()) {
            Ok(euid) => Ok(euid),
            Err(e) => {
                let mut m = joined4("failed to parse ", field_name, " `", uid.as_str());
                m.append("` as an entity UID: ");
                m.append(e.as_str());
                assert(m@ == "failed to parse "@ + field_name@ + " `"@ + uid@ + "` as an entity UID: "@ + e@);
                Err(m)
            },
        },
        Some(UidJson::Json(json)) => match entity_uid_from_json(json) {
            Ok(euid) => Ok(euid),
            Err(e) => {
                let mut m = joined4("failed to parse ", field_name, " JSON as an entity UID: ", e.as_str());
                assert(m@ == "failed to parse "@ + field_name@ + " JSON as an entity UID: "@ + e@);
                Err(m)
            },
        },
    }
}

/// Builds a Cedar request from one line of the requests file: the principal, the action and
/// the resource in that order, then the context (empty when absent or `null`).
pub fn build_request(json: RequestJson) -> (r: Result<Request, String>)
    ensures
        r is Ok <==> uid_readable(json.principal) && uid_readable(json.action) && uid_readable(json.resource)
            && context_readable(json.context),
        r matches Ok(req) ==> request_read_as(json, req),
        !uid_readable(json.principal) ==> (r matches Err(m) && uid_error(json.principal, "principal"@, m@)),
        uid_readable(json.principal) && !uid_readable(json.action) ==> (r matches Err(m) && uid_error(
            json.action,
            "action"@,
            m@,
        )),
        uid_readable(json.principal) && uid_readable(json.action) && !uid_readable(json.resource) ==> (r matches Err(
            m,
        ) && uid_error(json.resource, "resource"@, m@)),
        uid_readable(json.principal) && uid_readable(json.action) && uid_readable(json.resource)
            && !context_readable(json.context) ==> (r matches Err(m) && starts_with(
            m@,
            "failed to parse request context: "@,
        )),
{
    let ghost principal_json = json.principal;
    let ghost action_json = json.action;
    let ghost resource_json = json.resource;
    let principal = parse_entity_uid(json.principal, "principal");
    let principal = match principal {
        Ok(u) => u,
        Err(m) => {
            return Err(m);
        },
    };
    let action = match parse_entity_uid(json.action, "action") {
        Ok(u) => u,
        Err(m) => {
            return Err(m);
        },
    };
    let resource = match parse_entity_uid(json.resource, "resource") {
        Ok(u) => u,
        Err(m) => {
            return Err(m);
        },
    };
    let context = match json.context {
        ContextJson::Absent => context_empty(),
        ContextJson::Null => context_empty(),
        ContextJson::Given(value) => match context_from_json_value(value) {
            Ok(c) => c,
            Err(e) => {
                let m = joined("failed to parse request context: ", e.as_str());
                assert(m@ == "failed to parse request context: "@ + e@);
                return Err(m);
            },
        },
    };
    match request_new(principal, action, resource, context) {
        Ok(request) => Ok(request),
        Err(e) => Err(joined("failed to build Cedar request: ", e.as_str())),
    }
}

/// How many requests, from the first, are evaluated by both evaluators before a benchmark.
pub const PARITY_SAMPLE: usize = 128;

/// The number of requests compared: the sample size, or all of them if fewer.
pub open spec fn parity_len(n: nat) -> nat {
    if n < PARITY_SAMPLE { n } else { PARITY_SAMPLE as nat }
}

/// `i` is the first position where `a` and `b` disagree.
pub open spec fn first_disagreement(a: Seq<Verdict>, b: Seq<Verdict>, i: int) -> bool {
    &&& 0 <= i < a.len()
    &&& i < b.len()
    &&& a[i] != b[i]
    &&& forall|j: int| 0 <= j < i ==> a[j] == b[j]
}

/// The first position where `a` and `b` disagree, if any, among their common positions.
pub fn first_mismatch(a: &Vec<Verdict>, b: &Vec<Verdict>) -> (r: Option<usize>)
    ensures
        r matches Some(i) ==> first_disagreement(a@, b@, i as int),
        r is None ==> forall|j: int| 0 <= j < a@.len() && j < b@.len() ==> a@[j] == b@[j],
{
    let n = if a.len() < b.len() { a.len() } else { b.len() };
    for i in 0..n
        invariant
            n <= a@.len(),
            n <= b@.len(),
            n == a@.len() || n == b@.len(),
            forall|j: int| 0 <= j < i ==> a@[j] == b@[j],
    {
        if a[i] != b[i] {
            return Some(i);
        }
    }
    None
}

/// The decisions of the stateless evaluator on the first requests, and the first request
/// on which the other evaluator decided differently.
pub struct ParityReport {
    pub stateless: Vec<Verdict>,
    pub mismatch: Option<usize>,
}

/// Evaluates the first `PARITY_SAMPLE` requests (or all, if fewer) with the stateless
/// authorizer, in order, and compares each decision with the one the other evaluator gave
/// for the same request, `cached[i]`.
pub fn verify_backend_parity(
    requests: &Vec<Request>,
    authorizer: &Authorizer,
    policies: &PolicySet,
    entities: &Entities,
    cached: &Vec<Verdict>,
) -> (report: ParityReport)
    requires
        cached@.len() == parity_len(requests@.len()),
    ensures
        report.stateless@.len() == parity_len(requests@.len()),
        forall|i: int|
            0 <= i < report.stateless@.len() ==> cedar_may_decide(
                requests@[i],
                *policies,
                *entities,
                #[trigger] report.stateless@[i],
            ),
        report.mismatch matches Some(i) ==> first_disagreement(report.stateless@, cached@, i as int),
        report.mismatch is None ==> report.stateless@ == cached@,
{
    let n = if requests.len() < PARITY_SAMPLE { requests.len() } else { PARITY_SAMPLE };
    let mut stateless: Vec<Verdict> = Vec::new();
    for i in 0..n
        invariant
            n == parity_len(requests@.len()),
            n <= requests@.len(),
            stateless@.len() == i,
            forall|j: int|
                0 <= j < i ==> cedar_may_decide(requests@[j], *policies, *entities, #[trigger] stateless@[j]),
    {
        stateless.push(authorize(authorizer, &requests[i], policies, entities));
    }
    let mismatch = first_mismatch(&stateless, cached);
    proof {
        if mismatch is None {
            assert(stateless@ =~= cached@);
        }
    }
    ParityReport { stateless, mismatch }
}

/// The first iteration handed to worker `t` of `threads`: `t * iterations / threads`.
pub open spec fn slice_start(t: nat, threads: nat, iterations: nat) -> nat {
    (t * iterations) / threads
}

/// The iterations `[start, end)` of each of `threads` workers: worker `t` runs from
/// `t * iterations / threads` up to `(t + 1) * iterations / threads`.
pub fn worker_slices(threads: usize, iterations: usize) -> (slices: Vec<(usize, usize)>)
    requires
        threads > 0,
        threads * iterations <= usize::MAX,
    ensures
        slices@.len() == threads,
        forall|t: int|
            0 <= t < threads ==> (#[trigger] slices@[t]).0 == slice_start(t as nat, threads as nat, iterations as nat)
                && slices@[t].1 == slice_start((t + 1) as nat, threads as nat, iterations as nat),
{
    let mut slices: Vec<(usize, usize)> = Vec::new();
    for t in 0..threads
        invariant
            threads > 0,
            threads * iterations <= usize::MAX,
            slices@.len() == t,
            forall|u: int|
                0 <= u < t ==> (#[trigger] slices@[u]).0 == slice_start(u as nat, threads as nat, iterations as nat)
                    && slices@[u].1 == slice_start((u + 1) as nat, threads as nat, iterations as nat),
    {
        assert((t + 1) * iterations <= threads * iterations) by (nonlinear_arith)
            requires
                t + 1 <= threads,
        ;
        assert(t * iterations <= (t + 1) * iterations) by (nonlinear_arith);
        let start = t * iterations / threads;
        let end = (t + 1) * iterations / threads;
        slices.push((start, end));
    }
    slices
}

/// The sum of `parts` modulo 2^64.
pub open spec fn checksum_sum(parts: Seq<u64>) -> nat
    decreases parts.len(),
{
    if parts.len() == 0 {
        0
    } else {
        ((checksum_sum(parts.drop_last()) + parts.last()) % 0x1_0000_0000_0000_0000) as nat
    }
}

/// Adds the workers' checksums together, wrapping around at 2^64.
pub fn combine_checksums(parts: &Vec<u64>) -> (sum: u64)
    ensures
        sum == checksum_sum(parts@),
{
    let mut sum: u64 = 0;
    for i in 0..parts.len()
        invariant
            sum == checksum_sum(parts@.subrange(0, i as int)),
    {
        proof {
            assert(parts@.subrange(0, i + 1).drop_last() =~= parts@.subrange(0, i as int));
        }
        sum = sum.wrapping_add(parts[i]);
    }
    assert(parts@.subrange(0, parts@.len() as int) =~= parts@);
    sum
}

proof fn lemma_div_step(x: int, r: int, d: int)
    requires
        d > 0,
        x >= 0,
        0 <= r < d,
    ensures
        x / d <= (x + r) / d <= x / d + 1,
{
    vstd::arithmetic::div_mod::lemma_fundamental_div_mod(x, d);
    vstd::arithmetic::div_mod::lemma_fundamental_div_mod(x + r, d);
    assert(x / d <= (x + r) / d) by {
        vstd::arithmetic::div_mod::lemma_div_is_ordered(x, x + r, d);
    }
    assert((x + r) / d <= x / d + 1) by (nonlinear_arith)
        requires
            d > 0,
            x == d * (x / d) + x % d,
            x + r == d * ((x + r) / d) + (x + r) % d,
            0 <= x % d < d,
            0 <= (x + r) % d < d,
            0 <= r < d,
    ;
}

proof fn lemma_mul_split_div(k: int, q: int, r: int, d: int)
    requires
        d > 0,
        k >= 0,
        q >= 0,
        r >= 0,
    ensures
        (k * (q * d + r)) / d == k * q + (k * r) / d,
{
    assert(k * (q * d + r) == k * r + (k * q) * d) by (nonlinear_arith);
    vstd::arithmetic::div_mod::lemma_hoist_over_denominator(k * r, k * q, d as nat);
}

/// The workers' slices partition the iterations: the first starts at 0, the last ends at
/// `iterations`, each starts where the previous one ends, and each holds
/// `iterations / threads` iterations or one more.
pub proof fn lemma_worker_slices_partition(threads: nat, iterations: nat)
    requires
        threads > 0,
    ensures
        slice_start(0, threads, iterations) == 0,
        slice_start(threads, threads, iterations) == iterations,
        forall|t: nat|
            t < threads ==> iterations / threads <= #[trigger] slice_start(t + 1, threads, iterations)
                - slice_start(t, threads, iterations) <= iterations / threads + 1,
{
    let d = threads as int;
    let n = iterations as int;
    let q = n / d;
    let r = n % d;
    vstd::arithmetic::div_mod::lemma_fundamental_div_mod(n, d);
    assert(n == q * d + r) by (nonlinear_arith)
        requires
            n == d * (n / d) + n % d,
            q == n / d,
            r == n % d,
    ;
    assert(0 * iterations == 0);
    vstd::arithmetic::div_mod::lemma_div_by_multiple(n, d);
    assert((threads * iterations) / threads == iterations) by {
        vstd::arithmetic::mul::lemma_mul_is_commutative(d, n);
        vstd::arithmetic::div_mod::lemma_div_by_multiple(n, d);
    }
    assert forall|t: nat| t < threads implies iterations / threads <= #[trigger] slice_start(
        t + 1,
        threads,
        iterations,
    ) - slice_start(t, threads, iterations) <= iterations / threads + 1 by {
        let ti = t as int;
        lemma_mul_split_div(ti, q, r, d);
        lemma_mul_split_div(ti + 1, q, r, d);
        assert((ti + 1) * r == ti * r + r) by (nonlinear_arith);
        assert(ti * r >= 0) by (nonlinear_arith)
            requires
                ti >= 0,
                r >= 0,
        ;
        lemma_div_step(ti * r, r, d);
        assert((ti + 1) * q == ti * q + q) by (nonlinear_arith);
    }
}

} // verus!
