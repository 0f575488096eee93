use std::str::FromStr;

use cedar_agent::bench::{
    build_entities, build_policy_set, entities_outcome, build_request, combine_checksums, first_mismatch, parse_entity_uid,
    verify_backend_parity, worker_slices, ContextJson, PoliciesDocument, RequestJson, UidJson, UNSUPPORTED_SHAPE,
};
use cedar_agent::cedar::Verdict;
use cedar_agent::nesting::{policy_text_within_limit, MAX_POLICY_NESTING};
use cedar_agent::policies::PolicyEntry;
use cedar_policy::{Authorizer, Context, Decision, Entities, EntityUid, PolicySet, Request};

fn entry(id: &str, content: &str) -> PolicyEntry {
    PolicyEntry { id: id.to_string(), content: content.to_string() }
}

fn uid(s: &str) -> Option<UidJson> {
    Some(UidJson::Text(s.to_string()))
}

fn sample_request() -> Request {
    Request::new(
        EntityUid::from_str(r#"User::"alice""#).unwrap(),
        EntityUid::from_str(r#"Action::"view""#).unwrap(),
        EntityUid::from_str(r#"Document::"doc1""#).unwrap(),
        Context::empty(),
        None,
    )
    .unwrap()
}

fn empty_entities() -> Entities {
    Entities::from_json_str("[]", None).unwrap()
}

#[test]
fn policy_set_from_benchmark_entries() {
    let entries = vec![
        entry("allow_all", "permit(principal, action, resource);"),
        entry("deny_all", "permit(principal, action, resource) when { false };"),
    ];
    let set = build_policy_set(PoliciesDocument::Entries(entries)).unwrap();
    assert_eq!(set.policies().count(), 2);
}

#[test]
fn policy_set_reports_first_unparsable_entry() {
    let entries = vec![
        entry("ok", "permit(principal, action, resource);"),
        entry("broken", "permit(principal, action"),
        entry("also_broken", "forbid("),
    ];
    let err = build_policy_set(PoliciesDocument::Entries(entries)).err().unwrap();
    assert!(err.starts_with("failed to parse policy broken: "), "{err}");
}

#[test]
fn policy_set_reports_duplicate_ids() {
    let entries = vec![
        entry("same", "permit(principal, action, resource);"),
        entry("same", "forbid(principal, action, resource);"),
    ];
    let err = build_policy_set(PoliciesDocument::Entries(entries)).err().unwrap();
    assert!(err.starts_with("failed to build policy set: "), "{err}");
}

#[test]
fn policy_set_from_single_text() {
    let set = build_policy_set(PoliciesDocument::Text("permit(principal, action, resource);".to_string())).unwrap();
    assert_eq!(set.policies().count(), 1);
    let err = build_policy_set(PoliciesDocument::Text("nonsense".to_string())).err().unwrap();
    assert!(err.starts_with("failed to parse policy string: "), "{err}");
}

#[test]
fn policy_set_from_cedar_json_object() {
    let value: serde_json::Value = serde_json::from_str(r#"{"staticPolicies": {}, "templates": {}, "templateLinks": []}"#).unwrap();
    let keys = vec!["staticPolicies".to_string(), "templates".to_string(), "templateLinks".to_string()];
    let set = build_policy_set(PoliciesDocument::Object { keys, value }).unwrap();
    assert_eq!(set.policies().count(), 0);
}

#[test]
fn policy_set_refuses_other_shapes() {
    let value: serde_json::Value = serde_json::from_str(r#"{"something": 1}"#).unwrap();
    let err = build_policy_set(PoliciesDocument::Object { keys: vec!["something".to_string()], value }).err().unwrap();
    assert_eq!(err, UNSUPPORTED_SHAPE);
    let err = build_policy_set(PoliciesDocument::Other).err().unwrap();
    assert_eq!(err, "unsupported policies.json shape; expected Cedar policy-set JSON or benchmark array");
    let err = build_policy_set(PoliciesDocument::BadEntries("missing field `id`".to_string())).err().unwrap();
    assert_eq!(err, "failed to parse benchmark policy entries: missing field `id`");
}

#[test]
fn entities_from_json() {
    let ok: serde_json::Value = serde_json::from_str(r#"[{"uid": {"type": "User", "id": "bob"}, "attrs": {}, "parents": []}]"#).unwrap();
    assert_eq!(build_entities(ok).unwrap().iter().count(), 1);
    let bad: serde_json::Value = serde_json::from_str(r#"{"not": "entities"}"#).unwrap();
    assert!(build_entities(bad).err().unwrap().starts_with("failed to parse entities JSON: "));
}

#[test]
fn entities_outcome_keeps_the_store_and_prefixes_errors() {
    let kept = entities_outcome(Ok(Entities::empty())).unwrap();
    assert_eq!(kept.iter().count(), 0);
    assert_eq!(
        entities_outcome(Err("bad uid".to_string())).err().unwrap(),
        "failed to parse entities JSON: bad uid"
    );
}

#[test]
fn request_from_text_references() {
    let json = RequestJson {
        principal: uid(r#"User::"alice""#),
        action: uid(r#"Action::"view""#),
        resource: uid(r#"Document::"doc1""#),
        context: ContextJson::Absent,
    };
    let req = build_request(json).unwrap();
    assert_eq!(req.principal().unwrap().to_string(), r#"User::"alice""#);
    assert_eq!(req.action().unwrap().to_string(), r#"Action::"view""#);
    assert_eq!(req.resource().unwrap().to_string(), r#"Document::"doc1""#);
}

#[test]
fn request_with_json_reference_and_context() {
    let principal: serde_json::Value = serde_json::from_str(r#"{"type": "User", "id": "alice"}"#).unwrap();
    let context: serde_json::Value = serde_json::from_str(r#"{"ip": "10.0.0.1"}"#).unwrap();
    let json = RequestJson {
        principal: Some(UidJson::Json(principal)),
        action: uid(r#"Action::"view""#),
        resource: uid(r#"Document::"doc1""#),
        context: ContextJson::Given(context),
    };
    assert!(build_request(json).is_ok());
}

#[test]
fn request_missing_fields_are_named() {
    let json = RequestJson { principal: None, action: None, resource: None, context: ContextJson::Null };
    assert_eq!(build_request(json).err().unwrap(), "missing principal field in request");
    let json = RequestJson {
        principal: uid(r#"User::"alice""#),
        action: None,
        resource: None,
        context: ContextJson::Null,
    };
    assert_eq!(build_request(json).err().unwrap(), "missing action field in request");
    let json = RequestJson {
        principal: uid(r#"User::"alice""#),
        action: uid(r#"Action::"view""#),
        resource: None,
        context: ContextJson::Null,
    };
    assert_eq!(build_request(json).err().unwrap(), "missing resource field in request");
}

#[test]
fn request_bad_references_are_reported() {
    let err = parse_entity_uid(uid("alice"), "principal").err().unwrap();
    assert!(err.starts_with("failed to parse principal `alice` as an entity UID: "), "{err}");
    let v: serde_json::Value = serde_json::from_str("17").unwrap();
    let err = parse_entity_uid(Some(UidJson::Json(v)), "resource").err().unwrap();
    assert!(err.starts_with("failed to parse resource JSON as an entity UID: "), "{err}");
    let ctx: serde_json::Value = serde_json::from_str("[1, 2]").unwrap();
    let json = RequestJson {
        principal: uid(r#"User::"alice""#),
        action: uid(r#"Action::"view""#),
        resource: uid(r#"Document::"doc1""#),
        context: ContextJson::Given(ctx),
    };
    assert!(build_request(json).err().unwrap().starts_with("failed to parse request context: "));
}

#[test]
fn parity_agrees_and_disagrees() {
    let authorizer = Authorizer::new();
    let policies = PolicySet::from_str("permit(principal, action, resource);").unwrap();
    let entities = empty_entities();
    let requests = vec![sample_request(), sample_request(), sample_request()];
    let report = verify_backend_parity(&requests, &authorizer, &policies, &entities, &vec![Verdict::Allow; 3]);
    assert_eq!(report.stateless, vec![Verdict::Allow; 3]);
    assert_eq!(report.mismatch, None);
    let cached = vec![Verdict::Allow, Verdict::Deny, Verdict::Deny];
    let report = verify_backend_parity(&requests, &authorizer, &policies, &entities, &cached);
    assert_eq!(report.mismatch, Some(1));
    assert_eq!(authorizer.is_authorized(&requests[0], &policies, &entities).decision(), Decision::Allow);
}

#[test]
fn parity_samples_at_most_128_requests() {
    let authorizer = Authorizer::new();
    let policies = PolicySet::from_str("permit(principal, action, resource) when { false };").unwrap();
    let entities = empty_entities();
    let requests: Vec<Request> = (0..200).map(|_| sample_request()).collect();
    let report = verify_backend_parity(&requests, &authorizer, &policies, &entities, &vec![Verdict::Deny; 128]);
    assert_eq!(report.stateless.len(), 128);
    assert_eq!(report.mismatch, None);
}

#[test]
fn first_mismatch_examples() {
    assert_eq!(first_mismatch(&vec![], &vec![Verdict::Allow]), None);
    assert_eq!(first_mismatch(&vec![Verdict::Allow, Verdict::Deny], &vec![Verdict::Allow, Verdict::Allow]), Some(1));
}

#[test]
fn worker_slices_partition_iterations() {
    let s = worker_slices(3, 10);
    assert_eq!(s, vec![(0, 3), (3, 6), (6, 10)]);
    let s = worker_slices(16, 20_000);
    assert_eq!(s[0].0, 0);
    assert_eq!(s[15].1, 20_000);
    for t in 0..15 {
        assert_eq!(s[t].1, s[t + 1].0);
    }
    assert_eq!(worker_slices(4, 2), vec![(0, 0), (0, 1), (1, 1), (1, 2)]);
}

#[test]
fn checksums_wrap_around() {
    assert_eq!(combine_checksums(&vec![1, 2, 3]), 6);
    assert_eq!(combine_checksums(&vec![u64::MAX, 2]), 1);
    assert_eq!(combine_checksums(&vec![]), 0);
}

fn nested_text(depth: usize) -> String {
    // `permit(` and `{` open two nested expressions; each `(` below opens one more.
    format!(
        "permit(principal, action, resource) when {{ {}true{} }};",
        "(".repeat(depth),
        ")".repeat(depth)
    )
}

fn nested_ifs(depth: usize) -> String {
    let mut cond = String::from("true");
    for _ in 0..depth {
        cond = format!("if true then {cond} else false");
    }
    format!("permit(principal, action, resource) when {{ {cond} }};")
}

#[test]
fn nesting_limit_counts_openings() {
    assert!(policy_text_within_limit(&nested_text(MAX_POLICY_NESTING - 2)));
    assert!(!policy_text_within_limit(&nested_text(MAX_POLICY_NESTING - 1)));
    assert!(policy_text_within_limit(&nested_ifs(MAX_POLICY_NESTING - 2)));
    assert!(!policy_text_within_limit(&nested_ifs(MAX_POLICY_NESTING - 1)));
    assert!(policy_text_within_limit("permit(principal, action, resource) when { \"((((((\" like \"*\" };"));
}

#[test]
fn texts_at_the_nesting_limit_parse() {
    let deep = nested_text(MAX_POLICY_NESTING - 2);
    assert!(policy_text_within_limit(&deep));
    let set = build_policy_set(PoliciesDocument::Text(deep)).unwrap();
    assert_eq!(set.policies().count(), 1);
}

#[test]
fn conditionals_at_the_nesting_limit_parse() {
    let ifs = nested_ifs(MAX_POLICY_NESTING - 2);
    assert!(policy_text_within_limit(&ifs));
    let set = build_policy_set(PoliciesDocument::Text(ifs)).unwrap();
    assert_eq!(set.policies().count(), 1);
}



#[test]
fn policy_sets_hold_the_parsed_policies_by_identifier() {
    let set = build_policy_set(PoliciesDocument::Text("forbid(principal, action, resource);".to_string())).unwrap();
    let only = set.policy(&cedar_policy::PolicyId::new("policy0")).unwrap();
    assert_eq!(only.effect(), cedar_policy::Effect::Forbid);
    let entries = vec![
        entry("first", "permit(principal, action, resource);"),
        entry("second", "forbid(principal, action, resource);"),
    ];
    let set = build_policy_set(PoliciesDocument::Entries(entries)).unwrap();
    assert_eq!(set.policies().count(), 2);
    assert_eq!(set.policy(&cedar_policy::PolicyId::new("first")).unwrap().effect(), cedar_policy::Effect::Permit);
    assert_eq!(set.policy(&cedar_policy::PolicyId::new("second")).unwrap().effect(), cedar_policy::Effect::Forbid);
}
