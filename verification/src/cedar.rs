//! The Cedar and JSON types the benchmark works with, and the calls into `cedar_policy`.
//!
//! Everything here is trusted: each function makes one call into `cedar_policy` and states
//! only what that crate's source shows of it. The spec functions without a body name what
//! Cedar's functions compute from their arguments.
use vstd::prelude::*;

use cedar_policy::{Authorizer, Context, Decision, Entities, EntityUid, Policy, PolicyId, PolicySet, Request};
use serde_json::Value;
use std::str::FromStr;

use crate::nesting::nesting_within_limit;

verus! {

#[verifier::external_type_specification]
#[verifier::external_body]
pub struct ExAuthorizer(Authorizer);

#[verifier::external_type_specification]
#[verifier::external_body]
pub struct ExContext(Context);

#[verifier::external_type_specification]
#[verifier::external_body]
pub struct ExEntities(Entities);

#[verifier::external_type_specification]
#[verifier::external_body]
pub struct ExEntityUid(EntityUid);

#[verifier::external_type_specification]
#[verifier::external_body]
pub struct ExPolicy(Policy);

#[verifier::external_type_specification]
#[verifier::external_body]
pub struct ExPolicySet(PolicySet);

#[verifier::external_type_specification]
#[verifier::external_body]
pub struct ExRequest(Request);

#[verifier::external_type_specification]
#[verifier::external_body]
pub struct ExValue(Value);

/// An authorization decision.
#[derive(Clone, Copy, Debug, PartialEq, Eq, Structural)]
pub enum Verdict {
    Allow,
    Deny,
}

/// Whether Cedar's parser accepts `src` as one static policy.
pub uninterp spec fn cedar_policy_parses(src: Seq<char>) -> bool;

/// The policy `Policy::parse` builds from `src`, named `id` (`policy0` when `id` is `None`).
pub uninterp spec fn cedar_parsed_policy(id: Option<Seq<char>>, src: Seq<char>) -> Policy;

/// Whether Cedar's parser accepts `src` as an entity reference such as `User::"alice"`.
pub uninterp spec fn cedar_uid_parses(src: Seq<char>) -> bool;

/// The entity reference `EntityUid::from_str` reads from `src`.
pub uninterp spec fn cedar_uid_of_text(src: Seq<char>) -> EntityUid;

/// The identifier of `policy`, as text (`Policy::id`).
pub uninterp spec fn cedar_policy_id(policy: Policy) -> Seq<char>;

/// Whether `policy` is a static policy rather than a template link (`Policy::is_static`).
pub uninterp spec fn cedar_policy_static(policy: Policy) -> bool;

/// The policies a policy set holds, by identifier (`PolicySet::policies`, `PolicySet::policy`).
pub uninterp spec fn cedar_policy_set_policies(set: PolicySet) -> Map<Seq<char>, Policy>;

/// Whether Cedar reads `json` as a policy set in its JSON format.
pub uninterp spec fn cedar_policy_set_json_parses(json: Value) -> bool;

/// Whether Cedar reads `json`, without a schema, as an entity store.
pub uninterp spec fn cedar_entities_parse(json: Value) -> bool;

/// Whether Cedar reads `json` as an entity reference in its JSON form.
pub uninterp spec fn cedar_uid_json_parses(json: Value) -> bool;

/// The entity reference `EntityUid::from_json` reads from `json`.
pub uninterp spec fn cedar_uid_of_json(json: Value) -> EntityUid;

/// Whether Cedar reads `json`, without a schema, as a request context.
pub uninterp spec fn cedar_context_parses(json: Value) -> bool;

/// The context `Context::from_json_value` reads from `json`, without a schema.
pub uninterp spec fn cedar_context_of_json(json: Value) -> Context;

/// Whether `context` holds no attribute, as the context `Context::empty` gives.
pub uninterp spec fn cedar_context_is_empty(context: Context) -> bool;

/// What a request holds: its principal, action, resource and context (`Request::principal`,
/// `Request::action`, `Request::resource`, `Request::context`).
pub uninterp spec fn cedar_request_parts(request: Request) -> (EntityUid, EntityUid, EntityUid, Context);

/// Whether `verdict` is a decision Cedar's authorizer can reach on `request` under
/// `policies` and `entities`. The evaluator reports an error for a policy whose evaluation
/// finds too little stack left on the calling thread, and an erroring policy counts as not
/// satisfied, so the decision can also depend on the thread it is made on; this names the
/// decisions it can come to, not one decision.
pub uninterp spec fn cedar_may_decide(request: Request, policies: PolicySet, entities: Entities, verdict: Verdict) -> bool;

/// `policies` can be gathered into one policy set: all are static and no two share an
/// identifier.
pub open spec fn policies_addable(policies: Seq<Policy>) -> bool {
    &&& forall|i: int| 0 <= i < policies.len() ==> cedar_policy_static(#[trigger] policies[i])
    &&& policy_ids_distinct(policies)
}

/// No two of `policies` share an identifier.
pub open spec fn policy_ids_distinct(policies: Seq<Policy>) -> bool {
    forall|a: int, b: int|
        0 <= a < b < policies.len() ==> cedar_policy_id(#[trigger] policies[a]) != cedar_policy_id(
            #[trigger] policies[b],
        )
}

/// `contents` holds exactly `policies`, each under its identifier.
pub open spec fn holds_exactly(contents: Map<Seq<char>, Policy>, policies: Seq<Policy>) -> bool {
    &&& forall|k: Seq<char>|
        contents.dom().contains(k) <==> exists|i: int| 0 <= i < policies.len() && cedar_policy_id(#[trigger] policies[i]) == k
    &&& forall|i: int| 0 <= i < policies.len() ==> contents[cedar_policy_id(#[trigger] policies[i])] == policies[i]
}

/// `Authorizer::new`: a stateless authorizer. Nothing is claimed of it.
#[verifier::external_body]
pub(crate) fn authorizer_new() -> Authorizer {
    Authorizer::new()
}

/// `Authorizer::is_authorized` followed by `Response::decision`: a decision Cedar's
/// authorizer can reach on the request, the policies and the entities. Which one is not
/// claimed: Cedar's evaluation is not restated, and it can also depend on the stack left on
/// the calling thread (every authorizer is built by `Authorizer::new`, with the same
/// extensions and error handling).
#[verifier::external_body]
pub(crate) fn authorize(authorizer: &Authorizer, request: &Request, policies: &PolicySet, entities: &Entities) -> (v: Verdict)
    ensures
        cedar_may_decide(*request, *policies, *entities, v),
{
    match authorizer.is_authorized(request, policies, entities).decision() {
        Decision::Allow => Verdict::Allow,
        Decision::Deny => Verdict::Deny,
    }
}

/// `Policy::parse`, the policy named by `PolicyId::new(id)` (what `PolicyId::from_str` always
/// gives; it keeps the text), or `policy0` without a name. It succeeds exactly when the text parses
/// as one static policy, whatever the name; the policy it gives is static and carries that
/// name. The error is the parse errors' display text. The parser recurses once per nested
/// expression without a bound of its own, so texts that nest beyond the limit, which could
/// exhaust the stack, are not handed to it.
#[verifier::external_body]
pub(crate) fn parse_policy(id: Option<&str>, src: &str) -> (r: Result<Policy, String>)
    requires
        nesting_within_limit(src@),
    ensures
        r is Ok <==> cedar_policy_parses(src@),
        r matches Ok(p) ==> p == cedar_parsed_policy(
            match id {
                Some(name) => Some(name@),
                None => None,
            },
            src@,
        ),
        r matches Ok(p) ==> cedar_policy_static(p),
        r matches Ok(p) ==> cedar_policy_id(p) == match id {
            Some(name) => name@,
            None => "policy0"@,
        },
{
    Policy::parse(id.map(PolicyId::new), src).map_err(|e| e.to_string())
}

/// `PolicySet::from_policies`: adds the policies one by one; adding fails on a template link
/// and on an identifier already in the set, and on nothing else; each policy added is kept
/// under its identifier.
#[verifier::external_body]
pub(crate) fn policy_set_from_policies(policies: Vec<Policy>) -> (r: Result<PolicySet, String>)
    ensures
        r is Ok <==> policies_addable(policies@),
        r matches Ok(set) ==> holds_exactly(cedar_policy_set_policies(set), policies@),
{
    PolicySet::from_policies(policies).map_err(|e| e.to_string())
}

/// `PolicySet::from_json_value`: reads Cedar's JSON policy-set format; it succeeds exactly
/// when Cedar reads `json` as such.
#[verifier::external_body]
pub(crate) fn policy_set_from_json_value(json: Value) -> (r: Result<PolicySet, String>)
    ensures
        r is Ok <==> cedar_policy_set_json_parses(json),
{
    PolicySet::from_json_value(json).map_err(|e| e.to_string())
}

/// `Entities::from_json_value` without a schema; it succeeds exactly when Cedar reads `json`
/// as an entity store.
#[verifier::external_body]
pub(crate) fn entities_from_json_value(json: Value) -> (r: Result<Entities, String>)
    ensures
        r is Ok <==> cedar_entities_parse(json),
{
    Entities::from_json_value(json, None).map_err(|e| e.to_string())
}

/// `EntityUid::from_str`: succeeds exactly when the text parses as an entity reference.
#[verifier::external_body]
pub(crate) fn entity_uid_from_str(src: &str) -> (r: Result<EntityUid, String>)
    ensures
        r is Ok <==> cedar_uid_parses(src@),
        r matches Ok(u) ==> u == cedar_uid_of_text(src@),
{
    EntityUid::from_str(src).map_err(|e| e.to_string())
}

/// `EntityUid::from_json`: reads an entity reference in JSON form; it succeeds exactly when
/// Cedar reads `json` as one.
#[verifier::external_body]
pub(crate) fn entity_uid_from_json(json: Value) -> (r: Result<EntityUid, String>)
    ensures
        r is Ok <==> cedar_uid_json_parses(json),
        r matches Ok(u) ==> u == cedar_uid_of_json(json),
{
    EntityUid::from_json(json).map_err(|e| e.to_string())
}

/// `Context::empty`: a context without attributes.
#[verifier::external_body]
pub(crate) fn context_empty() -> (c: Context)
    ensures
        cedar_context_is_empty(c),
{
    Context::empty()
}

/// `Context::from_json_value` without a schema; it succeeds exactly when Cedar reads `json`
/// as a context.
#[verifier::external_body]
pub(crate) fn context_from_json_value(json: Value) -> (r: Result<Context, String>)
    ensures
        r is Ok <==> cedar_context_parses(json),
        r matches Ok(c) ==> c == cedar_context_of_json(json),
{
    Context::from_json_value(json, None).map_err(|e| e.to_string())
}

/// `Request::new` without a schema, which the source shows always succeeds: a request is
/// only validated against a schema. The request holds its arguments as given.
#[verifier::external_body]
pub(crate) fn request_new(
    principal: EntityUid,
    action: EntityUid,
    resource: EntityUid,
    context: Context,
) -> (r: Result<Request, String>)
    ensures
        r is Ok,
        r matches Ok(req) ==> cedar_request_parts(req) == (principal, action, resource, context),
{
    Request::new(principal, action, resource, context, None).map_err(|e| e.to_string())
}

} // verus!
