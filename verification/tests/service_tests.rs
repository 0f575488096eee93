use std::str::FromStr;

use cedar_agent::cedar::Verdict;
use cedar_agent::service::{
    poltree_step, rebuild_inputs, AuthorizerService, FairingKind, InitAuthorizerCacheFairing, PoltreeStep,
    RebuildReport, POLTREE_UNAVAILABLE,
};
use cedar_policy::{Context, Entities, EntityUid, PolicySet, Request};

fn sample_request() -> Request {
    Request::new(
        EntityUid::from_str(r#"User::"alice""#).unwrap(),
        EntityUid::from_str(r#"Action::"view""#).unwrap(),
        EntityUid::from_str(r#"Document::"doc1""#).unwrap(),
        Context::empty(),
        None,
    )
    .unwrap()
}

#[test]
fn new_service_is_cold_and_install_warms_it() {
    let mut service: AuthorizerService<u32> = AuthorizerService::new();
    assert!(!service.is_warm());
    assert!(service.cache().is_none());
    assert!(matches!(service.install(Ok(7)), RebuildReport::Rebuilt));
    assert!(service.is_warm());
    assert_eq!(service.cache(), Some(&7));
}

#[test]
fn failed_rebuild_keeps_previous_cache() {
    let mut service: AuthorizerService<u32> = AuthorizerService::new();
    service.install(Ok(1));
    match service.install(Err("bad policy".to_string())) {
        RebuildReport::BuildFailed(e) => assert_eq!(e, "bad policy"),
        _ => panic!("expected a build failure"),
    }
    assert_eq!(service.cache(), Some(&1));
    service.install(Ok(2));
    assert_eq!(service.cache(), Some(&2));
}

#[test]
fn rebuild_inputs_stop_at_first_serialization_error() {
    match rebuild_inputs(Ok("p".to_string()), Ok("e".to_string())) {
        Ok((p, e)) => assert_eq!((p.as_str(), e.as_str()), ("p", "e")),
        Err(_) => panic!("inputs expected"),
    }
    match rebuild_inputs(Err("policies".to_string()), Err("entities".to_string())) {
        Err(RebuildReport::PoliciesNotSerialized(m)) => assert_eq!(m, "policies"),
        _ => panic!("policies error expected"),
    }
    match rebuild_inputs(Ok("p".to_string()), Err("entities".to_string())) {
        Err(RebuildReport::EntitiesNotSerialized(m)) => assert_eq!(m, "entities"),
        _ => panic!("entities error expected"),
    }
}

#[test]
fn stateless_authorizer_follows_the_policies() {
    let service: AuthorizerService<u32> = AuthorizerService::new();
    let entities = Entities::from_json_str("[]", None).unwrap();
    let allow = PolicySet::from_str("permit(principal, action, resource);").unwrap();
    let deny = PolicySet::from_str("permit(principal, action, resource) when { false };").unwrap();
    assert_eq!(service.authorize_stateless(&sample_request(), &allow, &entities), Verdict::Allow);
    assert_eq!(service.authorize_stateless(&sample_request(), &deny, &entities), Verdict::Deny);
}

#[test]
fn poltree_steps() {
    assert_eq!(poltree_step(true, false), PoltreeStep::Evaluate);
    assert_eq!(poltree_step(true, true), PoltreeStep::Evaluate);
    assert_eq!(poltree_step(false, false), PoltreeStep::Rebuild);
    assert_eq!(poltree_step(false, true), PoltreeStep::Reject);
    assert_eq!(POLTREE_UNAVAILABLE, "Failed to build poltree cache \u{2014} check server logs for details");
}

#[test]
fn fairing_info() {
    let info = InitAuthorizerCacheFairing.info();
    assert_eq!(info.name, "Init Authorizer Cache");
    assert_eq!(info.kind, FairingKind::Ignite);
}
