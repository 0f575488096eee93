//! The authorizer service: a stateless Cedar authorizer, and a cache of a prebuilt
//! authorizer that is replaced only when a rebuild succeeds.
use vstd::prelude::*;
use vstd::string::*;

use cedar_policy::{Authorizer, Entities, PolicySet, Request};

use crate::cedar::{authorize, authorizer_new, cedar_may_decide, Verdict};

verus! {

/// What a rebuild of the cache came to.
pub enum RebuildReport {
    /// The cache now holds the new authorizer.
    Rebuilt,
    /// The policies could not be serialized; the cache is unchanged.
    PoliciesNotSerialized(String),
    /// The entities could not be serialized; the cache is unchanged.
    EntitiesNotSerialized(String),
    /// The authorizer could not be built; the cache is unchanged.
    BuildFailed(String),
}

/// The authorizers the service answers with: `fallback` evaluates every request from
/// scratch; the cache holds an authorizer `C` prebuilt from the stores, once one was built.
pub struct AuthorizerService<C> {
    cache: Option<C>,
    pub fallback: Authorizer,
}

impl<C> AuthorizerService<C> {
    /// The cached authorizer, if one was built.
    pub closed spec fn cached(&self) -> Option<C> {
        self.cache
    }

    /// The stateless authorizer.
    pub closed spec fn stateless(&self) -> Authorizer {
        self.fallback
    }

    /// A service with a cold cache.
    pub fn new() -> (s: Self)
        ensures
            s.cached() is None,
    {
        AuthorizerService { cache: None, fallback: authorizer_new() }
    }

    /// Whether an authorizer is cached.
    pub fn is_warm(&self) -> (warm: bool)
        ensures
            warm == self.cached() is Some,
    {
        self.cache.is_some()
    }

    /// The cached authorizer, if any.
    pub fn cache(&self) -> (c: Option<&C>)
        ensures
            c matches Some(x) ==> self.cached() == Some(*x),
            c is None <==> self.cached() is None,
    {
        match &self.cache {
            Some(x) => Some(x),
            None => None,
        }
    }

    /// Ends a rebuild with the outcome of building the authorizer: on success the cache holds
    /// the new authorizer and the stateless authorizer is kept; on failure the whole service is
    /// left as it was.
    pub fn install(&mut self, built: Result<C, String>) -> (report: RebuildReport)
        ensures
            match built {
                Ok(c) => {
                    &&& final(self).cached() == Some(c)
                    &&& final(self).stateless() == old(self).stateless()
                    &&& report is Rebuilt
                },
                Err(e) => *final(self) == *old(self) && report == RebuildReport::BuildFailed(e),
            },
    {
        match built {
            Ok(c) => {
                self.cache = Some(c);
                RebuildReport::Rebuilt
            },
            Err(e) => RebuildReport::BuildFailed(e),
        }
    }

    /// Evaluates `request` with the stateless authorizer: a decision Cedar can reach on it.
    pub fn authorize_stateless(&self, request: &Request, policies: &PolicySet, entities: &Entities) -> (v: Verdict)
        ensures
            cedar_may_decide(*request, *policies, *entities, v),
    {
        authorize(&self.fallback, request, policies, entities)
    }
}

/// Starts a rebuild: the serialized policies and entities it is built from, or, when one of
/// them could not be serialized (the policies are looked at first), why the rebuild stops
/// there.
pub fn rebuild_inputs(
    policies_json: Result<String, String>,
    entities_json: Result<String, String>,
) -> (r: Result<(String, String), RebuildReport>)
    ensures
        match (policies_json, entities_json) {
            (Ok(p), Ok(e)) => r == Ok::<(String, String), RebuildReport>((p, e)),
            (Err(m), _) => r == Err::<(String, String), RebuildReport>(RebuildReport::PoliciesNotSerialized(m)),
            (Ok(_), Err(m)) => r == Err::<(String, String), RebuildReport>(
                RebuildReport::EntitiesNotSerialized(m),
            ),
        },
{
    let policies = match policies_json {
        Ok(p) => p,
        Err(m) => {
            return Err(RebuildReport::PoliciesNotSerialized(m));
        },
    };
    let entities = match entities_json {
        Ok(e) => e,
        Err(m) => {
            return Err(RebuildReport::EntitiesNotSerialized(m));
        },
    };
    Ok((policies, entities))
}

/// The answer to a request on the cached path when the cache could not be built.
pub const POLTREE_UNAVAILABLE: &'static str = "Failed to build poltree cache \u{2014} check server logs for details";

/// What the cached-path handler does next.
#[derive(Clone, Copy, Debug, PartialEq, Eq, Structural)]
pub enum PoltreeStep {
    /// Evaluate the request with the cached authorizer.
    Evaluate,
    /// Build the cache from the stores first.
    Rebuild,
    /// Answer with a bad-request error: the cache could not be built.
    Reject,
}

/// The cached-path handler never falls back to the stateless authorizer: with a warm cache
/// it evaluates; with a cold one it rebuilds once, then evaluates if the cache is now warm
/// and rejects the request otherwise.
pub fn poltree_step(cache_warm: bool, rebuilt: bool) -> (step: PoltreeStep)
    ensures
        cache_warm ==> step == PoltreeStep::Evaluate,
        !cache_warm && !rebuilt ==> step == PoltreeStep::Rebuild,
        !cache_warm && rebuilt ==> step == PoltreeStep::Reject,
{
    if cache_warm {
        PoltreeStep::Evaluate
    } else if !rebuilt {
        PoltreeStep::Rebuild
    } else {
        PoltreeStep::Reject
    }
}

/// When a fairing runs.
#[derive(Clone, Copy, Debug, PartialEq, Eq, Structural)]
pub enum FairingKind {
    Ignite,
    Liftoff,
    Request,
    Response,
    Shutdown,
}

/// The name and kind a fairing is registered with.
pub struct FairingInfo {
    pub name: &'static str,
    pub kind: FairingKind,
}

/// The fairing that fills the authorizer cache when the server ignites.
pub struct InitAuthorizerCacheFairing;

impl InitAuthorizerCacheFairing {
    /// Registered as `Init Authorizer Cache`, run at ignition.
    pub fn info(&self) -> (info: FairingInfo)
        ensures
            info.name@ == "Init Authorizer Cache"@,
            info.kind == FairingKind::Ignite,
    {
        FairingInfo { name: "Init Authorizer Cache", kind: FairingKind::Ignite }
    }
}

} // verus!
