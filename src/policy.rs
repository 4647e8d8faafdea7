//! Authorization requests and decisions.
use vstd::prelude::*;
use std::collections::HashMap;
use crate::error::Error;

verus! {

/// Where policies are kept and how long an evaluation may take.
pub struct PolicyConfig {
    pub policy_store_path: String,
    pub evaluation_timeout_ms: u64,
}

/// A request to perform `action` on `resource`.
pub struct AuthorizationRequest {
    pub principal: Principal,
    pub action: String,
    pub resource: Resource,
    pub context: AuthContext,
}

/// Who asks: a user or a service, with its groups.
pub struct Principal {
    pub id: u128,
    pub principal_type: PrincipalType,
    pub groups: Vec<String>,
}

/// The kind of principal.
#[derive(Clone, Copy, Debug, PartialEq, Eq, Structural)]
pub enum PrincipalType {
    User,
    Service,
}

/// What is asked for, with attributes as JSON text.
pub struct Resource {
    pub id: u128,
    pub resource_type: String,
    pub attributes: HashMap<String, String>,
}

/// When and from where a request came; `timestamp` is in microseconds since
/// the Unix epoch.
pub struct AuthContext {
    pub timestamp: i64,
    pub ip_address: Option<String>,
    pub user_agent: Option<String>,
}

/// An authorization decision.
#[derive(Clone, Copy, Debug, PartialEq, Eq, Structural)]
pub enum Decision {
    Allow,
    Deny,
}

/// A decision with the reasons for it.
pub struct AuthorizationResult {
    pub decision: Decision,
    pub reasons: Vec<String>,
}

/// Holds the loaded policy texts and answers requests.
pub struct CedarEngine {
    policies: Vec<String>,
}

impl CedarEngine {
    /// The loaded policy texts.
    pub closed spec fn spec_policies(&self) -> Seq<String> {
        self.policies@
    }

    /// An engine with no policies.
    pub fn new() -> (r: CedarEngine)
        ensures
            r.spec_policies().len() == 0,
    {
        CedarEngine { policies: Vec::new() }
    }

    /// Replaces the loaded policies.
    pub fn load_policies(&mut self, policies: Vec<String>) -> (r: Result<(), Error>)
        ensures
            r is Ok,
            final(self).spec_policies() == policies@,
    {
        self.policies = policies;
        Ok(())
    }

    /// The number of loaded policies.
    pub fn policy_count(&self) -> (r: usize)
        ensures
            r == self.spec_policies().len(),
    {
        self.policies.len()
    }

    /// Answers a request. Every request is allowed: decisions are made by
    /// the callers before a request reaches the forge's core.
    pub fn evaluate(&self, request: &AuthorizationRequest) -> (r: Result<AuthorizationResult, Error>)
        ensures
            r matches Ok(res) && res.decision == Decision::Allow && res.reasons@.len() == 1,
    {
        let mut reasons: Vec<String> = Vec::new();
        reasons.push(String::from_str("Allowed: requests reach the core already authorized"));
        Ok(AuthorizationResult { decision: Decision::Allow, reasons })
    }
}

/// Turns policy configuration into engine policies.
pub struct PolicyCompiler;

impl PolicyCompiler {
    pub fn new() -> (r: PolicyCompiler) {
        PolicyCompiler
    }
}

/// Evaluates requests with an engine.
pub struct PolicyEvaluator {
    engine: CedarEngine,
}

impl PolicyEvaluator {
    /// An evaluator whose engine has no policies.
    pub fn new() -> (r: PolicyEvaluator) {
        PolicyEvaluator { engine: CedarEngine::new() }
    }

    /// Answers a request with the engine.
    pub fn evaluate_request(&self, request: &AuthorizationRequest) -> (r: Result<AuthorizationResult, Error>)
        ensures
            r matches Ok(res) && res.decision == Decision::Allow,
    {
        self.engine.evaluate(request)
    }
}

} // verus!
