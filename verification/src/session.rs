//! Session resolution and turn-request construction: given an optional
//! session reference, decide whether to look an existing session up or to
//! create one under the fixed execution policy, and classify the failures
//! the session collaborator can report.

use vstd::prelude::*;

use crate::errors::ErrorKind;
use crate::errors::TurnError;
use crate::ids::fresh_uuid;
use crate::models::map_model;
use crate::models::spec_map_model;

verus! {

/// The fixed approval policy of every adapter turn: approval is never
/// requested.
pub enum ApprovalPolicy {
    Never,
}

/// The fixed sandbox mode of every adapter turn: read-only.
pub enum SandboxMode {
    ReadOnly,
}

/// One unit of work submitted against a session: a fresh request id, the
/// merged instruction, the normalized target model, and the fixed policy.
pub struct TurnRequest {
    pub id: String,
    pub instruction: String,
    pub model: String,
    pub approval: ApprovalPolicy,
    pub sandbox: SandboxMode,
}

/// Build the turn request for one external call.  The id is freshly
/// generated and never reused; the model is normalized through the alias
/// table; the policy is fixed.
pub fn build_turn_request(instruction: String, model: &str) -> (r: TurnRequest)
    ensures
        r.id@.len() == 36,
        r.instruction == instruction,
        r.model@ == spec_map_model(model@),
        r.approval is Never,
        r.sandbox is ReadOnly,
{
    TurnRequest {
        id: fresh_uuid(),
        instruction,
        model: map_model(model),
        approval: ApprovalPolicy::Never,
        sandbox: SandboxMode::ReadOnly,
    }
}

/// One key/value configuration override handed to the collaborator's
/// config loader when a session is created.
pub struct ConfigOverride {
    pub key: String,
    pub value: String,
}

/// How to resolve the session of one external call: look up the supplied
/// reference, or create a new session under the given overrides.
pub enum SessionDecision {
    Lookup { reference: String },
    Create { overrides: Vec<ConfigOverride> },
}

/// Decide how to resolve a session: a supplied reference is looked up; with
/// none, a new session is created with the normalized model and the fixed
/// execution policy (approval never required, sandbox read-only).
pub fn plan_session(model: &str, conversation_id: &Option<String>) -> (r: SessionDecision)
    ensures
        (match *conversation_id {
            Some(c) => r matches SessionDecision::Lookup { reference } && reference@ == c@,
            None => r matches SessionDecision::Create { overrides } && overrides@.len() == 3
                && overrides@[0].key@ == "model"@ && overrides@[0].value@ == spec_map_model(model@)
                && overrides@[1].key@ == "approval_policy"@ && overrides@[1].value@ == "never"@
                && overrides@[2].key@ == "sandbox_mode"@ && overrides@[2].value@ == "read-only"@,
        }),
{
    match conversation_id {
        Some(c) => SessionDecision::Lookup { reference: c.clone() },
        None => {
            let mut overrides: Vec<ConfigOverride> = Vec::new();
            overrides.push(
                ConfigOverride { key: String::from_str("model"), value: map_model(model) },
            );
            overrides.push(
                ConfigOverride {
                    key: String::from_str("approval_policy"),
                    value: String::from_str("never"),
                },
            );
            overrides.push(
                ConfigOverride {
                    key: String::from_str("sandbox_mode"),
                    value: String::from_str("read-only"),
                },
            );
            SessionDecision::Create { overrides }
        },
    }
}

/// Classify a session reference that does not parse as a valid identifier.
pub fn invalid_reference_failure(detail: &str) -> (r: TurnError)
    ensures
        r.kind == ErrorKind::SessionFailure,
        r.message@ == "invalid conversation_id: "@ + detail@,
{
    let mut message = String::from_str("invalid conversation_id: ");
    message.append(detail);
    TurnError { kind: ErrorKind::SessionFailure, message }
}

/// Classify a session reference that does not correspond to a known
/// session.
pub fn lookup_failure(detail: &str) -> (r: TurnError)
    ensures
        r.kind == ErrorKind::SessionFailure,
        r.message@ == "thread not found: "@ + detail@,
{
    let mut message = String::from_str("thread not found: ");
    message.append(detail);
    TurnError { kind: ErrorKind::SessionFailure, message }
}

/// Classify a session creation that failed, keeping the collaborator's own
/// words.
pub fn session_create_failure(detail: &str) -> (r: TurnError)
    ensures
        r.kind == ErrorKind::SessionFailure,
        r.message@ == detail@,
{
    TurnError { kind: ErrorKind::SessionFailure, message: detail.to_owned() }
}

} // verus!
