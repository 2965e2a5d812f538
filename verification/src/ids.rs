//! Fresh identifiers and timestamps: the only places the library touches
//! the process's randomness and clock.

use vstd::prelude::*;

verus! {

/// Relies on `uuid::Uuid::new_v4` and its `Display` form: a fresh random
/// version-4 UUID rendered in the 36-character hyphenated form.  The value
/// is random, so nothing is assumed of it beyond its length.
#[verifier::external_body]
pub fn fresh_uuid() -> (r: String)
    ensures
        r@.len() == 36,
{
    uuid::Uuid::new_v4().to_string()
}

/// Relies on `std::time::SystemTime::now`: the whole seconds since the
/// Unix epoch, or zero when the clock reads before the epoch.  The value
/// depends on the clock, so nothing is assumed of it.
#[verifier::external_body]
pub fn now_ts() -> u64 {
    std::time::SystemTime::now().duration_since(std::time::UNIX_EPOCH).map(
        |d| d.as_secs(),
    ).unwrap_or(0)
}

/// A fresh aggregate chat-completion response id.
pub fn chat_completion_id() -> (r: String)
    ensures
        r@.len() == "chatcmpl-codex-"@.len() + 36,
        r@.subrange(0, "chatcmpl-codex-"@.len() as int) == "chatcmpl-codex-"@,
{
    let mut r = String::from_str("chatcmpl-codex-");
    let u = fresh_uuid();
    r.append(u.as_str());
    proof {
        assert(r@.subrange(0, "chatcmpl-codex-"@.len() as int) =~= "chatcmpl-codex-"@);
    }
    r
}

/// A fresh responses-style response id.
pub fn response_id() -> (r: String)
    ensures
        r@.len() == "resp-codex-"@.len() + 36,
        r@.subrange(0, "resp-codex-"@.len() as int) == "resp-codex-"@,
{
    let mut r = String::from_str("resp-codex-");
    let u = fresh_uuid();
    r.append(u.as_str());
    proof {
        assert(r@.subrange(0, "resp-codex-"@.len() as int) =~= "resp-codex-"@);
    }
    r
}

} // verus!
