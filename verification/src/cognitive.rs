//! The cognitive sidecar protocol: how profile ids and texts are bounded,
//! how the sidecar is launched and authenticated, and how its answers are
//! checked.
use vstd::prelude::*;
use crate::strmap::StrMap;
use crate::env::{env_view, env_set};
use crate::text::{owned, take_chars, take_spec};
use crate::ids::{is_lower_hex, random_uuid_simple};

verus! {

broadcast use vstd::string::group_string_axioms;

/// The protocol version both sides must speak.
pub const COGNITIVE_PROTOCOL_VERSION: u32 = 1;

/// The context a turn gets from the cognitive layer.
pub struct CognitiveTurnContext {
    pub version: u32,
    pub state_summary: String,
    pub memories: Vec<String>,
    pub personality: StrMap<String>,
    pub relationship: String,
    pub life_name: String,
    pub user_address: String,
    pub personality_label: String,
    pub personality_instruction: String,
}

/// Where a profile was exported, with the archive's checksum.
pub struct CognitiveExport {
    pub version: u32,
    pub path: String,
    pub sha256: String,
}

/// A character allowed in a profile id.
pub open spec fn profile_char(c: char) -> bool {
    ('a' <= c && c <= 'z') || ('A' <= c && c <= 'Z') || ('0' <= c && c <= '9') || c == '-' || c == '_'
}

/// A profile id: 1 to 64 ASCII letters, digits, `-` or `_`.
pub open spec fn valid_profile_id(s: Seq<char>) -> bool {
    1 <= s.len() <= 64 && forall|i: int| 0 <= i < s.len() ==> profile_char(#[trigger] s[i])
}

/// The profile id sent to the sidecar: the id itself when valid, otherwise
/// `invalid-profile`, so that no other text reaches a file path.
pub fn validate_profile_id<'a>(value: &'a str) -> (r: &'a str)
    ensures
        valid_profile_id(value@) ==> r@ == value@,
        !valid_profile_id(value@) ==> r@ == "invalid-profile"@,
{
    let n = value.unicode_len();
    if n == 0 || n > 64 {
        return "invalid-profile";
    }
    let cs = crate::text::chars_of(value);
    let mut i: usize = 0;
    while i < cs.len()
        invariant
            cs@ == value@,
            i <= cs@.len(),
            forall|k: int| 0 <= k < i ==> profile_char(#[trigger] value@[k]),
        decreases cs@.len() - i,
    {
        let c = cs[i];
        if !(('a' <= c && c <= 'z') || ('A' <= c && c <= 'Z') || ('0' <= c && c <= '9') || c == '-' || c == '_') {
            assert(!profile_char(value@[i as int]));
            return "invalid-profile";
        }
        i = i + 1;
    }
    value
}

/// A text sent to the sidecar: its first 12 000 characters.
pub fn bounded_text(value: &str) -> (r: String)
    ensures
        r@ == take_spec(value@, 12_000),
{
    take_chars(value, 12_000)
}

/// How many memories to recall: the request kept between 1 and 12.
pub fn recall_limit(limit: usize) -> (r: usize)
    ensures
        r == (if limit < 1 { 1 } else if limit > 12 { 12 } else { limit }),
{
    if limit < 1 {
        1
    } else if limit > 12 {
        12
    } else {
        limit
    }
}

/// Why the sidecar was refused.
#[derive(Debug)]
pub enum CognitiveError {
    TokenTooShort,
    ProtocolMismatch,
    ResponseIdMismatch,
    SidecarError(String),
}

/// The message of a sidecar error.
pub open spec fn cognitive_error_message(e: CognitiveError) -> Seq<char> {
    match e {
        CognitiveError::TokenTooShort => "cognitive sidecar token is too short"@,
        CognitiveError::ProtocolMismatch => "cognitive sidecar protocol mismatch"@,
        CognitiveError::ResponseIdMismatch => "cognitive response id mismatch"@,
        CognitiveError::SidecarError(m) => "cognitive sidecar error: "@ + m@,
    }
}

impl CognitiveError {
    /// The error's message.
    pub fn message(&self) -> (m: String)
        ensures
            m@ == cognitive_error_message(*self),
    {
        match self {
            CognitiveError::TokenTooShort => owned("cognitive sidecar token is too short"),
            CognitiveError::ProtocolMismatch => owned("cognitive sidecar protocol mismatch"),
            CognitiveError::ResponseIdMismatch => owned("cognitive response id mismatch"),
            CognitiveError::SidecarError(m) => {
                let mut out = owned("cognitive sidecar error: ");
                out.append(m.as_str());
                out
            },
        }
    }
}

/// The sidecar authenticates requests with a token of at least 32 bytes.
pub fn check_token(token: &str) -> (r: Result<(), CognitiveError>)
    ensures
        vstd::utf8::encode_utf8(token@).len() >= 32 ==> r is Ok,
        vstd::utf8::encode_utf8(token@).len() < 32 ==> (r matches Err(e) && e is TokenTooShort),
{
    if token.as_bytes().len() >= 32 {
        Ok(())
    } else {
        Err(CognitiveError::TokenTooShort)
    }
}

/// The sidecar must answer `ping` with this protocol version.
pub fn check_protocol(version: Option<u64>) -> (r: Result<(), CognitiveError>)
    ensures
        version == Some(COGNITIVE_PROTOCOL_VERSION as u64) ==> r is Ok,
        version != Some(COGNITIVE_PROTOCOL_VERSION as u64) ==> (r matches Err(e) && e is ProtocolMismatch),
{
    match version {
        Some(v) => if v == COGNITIVE_PROTOCOL_VERSION as u64 {
            Ok(())
        } else {
            Err(CognitiveError::ProtocolMismatch)
        },
        None => Err(CognitiveError::ProtocolMismatch),
    }
}

/// The id of the next request, and the counter after it (saturating).
pub fn next_request_id(next_id: u64) -> (r: (u64, u64))
    ensures
        r.0 == next_id,
        r.1 == (if next_id < u64::MAX { next_id + 1 } else { next_id as int }),
{
    (next_id, next_id.saturating_add(1))
}

/// Checks the answer to request `expected`: its id must match, and an
/// `error` member makes the call fail with the error's message (`unknown
/// error` when it has none).
pub fn check_response(response_id: Option<u64>, expected: u64, has_error: bool, error_message: Option<String>) -> (r: Result<(), CognitiveError>)
    ensures
        response_id != Some(expected) ==> (r matches Err(e) && e is ResponseIdMismatch),
        response_id == Some(expected) && has_error ==> (r matches Err(e) && e matches CognitiveError::SidecarError(m)
            && m@ == (match error_message { Some(x) => x@, None => "unknown error"@ })),
        response_id == Some(expected) && !has_error ==> r is Ok,
{
    match response_id {
        Some(id) => if id != expected {
            return Err(CognitiveError::ResponseIdMismatch);
        },
        None => return Err(CognitiveError::ResponseIdMismatch),
    }
    if has_error {
        let m = match error_message {
            Some(x) => x,
            None => owned("unknown error"),
        };
        return Err(CognitiveError::SidecarError(m));
    }
    Ok(())
}

/// How the sidecar process is started.
pub struct SidecarLaunch {
    pub arguments: Vec<String>,
    /// The whole environment (the parent's is cleared).
    pub environment: StrMap<String>,
}

/// The sidecar's arguments and environment: it speaks over stdio, keeps
/// its state under `state_root`, which is also its home, and gets the token.
pub fn sidecar_launch(sidecar: &str, state_root: &str, token: &str) -> (l: SidecarLaunch)
    ensures
        crate::providers::strs_view(l.arguments@) == seq![sidecar@, "--stdio"@, "--state-root"@, state_root@],
        env_view(l.environment@) == Map::<Seq<char>, Seq<char>>::empty()
            .insert("COOMI_LIFE_TOKEN"@, token@)
            .insert("HOME"@, state_root@)
            .insert("PATH"@, "/usr/local/bin:/usr/bin:/bin"@)
            .insert("LANG"@, "C.UTF-8"@),
{
    let mut arguments: Vec<String> = Vec::new();
    arguments.push(owned(sidecar));
    arguments.push(owned("--stdio"));
    arguments.push(owned("--state-root"));
    arguments.push(owned(state_root));
    assert(crate::providers::strs_view(arguments@) =~= seq![sidecar@, "--stdio"@, "--state-root"@, state_root@]);
    let mut environment: StrMap<String> = StrMap::new();
    assert(env_view(environment@) =~= Map::<Seq<char>, Seq<char>>::empty());
    env_set(&mut environment, "COOMI_LIFE_TOKEN", owned(token));
    env_set(&mut environment, "HOME", owned(state_root));
    env_set(&mut environment, "PATH", owned("/usr/local/bin:/usr/bin:/bin"));
    env_set(&mut environment, "LANG", owned("C.UTF-8"));
    SidecarLaunch { arguments, environment }
}

/// A fresh sidecar token: two random UUIDs, 64 lower-case hex digits.
pub fn generate_cognitive_token() -> (t: String)
    ensures
        t@.len() == 64,
        forall|i: int| 0 <= i < 64 ==> is_lower_hex(#[trigger] t@[i]),
{
    let mut t = random_uuid_simple();
    let second = random_uuid_simple();
    let ghost first = t@;
    t.append(second.as_str());
    assert forall|i: int| 0 <= i < 64 implies is_lower_hex(#[trigger] t@[i]) by {
        if i < 32 {
            assert(t@[i] == first[i]);
        } else {
            assert(t@[i] == second@[i - 32]);
        }
    }
    t
}

/// A generated token is long enough for the sidecar to accept.
pub proof fn lemma_generated_token_accepted(t: Seq<char>)
    requires
        t.len() == 64,
        forall|i: int| 0 <= i < 64 ==> is_lower_hex(#[trigger] t[i]),
    ensures
        vstd::utf8::encode_utf8(t).len() >= 32,
{
    assert(vstd::utf8::is_ascii_chars(t)) by {
        assert forall|i: int| 0 <= i < t.len() implies '\0' <= #[trigger] t[i] <= '\u{7f}' by {
            assert(is_lower_hex(t[i]));
        }
    }
    vstd::utf8::is_ascii_chars_encode_utf8(t);
}

} // verus!
