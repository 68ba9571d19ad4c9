use vstd::prelude::*;
use vstd::string::*;

use crate::source::Nixpkgs;

verus! {

#[verifier::external_type_specification]
#[verifier::external_body]
pub struct ExJsonValue(serde_json::Value);

#[verifier::external_type_specification]
#[verifier::external_body]
pub struct ExJsonError(serde_json::Error);

/// Whether serde_json accepts `text` as JSON.
pub uninterp spec fn is_json_text(text: Seq<char>) -> bool;

/// Relies on serde_json::from_str into a `serde_json::Value`: it succeeds
/// exactly on the texts that serde_json accepts as JSON, which is a property
/// of the text alone.
#[verifier::external_body]
pub(crate) fn parse_json(text: &str) -> (r: Result<serde_json::Value, serde_json::Error>)
    ensures
        r is Ok == is_json_text(text@),
{
    serde_json::from_str::<serde_json::Value>(text)
}

/// The string that serde_json finds at a JSON pointer in a text, if the
/// text is JSON and holds a string there.
pub uninterp spec fn json_string_at_of(text: Seq<char>, pointer: Seq<char>) -> Option<Seq<char>>;

/// Relies on serde_json::from_str, serde_json::Value::pointer and
/// serde_json::Value::as_str: the string at `pointer` in the JSON `text`,
/// which depends on the two arguments alone.
#[verifier::external_body]
fn json_string_at(text: &str, pointer: &str) -> (r: Option<String>)
    ensures
        json_string_at_of(text@, pointer@) == match r {
            Some(s) => Some(s@),
            None => None::<Seq<char>>,
        },
{
    let doc = serde_json::from_str::<serde_json::Value>(text).ok()?;
    doc.pointer(pointer).and_then(|v| v.as_str()).map(|s| s.to_string())
}

/// The request that looks up the head of a channel's branch.
#[derive(Debug, Clone, PartialEq)]
pub struct ChannelRequest {
    /// The branch lookup address.
    pub url: String,
    /// The client identification sent with the request.
    pub user_agent: String,
    /// The credential sent as a bearer token, if one was given.
    pub bearer_token: Option<String>,
}

/// Why a channel could not be resolved.
#[derive(Debug)]
pub enum ChannelError {
    /// The lookup answered with a status outside 200..=299.
    Status { status: u16, body: String },
    /// The answer is not JSON.
    InvalidBody(serde_json::Error),
    /// The answer holds no `commit.sha` string.
    MissingCommit,
}

/// The branch lookup address for `channel`.
pub open spec fn branch_url(channel: Seq<char>) -> Seq<char> {
    "https://api.github.com/repos/nixos/nixpkgs/branches/nixos-"@ + channel
}

/// Whether an HTTP status reports success.
pub open spec fn is_success(status: u16) -> bool {
    200 <= status <= 299
}

/// The request for the branch `nixos-{channel}`, sent with the given
/// credential if there is one.
pub fn channel_request(channel: &str, token: Option<String>) -> (r: ChannelRequest)
    ensures
        r.url@ == branch_url(channel@),
        r.user_agent@ == "nixos-search"@,
        r.bearer_token == token,
{
    let mut url = String::from_str("https://api.github.com/repos/nixos/nixpkgs/branches/nixos-");
    url.append(channel);
    ChannelRequest { url, user_agent: String::from_str("nixos-search"), bearer_token: token }
}

/// The snapshot of `channel` at the commit found in a lookup's answer.
pub fn nixpkgs_from_commit(channel: String, sha: Option<String>) -> (r: Result<Nixpkgs, ChannelError>)
    ensures
        sha matches Some(s) ==> (r matches Ok(n) && n.channel == channel && n.git_ref == s),
        sha is None ==> r matches Err(ChannelError::MissingCommit),
{
    match sha {
        Some(s) => Ok(Nixpkgs { channel, git_ref: s }),
        None => Err(ChannelError::MissingCommit),
    }
}

/// Resolves `channel` from the lookup's answer: a failure carrying the
/// status and body when the status is not a success; otherwise the commit at
/// `commit.sha` in the JSON body.
pub fn resolve_response(channel: String, status: u16, body: String) -> (r: Result<Nixpkgs, ChannelError>)
    ensures
        !is_success(status) ==> (r matches Err(ChannelError::Status { status: s, body: b }) && s == status && b == body),
        is_success(status) && !is_json_text(body@) ==> r matches Err(ChannelError::InvalidBody(_)),
        is_success(status) && is_json_text(body@) ==> match json_string_at_of(body@, "/commit/sha"@) {
            Some(sha) => r matches Ok(n) && n.channel == channel && n.git_ref@ == sha,
            None => r matches Err(ChannelError::MissingCommit),
        },
{
    if status < 200 || status > 299 {
        return Err(ChannelError::Status { status, body });
    }
    match parse_json(body.as_str()) {
        Err(e) => Err(ChannelError::InvalidBody(e)),
        Ok(_) => nixpkgs_from_commit(channel, json_string_at(body.as_str(), "/commit/sha")),
    }
}

} // verus!
