use flake_info_source::channel::{channel_request, nixpkgs_from_commit, resolve_response, ChannelError};

#[test]
fn request_for_channel() {
    let r = channel_request("unstable", None);
    assert_eq!(r.url, "https://api.github.com/repos/nixos/nixpkgs/branches/nixos-unstable");
    assert_eq!(r.user_agent, "nixos-search");
    assert_eq!(r.bearer_token, None);
    let t = channel_request("23.11", Some("tok".to_string()));
    assert_eq!(t.url, "https://api.github.com/repos/nixos/nixpkgs/branches/nixos-23.11");
    assert_eq!(t.bearer_token, Some("tok".to_string()));
}

#[test]
fn resolves_commit_from_answer() {
    let n = resolve_response("unstable".to_string(), 200, r#"{"commit":{"sha":"deadbeef"}}"#.to_string())
        .unwrap();
    assert_eq!(n.channel, "unstable");
    assert_eq!(n.git_ref, "deadbeef");
}

#[test]
fn not_found_carries_status_and_body() {
    match resolve_response("nope".to_string(), 404, "Branch not found".to_string()) {
        Err(ChannelError::Status { status, body }) => {
            assert_eq!(status, 404);
            assert_eq!(body, "Branch not found");
        }
        other => panic!("unexpected {:?}", other),
    }
}

#[test]
fn malformed_answer_is_an_error() {
    let r = resolve_response("unstable".to_string(), 200, "{not json".to_string());
    assert!(matches!(r, Err(ChannelError::InvalidBody(_))));
}

#[test]
fn answer_without_sha_is_an_error() {
    let r = resolve_response("unstable".to_string(), 200, r#"{"commit":{"url":"x"}}"#.to_string());
    assert!(matches!(r, Err(ChannelError::MissingCommit)));
    let s = resolve_response("unstable".to_string(), 200, r#"{"commit":{"sha":5}}"#.to_string());
    assert!(matches!(s, Err(ChannelError::MissingCommit)));
}

#[test]
fn snapshot_from_commit() {
    let n = nixpkgs_from_commit("c".to_string(), Some("abc".to_string())).unwrap();
    assert_eq!(n.git_ref, "abc");
    assert!(matches!(nixpkgs_from_commit("c".to_string(), None), Err(ChannelError::MissingCommit)));
}
