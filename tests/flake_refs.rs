use flake_info_source::attrs::{decimal_string, FlakeRefAttrs};
use flake_info_source::source::{Nixpkgs, Source};

fn with_ref(r: &str) -> FlakeRefAttrs {
    FlakeRefAttrs { git_ref: Some(r.to_string()), ..FlakeRefAttrs::default() }
}

fn all_attrs() -> FlakeRefAttrs {
    FlakeRefAttrs {
        git_ref: Some("main".to_string()),
        rev: Some("abc123".to_string()),
        dir: Some("sub/dir".to_string()),
        nar_hash: Some("sha256-xyz".to_string()),
        rev_count: Some(42),
        last_modified: Some(1700000000),
    }
}

#[test]
fn empty_attrs_give_empty_query() {
    assert_eq!(FlakeRefAttrs::default().query_string(), "");
}

#[test]
fn query_keeps_fixed_order() {
    assert_eq!(
        all_attrs().query_string(),
        "?ref=main&rev=abc123&dir=sub/dir&narHash=sha256-xyz&revCount=42&lastModified=1700000000"
    );
}

#[test]
fn query_omits_absent_fields() {
    let a = FlakeRefAttrs {
        dir: Some("d".to_string()),
        last_modified: Some(0),
        ..FlakeRefAttrs::default()
    };
    assert_eq!(a.query_string(), "?dir=d&lastModified=0");
    let b = FlakeRefAttrs { rev_count: Some(7), ..FlakeRefAttrs::default() };
    assert_eq!(b.query_string(), "?revCount=7");
}

#[test]
fn query_values_are_not_escaped() {
    let a = FlakeRefAttrs { git_ref: Some("a&b=c?d".to_string()), ..FlakeRefAttrs::default() };
    assert_eq!(a.query_string(), "?ref=a&b=c?d");
}

#[test]
fn decimal_rendering() {
    assert_eq!(decimal_string(0), "0");
    assert_eq!(decimal_string(9), "9");
    assert_eq!(decimal_string(10), "10");
    assert_eq!(decimal_string(1234567890), "1234567890");
    assert_eq!(decimal_string(u64::MAX), "18446744073709551615");
}

#[test]
fn append_to_base_without_query() {
    assert_eq!(with_ref("main").append_to("github:a/b"), "github:a/b?ref=main");
}

#[test]
fn append_to_base_with_query() {
    let a = FlakeRefAttrs {
        git_ref: Some("main".to_string()),
        rev_count: Some(3),
        ..FlakeRefAttrs::default()
    };
    assert_eq!(a.append_to("https://x/y?foo=1"), "https://x/y?foo=1&ref=main&revCount=3");
}

#[test]
fn append_to_without_attrs_keeps_base() {
    assert_eq!(FlakeRefAttrs::default().append_to("https://x/y?foo=1"), "https://x/y?foo=1");
    assert_eq!(FlakeRefAttrs::default().append_to("git+ssh://h/r"), "git+ssh://h/r");
}

#[test]
fn append_to_has_one_question_mark() {
    let r = all_attrs().append_to("https://host/repo.git");
    assert_eq!(r.matches('?').count(), 1);
    assert!(!r.contains("?&"));
    assert!(!r.contains("&&"));
}

#[test]
fn github_flake_ref() {
    let s = Source::Github {
        owner: "a".to_string(),
        repo: "b".to_string(),
        description: None,
        attrs: with_ref("main"),
    };
    assert_eq!(s.to_flake_ref(), "github:a/b?ref=main");
}

#[test]
fn github_description_is_not_in_flake_ref() {
    let s = Source::Github {
        owner: "NixOS".to_string(),
        repo: "nix".to_string(),
        description: Some("The package manager".to_string()),
        attrs: FlakeRefAttrs::default(),
    };
    assert_eq!(s.to_flake_ref(), "github:NixOS/nix");
}

#[test]
fn gitlab_flake_ref() {
    let s = Source::Gitlab {
        owner: "o".to_string(),
        repo: "r".to_string(),
        attrs: FlakeRefAttrs { rev: Some("deadbeef".to_string()), ..FlakeRefAttrs::default() },
    };
    assert_eq!(s.to_flake_ref(), "gitlab:o/r?rev=deadbeef");
}

#[test]
fn sourcehut_flake_ref() {
    let s = Source::SourceHut {
        owner: "~user".to_string(),
        repo: "proj".to_string(),
        attrs: all_attrs(),
    };
    assert_eq!(
        s.to_flake_ref(),
        "sourcehut:~user/proj?ref=main&rev=abc123&dir=sub/dir&narHash=sha256-xyz&revCount=42&lastModified=1700000000"
    );
}

#[test]
fn git_flake_ref_plain() {
    let s = Source::Git { url: "https://x/y.git".to_string(), attrs: FlakeRefAttrs::default() };
    assert_eq!(s.to_flake_ref(), "https://x/y.git");
}

#[test]
fn git_flake_ref_with_existing_query() {
    let s = Source::Git { url: "git+https://x/y?shallow=1".to_string(), attrs: with_ref("dev") };
    assert_eq!(s.to_flake_ref(), "git+https://x/y?shallow=1&ref=dev");
}

#[test]
fn nixpkgs_flake_ref() {
    let s = Source::Nixpkgs(Nixpkgs {
        channel: "unstable".to_string(),
        git_ref: "0123abcd".to_string(),
    });
    assert_eq!(s.to_flake_ref(), "https://api.github.com/repos/NixOS/nixpkgs/tarball/0123abcd");
}

#[test]
fn malformed_values_pass_through() {
    let s = Source::Github { owner: "".to_string(), repo: "a/b".to_string(), description: None, attrs: FlakeRefAttrs::default() };
    assert_eq!(s.to_flake_ref(), "github:/a/b");
}
