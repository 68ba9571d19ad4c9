use flake_info_source::attrs::FlakeRefAttrs;
use flake_info_source::record::{DecodeError, FieldName};
use flake_info_source::source::{Nixpkgs, Source};
use flake_info_source::sources_file::{parse_sources, SourcesError};

fn expected() -> Vec<Source> {
    vec![
        Source::Github {
            owner: "NixOS".to_string(),
            repo: "nix".to_string(),
            description: None,
            attrs: FlakeRefAttrs { git_ref: Some("master".to_string()), ..FlakeRefAttrs::default() },
        },
        Source::Git {
            url: "https://example.org/r.git".to_string(),
            attrs: FlakeRefAttrs { rev: Some("abc".to_string()), rev_count: Some(3), ..FlakeRefAttrs::default() },
        },
        Source::Nixpkgs(Nixpkgs { channel: "unstable".to_string(), git_ref: "deadbeef".to_string() }),
    ]
}

const TOML_TEXT: &str = r#"
# hand-written list
[[sources]]
type = "github"
owner = "NixOS"
repo = "nix"
git_ref = "master"

[[sources]]
type = "git"
url = "https://example.org/r.git"
hash = "abc"
revCount = 3

[[sources]]
type = "nixpkgs"
channel = "unstable"
git_ref = "deadbeef"
"#;

const JSON_TEXT: &str = r#"[
  {"type": "github", "owner": "NixOS", "repo": "nix", "ref": "master", "description": null},
  {"type": "git", "url": "https://example.org/r.git", "rev": "abc", "revCount": 3},
  {"type": "nixpkgs", "channel": "unstable", "git_ref": "deadbeef"}
]"#;

#[test]
fn toml_file_reads_sources_field() {
    assert_eq!(parse_sources(Some("toml"), TOML_TEXT).unwrap(), expected());
}

#[test]
fn other_extension_reads_bare_array() {
    assert_eq!(parse_sources(Some("json"), JSON_TEXT).unwrap(), expected());
    assert_eq!(parse_sources(None, JSON_TEXT).unwrap(), expected());
}

#[test]
fn json_text_under_toml_extension_fails() {
    assert!(matches!(parse_sources(Some("toml"), JSON_TEXT), Err(SourcesError::Toml(_))));
}

#[test]
fn toml_text_under_json_extension_fails() {
    assert!(matches!(parse_sources(Some("json"), TOML_TEXT), Err(SourcesError::Json(_))));
}

#[test]
fn toml_without_sources_field_fails() {
    assert!(matches!(parse_sources(Some("toml"), "title = \"x\"\n"), Err(SourcesError::MissingList)));
    assert!(matches!(parse_sources(Some("toml"), "sources = 3\n"), Err(SourcesError::MissingList)));
}

#[test]
fn json_object_at_top_fails() {
    assert!(matches!(parse_sources(None, r#"{"sources": []}"#), Err(SourcesError::NotAList)));
    assert!(matches!(parse_sources(None, "[1]"), Err(SourcesError::NotARecord)));
}

#[test]
fn unknown_kind_in_file_fails() {
    match parse_sources(None, r#"[{"type": "svn", "url": "x"}]"#) {
        Err(SourcesError::Decode(e)) => assert_eq!(e, DecodeError::UnknownVariant("svn".to_string())),
        other => panic!("unexpected {:?}", other),
    }
    match parse_sources(None, r#"[{"type": "github", "owner": "o"}]"#) {
        Err(SourcesError::Decode(e)) => assert_eq!(e, DecodeError::MissingField(FieldName::Repo)),
        other => panic!("unexpected {:?}", other),
    }
}

#[test]
fn empty_lists() {
    assert_eq!(parse_sources(None, "[]").unwrap(), vec![]);
    assert_eq!(parse_sources(Some("toml"), "sources = []\n").unwrap(), vec![]);
}

#[test]
fn json_alias_spellings_read_alike() {
    let expected = vec![Source::Github {
        owner: "a".to_string(),
        repo: "b".to_string(),
        description: None,
        attrs: FlakeRefAttrs { git_ref: Some("main".to_string()), ..FlakeRefAttrs::default() },
    }];
    let a = r#"[{"type":"github","owner":"a","repo":"b","git_ref":"main"}]"#;
    let b = r#"[{"type":"github","owner":"a","repo":"b","ref":"main"}]"#;
    assert_eq!(parse_sources(Some("json"), a).unwrap(), expected);
    assert_eq!(parse_sources(Some("json"), b).unwrap(), expected);
}

#[test]
fn toml_alias_spellings_read_alike() {
    let expected = vec![Source::Git {
        url: "https://x/y.git".to_string(),
        attrs: FlakeRefAttrs { rev: Some("abc".to_string()), ..FlakeRefAttrs::default() },
    }];
    let a = "[[sources]]\ntype = 'git'\nurl = 'https://x/y.git'\nhash = 'abc'\n";
    let b = "[[sources]]\ntype = 'git'\nurl = 'https://x/y.git'\nrev = 'abc'\n";
    assert_eq!(parse_sources(Some("toml"), a).unwrap(), expected);
    assert_eq!(parse_sources(Some("toml"), b).unwrap(), expected);
}

#[test]
fn both_spellings_in_a_file_fail() {
    let t = r#"[{"type":"github","owner":"a","repo":"b","ref":"main","git_ref":"main"}]"#;
    match parse_sources(None, t) {
        Err(SourcesError::Decode(e)) => assert_eq!(e, DecodeError::DuplicateField(FieldName::Ref)),
        other => panic!("unexpected {:?}", other),
    }
}

#[test]
fn toml_sources_wrapper_is_read() {
    let t = "[[sources]]\ntype = 'github'\nowner = 'a'\nrepo = 'b'\n";
    assert_eq!(
        parse_sources(Some("toml"), t).unwrap(),
        vec![Source::Github {
            owner: "a".to_string(),
            repo: "b".to_string(),
            description: None,
            attrs: FlakeRefAttrs::default(),
        }]
    );
}

#[test]
fn bare_json_array_keeps_order() {
    let t = r#"[{"type":"gitlab","owner":"o","repo":"r"},{"type":"nixpkgs","channel":"unstable","git_ref":"deadbeef"}]"#;
    assert_eq!(
        parse_sources(Some("json"), t).unwrap(),
        vec![
            Source::Gitlab { owner: "o".to_string(), repo: "r".to_string(), attrs: FlakeRefAttrs::default() },
            Source::Nixpkgs(Nixpkgs { channel: "unstable".to_string(), git_ref: "deadbeef".to_string() }),
        ]
    );
}

#[test]
fn deeply_nested_toml_is_an_error() {
    let mut t = String::from("a = ");
    t.push_str(&"[".repeat(200_000));
    assert!(matches!(parse_sources(Some("toml"), &t), Err(SourcesError::Toml(_))));
}

#[test]
fn deeply_nested_json_is_an_error() {
    let t = "[".repeat(200_000);
    assert!(matches!(parse_sources(Some("json"), &t), Err(SourcesError::Json(_))));
}

#[test]
fn toml_item_that_is_not_a_table_fails() {
    assert!(matches!(parse_sources(Some("toml"), "sources = [1]\n"), Err(SourcesError::NotARecord)));
}
