use flake_info_source::attrs::FlakeRefAttrs;
use flake_info_source::format::SourcesFormat;
use flake_info_source::record::{decode_sources, DecodeError, Field, FieldName, FieldValue};
use flake_info_source::source::{Nixpkgs, Source};

fn text(key: &str, v: &str) -> Field {
    Field { key: key.to_string(), value: FieldValue::Text(v.to_string()) }
}

fn number(key: &str, n: u64) -> Field {
    Field { key: key.to_string(), value: FieldValue::Unsigned(n) }
}

fn every_kind() -> Vec<Source> {
    let attrs = FlakeRefAttrs {
        git_ref: Some("main".to_string()),
        rev: None,
        dir: Some("x".to_string()),
        nar_hash: None,
        rev_count: Some(5),
        last_modified: None,
    };
    vec![
        Source::Github {
            owner: "a".to_string(),
            repo: "b".to_string(),
            description: Some("d".to_string()),
            attrs: attrs.clone(),
        },
        Source::Gitlab { owner: "c".to_string(), repo: "d".to_string(), attrs: FlakeRefAttrs::default() },
        Source::SourceHut { owner: "~e".to_string(), repo: "f".to_string(), attrs: attrs.clone() },
        Source::Git { url: "https://g/h.git".to_string(), attrs },
        Source::Nixpkgs(Nixpkgs { channel: "unstable".to_string(), git_ref: "deadbeef".to_string() }),
    ]
}

#[test]
fn record_round_trip_every_kind() {
    for s in every_kind() {
        assert_eq!(Source::from_record(&s.to_record()), Ok(s.clone()));
    }
}

#[test]
fn record_lists_round_trip() {
    let sources = every_kind();
    let records: Vec<Vec<Field>> = sources.iter().map(|s| s.to_record()).collect();
    assert_eq!(decode_sources(&records), Ok(sources));
}

#[test]
fn record_of_github_has_tag_and_nulls() {
    let s = Source::Github {
        owner: "a".to_string(),
        repo: "b".to_string(),
        description: None,
        attrs: FlakeRefAttrs::default(),
    };
    let r = s.to_record();
    assert_eq!(r.len(), 10);
    assert_eq!(r[0], text("type", "github"));
    assert_eq!(r[1], text("owner", "a"));
    assert_eq!(r[3], Field { key: "description".to_string(), value: FieldValue::Null });
    assert_eq!(r[4].key, "ref");
    assert_eq!(r[9].key, "lastModified");
}

#[test]
fn alias_ref_and_git_ref_agree() {
    let a = vec![text("type", "github"), text("owner", "o"), text("repo", "r"), text("ref", "main")];
    let b = vec![text("type", "github"), text("owner", "o"), text("repo", "r"), text("git_ref", "main")];
    let expected = Source::Github {
        owner: "o".to_string(),
        repo: "r".to_string(),
        description: None,
        attrs: FlakeRefAttrs { git_ref: Some("main".to_string()), ..FlakeRefAttrs::default() },
    };
    assert_eq!(Source::from_record(&a), Ok(expected.clone()));
    assert_eq!(Source::from_record(&b), Ok(expected));
}

#[test]
fn alias_rev_and_hash_agree() {
    let a = vec![text("type", "git"), text("url", "u"), text("rev", "abc")];
    let b = vec![text("type", "git"), text("url", "u"), text("hash", "abc")];
    assert_eq!(Source::from_record(&a), Source::from_record(&b));
    assert_eq!(
        Source::from_record(&a),
        Ok(Source::Git {
            url: "u".to_string(),
            attrs: FlakeRefAttrs { rev: Some("abc".to_string()), ..FlakeRefAttrs::default() },
        })
    );
}

#[test]
fn stored_keys_for_attrs() {
    let r = vec![
        text("type", "gitlab"),
        text("owner", "o"),
        text("repo", "r"),
        text("narHash", "h"),
        number("revCount", 12),
        number("lastModified", 99),
        Field { key: "dir".to_string(), value: FieldValue::Null },
        text("unrelated", "ignored"),
    ];
    assert_eq!(
        Source::from_record(&r),
        Ok(Source::Gitlab {
            owner: "o".to_string(),
            repo: "r".to_string(),
            attrs: FlakeRefAttrs {
                nar_hash: Some("h".to_string()),
                rev_count: Some(12),
                last_modified: Some(99),
                ..FlakeRefAttrs::default()
            },
        })
    );
}

#[test]
fn nixpkgs_record() {
    let r = vec![text("type", "nixpkgs"), text("channel", "23.05"), text("git_ref", "cafe")];
    assert_eq!(
        Source::from_record(&r),
        Ok(Source::Nixpkgs(Nixpkgs { channel: "23.05".to_string(), git_ref: "cafe".to_string() }))
    );
}

#[test]
fn missing_tag_is_an_error() {
    let r = vec![text("owner", "o"), text("repo", "r")];
    assert_eq!(Source::from_record(&r), Err(DecodeError::MissingField(FieldName::Type)));
}

#[test]
fn unknown_tag_is_an_error() {
    let r = vec![text("type", "GitHub"), text("owner", "o"), text("repo", "r")];
    assert_eq!(Source::from_record(&r), Err(DecodeError::UnknownVariant("GitHub".to_string())));
}

#[test]
fn missing_required_field_is_an_error() {
    let r = vec![text("type", "sourcehut"), text("owner", "o")];
    assert_eq!(Source::from_record(&r), Err(DecodeError::MissingField(FieldName::Repo)));
    let n = vec![text("type", "nixpkgs"), text("channel", "c"), text("ref", "x")];
    assert_eq!(Source::from_record(&n), Err(DecodeError::MissingField(FieldName::Commit)));
}

#[test]
fn wrong_kind_of_value_is_an_error() {
    let r = vec![text("type", "git"), text("url", "u"), text("revCount", "5")];
    assert_eq!(Source::from_record(&r), Err(DecodeError::InvalidType(FieldName::RevCount)));
    let t = vec![Field { key: "type".to_string(), value: FieldValue::Other }];
    assert_eq!(Source::from_record(&t), Err(DecodeError::InvalidType(FieldName::Type)));
    let o = vec![text("type", "git"), Field { key: "url".to_string(), value: FieldValue::Null }];
    assert_eq!(Source::from_record(&o), Err(DecodeError::InvalidType(FieldName::Url)));
}

#[test]
fn a_bad_record_fails_the_list() {
    let good = every_kind()[0].to_record();
    let bad = vec![text("type", "svn")];
    assert_eq!(
        decode_sources(&vec![good, bad]),
        Err(DecodeError::UnknownVariant("svn".to_string()))
    );
    assert_eq!(decode_sources(&vec![]), Ok(vec![]));
}

#[test]
fn format_by_extension() {
    assert_eq!(SourcesFormat::for_extension(Some("toml")), SourcesFormat::Toml);
    assert_eq!(SourcesFormat::for_extension(Some("json")), SourcesFormat::Json);
    assert_eq!(SourcesFormat::for_extension(Some("TOML")), SourcesFormat::Json);
    assert_eq!(SourcesFormat::for_extension(Some("tom")), SourcesFormat::Json);
    assert_eq!(SourcesFormat::for_extension(None), SourcesFormat::Json);
    assert_eq!(SourcesFormat::Toml.wrapper_field(), Some("sources"));
    assert_eq!(SourcesFormat::Json.wrapper_field(), None);
}

#[test]
fn both_spellings_of_one_field_fail() {
    let r = vec![text("type", "github"), text("owner", "o"), text("repo", "r"), text("git_ref", "a"), text("ref", "b")];
    assert_eq!(Source::from_record(&r), Err(DecodeError::DuplicateField(FieldName::Ref)));
    let h = vec![text("type", "git"), text("url", "u"), text("rev", "x"), text("hash", "x")];
    assert_eq!(Source::from_record(&h), Err(DecodeError::DuplicateField(FieldName::Rev)));
}
