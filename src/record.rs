use vstd::prelude::*;
use vstd::string::*;

use crate::attrs::FlakeRefAttrs;
use crate::source::{Nixpkgs, Source};

verus! {

/// A value of a record's field, as the stored form gives it.
#[derive(Debug, Clone, PartialEq)]
pub enum FieldValue {
    Text(String),
    Unsigned(u64),
    Null,
    /// Any other kind of value (a list, a table, a boolean, a negative or
    /// fractional number).
    Other,
}

/// One `key = value` entry of a stored record.
#[derive(Debug, Clone, PartialEq)]
pub struct Field {
    pub key: String,
    pub value: FieldValue,
}

/// The fields that a stored record of a source may carry.
#[derive(Debug, Clone, Copy, PartialEq, Eq, Structural)]
pub enum FieldName {
    Type,
    Owner,
    Repo,
    Description,
    Url,
    Channel,
    Commit,
    Ref,
    Rev,
    Dir,
    NarHash,
    RevCount,
    LastModified,
}

/// Why a stored record is not a source.
#[derive(Debug, Clone, PartialEq)]
pub enum DecodeError {
    /// A required field is absent.
    MissingField(FieldName),
    /// A field holds a value of the wrong kind.
    InvalidType(FieldName),
    /// The `type` tag names no known kind of source.
    UnknownVariant(String),
    /// Two entries are read as the same field (such as `ref` and `git_ref`).
    DuplicateField(FieldName),
}

/// The key under which a field is written.
pub open spec fn key_of(name: FieldName) -> Seq<char> {
    match name {
        FieldName::Type => "type"@,
        FieldName::Owner => "owner"@,
        FieldName::Repo => "repo"@,
        FieldName::Description => "description"@,
        FieldName::Url => "url"@,
        FieldName::Channel => "channel"@,
        FieldName::Commit => "git_ref"@,
        FieldName::Ref => "ref"@,
        FieldName::Rev => "rev"@,
        FieldName::Dir => "dir"@,
        FieldName::NarHash => "narHash"@,
        FieldName::RevCount => "revCount"@,
        FieldName::LastModified => "lastModified"@,
    }
}

/// The second key accepted for a field when reading; the key itself for
/// fields without one.
pub open spec fn alias_of(name: FieldName) -> Seq<char> {
    match name {
        FieldName::Ref => "git_ref"@,
        FieldName::Rev => "hash"@,
        _ => key_of(name),
    }
}

/// Whether an entry written under `key` is read as field `name`.
pub open spec fn names(key: Seq<char>, name: FieldName) -> bool {
    key == key_of(name) || key == alias_of(name)
}

/// A record as keys and values.
pub open spec fn entries(fields: Seq<Field>) -> Seq<(Seq<char>, FieldValue)> {
    fields.map_values(|f: Field| (f.key@, f.value))
}

/// The value of the first entry read as field `name`.
pub open spec fn lookup(es: Seq<(Seq<char>, FieldValue)>, name: FieldName) -> Option<FieldValue>
    decreases es.len(),
{
    if es.len() == 0 {
        None
    } else if names(es[0].0, name) {
        Some(es[0].1)
    } else {
        lookup(es.drop_first(), name)
    }
}

fn key_str(name: FieldName) -> (r: &'static str)
    ensures
        r@ == key_of(name),
{
    match name {
        FieldName::Type => "type",
        FieldName::Owner => "owner",
        FieldName::Repo => "repo",
        FieldName::Description => "description",
        FieldName::Url => "url",
        FieldName::Channel => "channel",
        FieldName::Commit => "git_ref",
        FieldName::Ref => "ref",
        FieldName::Rev => "rev",
        FieldName::Dir => "dir",
        FieldName::NarHash => "narHash",
        FieldName::RevCount => "revCount",
        FieldName::LastModified => "lastModified",
    }
}

fn alias_str(name: FieldName) -> (r: &'static str)
    ensures
        r@ == alias_of(name),
{
    match name {
        FieldName::Ref => "git_ref",
        FieldName::Rev => "hash",
        _ => key_str(name),
    }
}

/// Whether two strings hold the same characters.
pub fn same_text(a: &str, b: &str) -> (r: bool)
    ensures
        r == (a@ == b@),
{
    let n = a.unicode_len();
    if n != b.unicode_len() {
        return false;
    }
    let mut i: usize = 0;
    while i < n
        invariant
            n == a@.len(),
            n == b@.len(),
            i <= n,
            forall|j: int| 0 <= j < i ==> a@[j] == b@[j],
        decreases n - i,
    {
        if a.get_char(i) != b.get_char(i) {
            return false;
        }
        i = i + 1;
    }
    assert(a@ =~= b@);
    true
}

/// The position of the first entry read as field `name`.
fn find(fields: &Vec<Field>, name: FieldName) -> (r: Option<usize>)
    ensures
        match r {
            Some(i) => i < fields@.len() && lookup(entries(fields@), name) == Some(fields@[i as int].value),
            None => lookup(entries(fields@), name) is None,
        },
{
    let key = key_str(name);
    let alias = alias_str(name);
    let n = fields.len();
    let mut i: usize = 0;
    assert(entries(fields@).subrange(0, n as int) =~= entries(fields@));
    while i < n
        invariant
            n == fields@.len(),
            i <= n,
            key@ == key_of(name),
            alias@ == alias_of(name),
            lookup(entries(fields@), name) == lookup(entries(fields@).subrange(i as int, n as int), name),
        decreases n - i,
    {
        let ghost rest = entries(fields@).subrange(i as int, n as int);
        assert(rest[0] == (fields@[i as int].key@, fields@[i as int].value));
        assert(rest.drop_first() =~= entries(fields@).subrange(i + 1, n as int));
        let k = fields[i].key.as_str();
        if same_text(k, key) || same_text(k, alias) {
            return Some(i);
        }
        i = i + 1;
    }
    None
}

/// How many entries are read as field `name`.
pub open spec fn count_named(es: Seq<(Seq<char>, FieldValue)>, name: FieldName) -> nat
    decreases es.len(),
{
    if es.len() == 0 {
        0
    } else {
        count_named(es.drop_last(), name) + if names(es.last().0, name) { 1nat } else { 0nat }
    }
}

/// The value of field `name`, if an entry gives it; a failure where two
/// entries give it.
pub open spec fn field_value(es: Seq<(Seq<char>, FieldValue)>, name: FieldName) -> Result<Option<FieldValue>, DecodeError> {
    if count_named(es, name) > 1 {
        Err(DecodeError::DuplicateField(name))
    } else {
        Ok(lookup(es, name))
    }
}

/// A text field that must be present.
pub open spec fn required_text(es: Seq<(Seq<char>, FieldValue)>, name: FieldName) -> Result<String, DecodeError> {
    match field_value(es, name) {
        Err(e) => Err(e),
        Ok(None) => Err(DecodeError::MissingField(name)),
        Ok(Some(FieldValue::Text(s))) => Ok(s),
        Ok(Some(_)) => Err(DecodeError::InvalidType(name)),
    }
}

/// A text field that may be absent or null.
pub open spec fn optional_text(es: Seq<(Seq<char>, FieldValue)>, name: FieldName) -> Result<Option<String>, DecodeError> {
    match field_value(es, name) {
        Err(e) => Err(e),
        Ok(None) => Ok(None),
        Ok(Some(FieldValue::Null)) => Ok(None),
        Ok(Some(FieldValue::Text(s))) => Ok(Some(s)),
        Ok(Some(_)) => Err(DecodeError::InvalidType(name)),
    }
}

/// An unsigned field that may be absent or null.
pub open spec fn optional_number(es: Seq<(Seq<char>, FieldValue)>, name: FieldName) -> Result<Option<u64>, DecodeError> {
    match field_value(es, name) {
        Err(e) => Err(e),
        Ok(None) => Ok(None),
        Ok(Some(FieldValue::Null)) => Ok(None),
        Ok(Some(FieldValue::Unsigned(n))) => Ok(Some(n)),
        Ok(Some(_)) => Err(DecodeError::InvalidType(name)),
    }
}

/// The locator attributes a record carries; the first bad field, in the
/// order `ref`, `rev`, `dir`, `narHash`, `revCount`, `lastModified`, fails it.
pub open spec fn decode_attrs(es: Seq<(Seq<char>, FieldValue)>) -> Result<FlakeRefAttrs, DecodeError> {
    match optional_text(es, FieldName::Ref) {
        Err(e) => Err(e),
        Ok(git_ref) => match optional_text(es, FieldName::Rev) {
            Err(e) => Err(e),
            Ok(rev) => match optional_text(es, FieldName::Dir) {
                Err(e) => Err(e),
                Ok(dir) => match optional_text(es, FieldName::NarHash) {
                    Err(e) => Err(e),
                    Ok(nar_hash) => match optional_number(es, FieldName::RevCount) {
                        Err(e) => Err(e),
                        Ok(rev_count) => match optional_number(es, FieldName::LastModified) {
                            Err(e) => Err(e),
                            Ok(last_modified) => Ok(
                                FlakeRefAttrs { git_ref, rev, dir, nar_hash, rev_count, last_modified },
                            ),
                        },
                    },
                },
            },
        },
    }
}

/// The kinds of hosted repository, which share their fields.
pub enum HostKind {
    Github,
    Gitlab,
    SourceHut,
}

/// A hosted repository: owner, repository, then (for GitHub) description,
/// then attributes.
pub open spec fn decode_hosted(es: Seq<(Seq<char>, FieldValue)>, kind: HostKind) -> Result<Source, DecodeError> {
    match required_text(es, FieldName::Owner) {
        Err(e) => Err(e),
        Ok(owner) => match required_text(es, FieldName::Repo) {
            Err(e) => Err(e),
            Ok(repo) => match kind {
                HostKind::Github => match optional_text(es, FieldName::Description) {
                    Err(e) => Err(e),
                    Ok(description) => match decode_attrs(es) {
                        Err(e) => Err(e),
                        Ok(attrs) => Ok(Source::Github { owner, repo, description, attrs }),
                    },
                },
                HostKind::Gitlab => match decode_attrs(es) {
                    Err(e) => Err(e),
                    Ok(attrs) => Ok(Source::Gitlab { owner, repo, attrs }),
                },
                HostKind::SourceHut => match decode_attrs(es) {
                    Err(e) => Err(e),
                    Ok(attrs) => Ok(Source::SourceHut { owner, repo, attrs }),
                },
            },
        },
    }
}

/// The source a record describes, chosen by its `type` tag (`github`,
/// `gitlab`, `sourcehut`, `git` or `nixpkgs`).
pub open spec fn decode_source(es: Seq<(Seq<char>, FieldValue)>) -> Result<Source, DecodeError> {
    match required_text(es, FieldName::Type) {
        Err(e) => Err(e),
        Ok(tag) => if tag@ == "github"@ {
            decode_hosted(es, HostKind::Github)
        } else if tag@ == "gitlab"@ {
            decode_hosted(es, HostKind::Gitlab)
        } else if tag@ == "sourcehut"@ {
            decode_hosted(es, HostKind::SourceHut)
        } else if tag@ == "git"@ {
            match required_text(es, FieldName::Url) {
                Err(e) => Err(e),
                Ok(url) => match decode_attrs(es) {
                    Err(e) => Err(e),
                    Ok(attrs) => Ok(Source::Git { url, attrs }),
                },
            }
        } else if tag@ == "nixpkgs"@ {
            match required_text(es, FieldName::Channel) {
                Err(e) => Err(e),
                Ok(channel) => match required_text(es, FieldName::Commit) {
                    Err(e) => Err(e),
                    Ok(git_ref) => Ok(Source::Nixpkgs(Nixpkgs { channel, git_ref })),
                },
            }
        } else {
            Err(DecodeError::UnknownVariant(tag))
        },
    }
}

/// Whether more than one entry is read as field `name`.
fn named_more_than_once(fields: &Vec<Field>, name: FieldName) -> (r: bool)
    ensures
        r == (count_named(entries(fields@), name) > 1),
{
    let key = key_str(name);
    let alias = alias_str(name);
    let n = fields.len();
    let mut c: usize = 0;
    let mut k: usize = 0;
    assert(entries(fields@).subrange(0, 0) =~= Seq::<(Seq<char>, FieldValue)>::empty());
    while k < n
        invariant
            n == fields@.len(),
            k <= n,
            c <= k,
            key@ == key_of(name),
            alias@ == alias_of(name),
            c == count_named(entries(fields@).subrange(0, k as int), name),
        decreases n - k,
    {
        let ghost next = entries(fields@).subrange(0, k + 1);
        assert(next.drop_last() =~= entries(fields@).subrange(0, k as int));
        assert(next.last() == (fields@[k as int].key@, fields@[k as int].value));
        let kk = fields[k].key.as_str();
        if same_text(kk, key) || same_text(kk, alias) {
            c = c + 1;
        }
        k = k + 1;
    }
    assert(entries(fields@).subrange(0, n as int) =~= entries(fields@));
    c > 1
}

/// The position of the one entry read as field `name`.
fn find_unique(fields: &Vec<Field>, name: FieldName) -> (r: Result<Option<usize>, DecodeError>)
    ensures
        match field_value(entries(fields@), name) {
            Err(e) => r == Err::<Option<usize>, DecodeError>(e),
            Ok(None) => r == Ok::<Option<usize>, DecodeError>(None),
            Ok(Some(v)) => r matches Ok(Some(i)) && i < fields@.len() && fields@[i as int].value == v,
        },
{
    if named_more_than_once(fields, name) {
        Err(DecodeError::DuplicateField(name))
    } else {
        Ok(find(fields, name))
    }
}

fn read_required_text(fields: &Vec<Field>, name: FieldName) -> (r: Result<String, DecodeError>)
    ensures
        r == required_text(entries(fields@), name),
{
    match find_unique(fields, name) {
        Err(e) => Err(e),
        Ok(None) => Err(DecodeError::MissingField(name)),
        Ok(Some(i)) => match &fields[i].value {
            FieldValue::Text(s) => Ok(s.clone()),
            _ => Err(DecodeError::InvalidType(name)),
        },
    }
}

fn read_optional_text(fields: &Vec<Field>, name: FieldName) -> (r: Result<Option<String>, DecodeError>)
    ensures
        r == optional_text(entries(fields@), name),
{
    match find_unique(fields, name) {
        Err(e) => Err(e),
        Ok(None) => Ok(None),
        Ok(Some(i)) => match &fields[i].value {
            FieldValue::Null => Ok(None),
            FieldValue::Text(s) => Ok(Some(s.clone())),
            _ => Err(DecodeError::InvalidType(name)),
        },
    }
}

fn read_optional_number(fields: &Vec<Field>, name: FieldName) -> (r: Result<Option<u64>, DecodeError>)
    ensures
        r == optional_number(entries(fields@), name),
{
    match find_unique(fields, name) {
        Err(e) => Err(e),
        Ok(None) => Ok(None),
        Ok(Some(i)) => match &fields[i].value {
            FieldValue::Null => Ok(None),
            FieldValue::Unsigned(n) => Ok(Some(*n)),
            _ => Err(DecodeError::InvalidType(name)),
        },
    }
}

fn read_attrs(fields: &Vec<Field>) -> (r: Result<FlakeRefAttrs, DecodeError>)
    ensures
        r == decode_attrs(entries(fields@)),
{
    let git_ref = match read_optional_text(fields, FieldName::Ref) {
        Err(e) => return Err(e),
        Ok(v) => v,
    };
    let rev = match read_optional_text(fields, FieldName::Rev) {
        Err(e) => return Err(e),
        Ok(v) => v,
    };
    let dir = match read_optional_text(fields, FieldName::Dir) {
        Err(e) => return Err(e),
        Ok(v) => v,
    };
    let nar_hash = match read_optional_text(fields, FieldName::NarHash) {
        Err(e) => return Err(e),
        Ok(v) => v,
    };
    let rev_count = match read_optional_number(fields, FieldName::RevCount) {
        Err(e) => return Err(e),
        Ok(v) => v,
    };
    let last_modified = match read_optional_number(fields, FieldName::LastModified) {
        Err(e) => return Err(e),
        Ok(v) => v,
    };
    Ok(FlakeRefAttrs { git_ref, rev, dir, nar_hash, rev_count, last_modified })
}

fn read_hosted(fields: &Vec<Field>, kind: HostKind) -> (r: Result<Source, DecodeError>)
    ensures
        r == decode_hosted(entries(fields@), kind),
{
    let owner = match read_required_text(fields, FieldName::Owner) {
        Err(e) => return Err(e),
        Ok(v) => v,
    };
    let repo = match read_required_text(fields, FieldName::Repo) {
        Err(e) => return Err(e),
        Ok(v) => v,
    };
    match kind {
        HostKind::Github => {
            let description = match read_optional_text(fields, FieldName::Description) {
                Err(e) => return Err(e),
                Ok(v) => v,
            };
            match read_attrs(fields) {
                Err(e) => Err(e),
                Ok(attrs) => Ok(Source::Github { owner, repo, description, attrs }),
            }
        },
        HostKind::Gitlab => match read_attrs(fields) {
            Err(e) => Err(e),
            Ok(attrs) => Ok(Source::Gitlab { owner, repo, attrs }),
        },
        HostKind::SourceHut => match read_attrs(fields) {
            Err(e) => Err(e),
            Ok(attrs) => Ok(Source::SourceHut { owner, repo, attrs }),
        },
    }
}

impl Source {
    /// Reads a source from a stored record. The `type` tag picks the kind;
    /// `git_ref` is read as `ref` and `hash` as `rev`; entries under other
    /// keys are ignored, and two entries read as one field fail it.
    pub fn from_record(fields: &Vec<Field>) -> (r: Result<Source, DecodeError>)
        ensures
            r == decode_source(entries(fields@)),
    {
        let tag = match read_required_text(fields, FieldName::Type) {
            Err(e) => return Err(e),
            Ok(v) => v,
        };
        if same_text(tag.as_str(), "github") {
            read_hosted(fields, HostKind::Github)
        } else if same_text(tag.as_str(), "gitlab") {
            read_hosted(fields, HostKind::Gitlab)
        } else if same_text(tag.as_str(), "sourcehut") {
            read_hosted(fields, HostKind::SourceHut)
        } else if same_text(tag.as_str(), "git") {
            let url = match read_required_text(fields, FieldName::Url) {
                Err(e) => return Err(e),
                Ok(v) => v,
            };
            match read_attrs(fields) {
                Err(e) => Err(e),
                Ok(attrs) => Ok(Source::Git { url, attrs }),
            }
        } else if same_text(tag.as_str(), "nixpkgs") {
            let channel = match read_required_text(fields, FieldName::Channel) {
                Err(e) => return Err(e),
                Ok(v) => v,
            };
            match read_required_text(fields, FieldName::Commit) {
                Err(e) => Err(e),
                Ok(git_ref) => Ok(Source::Nixpkgs(Nixpkgs { channel, git_ref })),
            }
        } else {
            Err(DecodeError::UnknownVariant(tag))
        }
    }
}

/// Every record of a list read as a source, in order; the first record that
/// is not a source fails the whole list.
pub open spec fn decode_all(records: Seq<Seq<(Seq<char>, FieldValue)>>) -> Result<Seq<Source>, DecodeError>
    decreases records.len(),
{
    if records.len() == 0 {
        Ok(seq![])
    } else {
        match decode_all(records.drop_last()) {
            Err(e) => Err(e),
            Ok(done) => match decode_source(records.last()) {
                Err(e) => Err(e),
                Ok(s) => Ok(done.push(s)),
            },
        }
    }
}

/// The records of a list, as keys and values.
pub open spec fn records_entries(records: Seq<Vec<Field>>) -> Seq<Seq<(Seq<char>, FieldValue)>> {
    records.map_values(|r: Vec<Field>| entries(r@))
}

/// Reads a list of stored records as sources, failing on the first record
/// that is not one.
pub fn decode_sources(records: &Vec<Vec<Field>>) -> (r: Result<Vec<Source>, DecodeError>)
    ensures
        match (r, decode_all(records_entries(records@))) {
            (Ok(v), Ok(s)) => v@ == s,
            (Err(e), Err(f)) => e == f,
            _ => false,
        },
{
    let mut out: Vec<Source> = Vec::new();
    let n = records.len();
    let mut i: usize = 0;
    while i < n
        invariant
            n == records@.len(),
            i <= n,
            decode_all(records_entries(records@).subrange(0, i as int)) == Ok::<Seq<Source>, DecodeError>(out@),
        decreases n - i,
    {
        let ghost prefix = records_entries(records@).subrange(0, i as int + 1);
        assert(prefix.drop_last() =~= records_entries(records@).subrange(0, i as int));
        assert(prefix.last() == entries(records@[i as int]@));
        match Source::from_record(&records[i]) {
            Err(e) => {
                proof { lemma_decode_all_fails(records_entries(records@), i as int + 1); }
                return Err(e);
            },
            Ok(s) => out.push(s),
        }
        i = i + 1;
    }
    assert(records_entries(records@).subrange(0, n as int) =~= records_entries(records@));
    Ok(out)
}

proof fn lemma_decode_all_fails(records: Seq<Seq<(Seq<char>, FieldValue)>>, k: int)
    requires
        0 < k <= records.len(),
        decode_all(records.subrange(0, k)) is Err,
    ensures
        decode_all(records) == decode_all(records.subrange(0, k)),
    decreases records.len() - k,
{
    if k < records.len() {
        let next = records.subrange(0, k + 1);
        assert(next.drop_last() =~= records.subrange(0, k));
        lemma_decode_all_fails(records, k + 1);
    } else {
        assert(records.subrange(0, k) =~= records);
    }
}

/// Distinct fields are written under distinct keys; the one key read as two
/// fields is `git_ref`, the commit of a nixpkgs record and the alias of `ref`.
pub proof fn lemma_keys_distinct()
    ensures
        forall|a: FieldName, b: FieldName|
            a != b && !(a == FieldName::Commit && b == FieldName::Ref) ==> !#[trigger] names(key_of(a), b),
        forall|a: FieldName, b: FieldName|
            a != b && !(a == FieldName::Ref && b == FieldName::Commit) && !(a == FieldName::Commit && b == FieldName::Ref)
                ==> !#[trigger] names(alias_of(a), b),
{
    reveal_strlit("type");
    reveal_strlit("owner");
    reveal_strlit("repo");
    reveal_strlit("description");
    reveal_strlit("url");
    reveal_strlit("channel");
    reveal_strlit("git_ref");
    reveal_strlit("ref");
    reveal_strlit("rev");
    reveal_strlit("dir");
    reveal_strlit("narHash");
    reveal_strlit("revCount");
    reveal_strlit("lastModified");
    reveal_strlit("hash");
    assert forall|a: FieldName, b: FieldName|
        a != b && !(a == FieldName::Commit && b == FieldName::Ref) implies !#[trigger] names(key_of(a), b) by {
        let k = key_of(a);
        if k == key_of(b) || k == alias_of(b) {
            let m = if k == key_of(b) { key_of(b) } else { alias_of(b) };
            assert(k.len() == m.len());
            assert(k[0] == m[0]);
            if k.len() > 2 {
                assert(k[2] == m[2]);
            }
        }
    }
    assert forall|a: FieldName, b: FieldName|
        a != b && !(a == FieldName::Ref && b == FieldName::Commit) && !(a == FieldName::Commit && b == FieldName::Ref)
        implies !#[trigger] names(alias_of(a), b) by {
        let k = alias_of(a);
        if k == key_of(b) || k == alias_of(b) {
            let m = if k == key_of(b) { key_of(b) } else { alias_of(b) };
            assert(k.len() == m.len());
            assert(k[0] == m[0]);
            if k.len() > 2 {
                assert(k[2] == m[2]);
            }
        }
    }
}

proof fn lemma_lookup_first(es: Seq<(Seq<char>, FieldValue)>, i: int, name: FieldName)
    requires
        0 <= i < es.len(),
        names(es[i].0, name),
        forall|j: int| 0 <= j < i ==> !names(#[trigger] es[j].0, name),
    ensures
        lookup(es, name) == Some(es[i].1),
    decreases i,
{
    if i > 0 {
        assert(!names(es[0].0, name));
        lemma_lookup_first(es.drop_first(), i - 1, name);
    }
}

/// The stored value of an optional text.
pub open spec fn text_value(v: Option<String>) -> FieldValue {
    match v {
        Some(s) => FieldValue::Text(s),
        None => FieldValue::Null,
    }
}

/// The stored value of an optional unsigned number.
pub open spec fn number_value(v: Option<u64>) -> FieldValue {
    match v {
        Some(n) => FieldValue::Unsigned(n),
        None => FieldValue::Null,
    }
}

/// Whether `v` is the text `t`.
pub open spec fn text_is(v: FieldValue, t: Seq<char>) -> bool {
    v matches FieldValue::Text(x) && x@ == t
}

/// The six attribute entries stand from position `at` on, each absent one
/// as null.
pub open spec fn attrs_stored_at(es: Seq<(Seq<char>, FieldValue)>, at: int, a: FlakeRefAttrs) -> bool {
    &&& es[at] == (key_of(FieldName::Ref), text_value(a.git_ref))
    &&& es[at + 1] == (key_of(FieldName::Rev), text_value(a.rev))
    &&& es[at + 2] == (key_of(FieldName::Dir), text_value(a.dir))
    &&& es[at + 3] == (key_of(FieldName::NarHash), text_value(a.nar_hash))
    &&& es[at + 4] == (key_of(FieldName::RevCount), number_value(a.rev_count))
    &&& es[at + 5] == (key_of(FieldName::LastModified), number_value(a.last_modified))
}

/// The stored record of source `s`: the `type` tag, the kind's own fields,
/// then the attributes of a repository.
pub open spec fn is_record_of(es: Seq<(Seq<char>, FieldValue)>, s: Source) -> bool {
    &&& es.len() > 0
    &&& es[0].0 == key_of(FieldName::Type)
    &&& match s {
        Source::Github { owner, repo, description, attrs } => {
            &&& es.len() == 10
            &&& text_is(es[0].1, "github"@)
            &&& es[1] == (key_of(FieldName::Owner), FieldValue::Text(owner))
            &&& es[2] == (key_of(FieldName::Repo), FieldValue::Text(repo))
            &&& es[3] == (key_of(FieldName::Description), text_value(description))
            &&& attrs_stored_at(es, 4, attrs)
        },
        Source::Gitlab { owner, repo, attrs } => {
            &&& es.len() == 9
            &&& text_is(es[0].1, "gitlab"@)
            &&& es[1] == (key_of(FieldName::Owner), FieldValue::Text(owner))
            &&& es[2] == (key_of(FieldName::Repo), FieldValue::Text(repo))
            &&& attrs_stored_at(es, 3, attrs)
        },
        Source::SourceHut { owner, repo, attrs } => {
            &&& es.len() == 9
            &&& text_is(es[0].1, "sourcehut"@)
            &&& es[1] == (key_of(FieldName::Owner), FieldValue::Text(owner))
            &&& es[2] == (key_of(FieldName::Repo), FieldValue::Text(repo))
            &&& attrs_stored_at(es, 3, attrs)
        },
        Source::Git { url, attrs } => {
            &&& es.len() == 8
            &&& text_is(es[0].1, "git"@)
            &&& es[1] == (key_of(FieldName::Url), FieldValue::Text(url))
            &&& attrs_stored_at(es, 2, attrs)
        },
        Source::Nixpkgs(n) => {
            &&& es.len() == 3
            &&& text_is(es[0].1, "nixpkgs"@)
            &&& es[1] == (key_of(FieldName::Channel), FieldValue::Text(n.channel))
            &&& es[2] == (key_of(FieldName::Commit), FieldValue::Text(n.git_ref))
        },
    }
}

proof fn lemma_count_none(es: Seq<(Seq<char>, FieldValue)>, name: FieldName)
    requires
        forall|j: int| 0 <= j < es.len() ==> !names(#[trigger] es[j].0, name),
    ensures
        count_named(es, name) == 0,
    decreases es.len(),
{
    if es.len() > 0 {
        assert(!names(es[es.len() - 1].0, name));
        lemma_count_none(es.drop_last(), name);
    }
}

proof fn lemma_count_single(es: Seq<(Seq<char>, FieldValue)>, i: int, name: FieldName)
    requires
        0 <= i < es.len(),
        names(es[i].0, name),
        forall|j: int| 0 <= j < es.len() && j != i ==> !names(#[trigger] es[j].0, name),
    ensures
        count_named(es, name) == 1,
    decreases es.len(),
{
    if i == es.len() - 1 {
        lemma_count_none(es.drop_last(), name);
    } else {
        assert(!names(es[es.len() - 1].0, name));
        lemma_count_single(es.drop_last(), i, name);
    }
}

/// Field `name` is given by entry `i` alone.
proof fn lemma_field_at(es: Seq<(Seq<char>, FieldValue)>, i: int, name: FieldName)
    requires
        0 <= i < es.len(),
        names(es[i].0, name),
        forall|j: int| 0 <= j < es.len() && j != i ==> !names(#[trigger] es[j].0, name),
    ensures
        field_value(es, name) == Ok::<Option<FieldValue>, DecodeError>(Some(es[i].1)),
{
    lemma_count_single(es, i, name);
    lemma_lookup_first(es, i, name);
}

proof fn lemma_count_rename(es: Seq<(Seq<char>, FieldValue)>, i: int, key: Seq<char>, name: FieldName)
    requires
        0 <= i < es.len(),
        names(es[i].0, name) == names(key, name),
    ensures
        count_named(es.update(i, (key, es[i].1)), name) == count_named(es, name),
    decreases es.len(),
{
    let es2 = es.update(i, (key, es[i].1));
    if i == es.len() - 1 {
        assert(es2.drop_last() =~= es.drop_last());
    } else {
        assert(es2.drop_last() =~= es.drop_last().update(i, (key, es[i].1)));
        lemma_count_rename(es.drop_last(), i, key, name);
    }
}

proof fn lemma_field_value_rename(es: Seq<(Seq<char>, FieldValue)>, i: int, key: Seq<char>, name: FieldName)
    requires
        0 <= i < es.len(),
        names(es[i].0, name) == names(key, name),
    ensures
        field_value(es.update(i, (key, es[i].1)), name) == field_value(es, name),
{
    lemma_count_rename(es, i, key, name);
    lemma_lookup_rename(es, i, key, name);
}

/// Whether `name` is one of the six locator attributes.
pub open spec fn is_attr(name: FieldName) -> bool {
    ||| name == FieldName::Ref
    ||| name == FieldName::Rev
    ||| name == FieldName::Dir
    ||| name == FieldName::NarHash
    ||| name == FieldName::RevCount
    ||| name == FieldName::LastModified
}

proof fn lemma_attrs_round_trip(es: Seq<(Seq<char>, FieldValue)>, at: int, a: FlakeRefAttrs)
    requires
        0 <= at,
        at + 6 == es.len(),
        attrs_stored_at(es, at, a),
        forall|j: int, name: FieldName| 0 <= j < at && is_attr(name) ==> !#[trigger] names(es[j].0, name),
    ensures
        decode_attrs(es) == Ok::<FlakeRefAttrs, DecodeError>(a),
{
    lemma_keys_distinct();
    assert(is_attr(FieldName::Ref) && is_attr(FieldName::Rev) && is_attr(FieldName::Dir));
    assert(is_attr(FieldName::NarHash) && is_attr(FieldName::RevCount) && is_attr(FieldName::LastModified));
    lemma_field_at(es, at, FieldName::Ref);
    lemma_field_at(es, at + 1, FieldName::Rev);
    lemma_field_at(es, at + 2, FieldName::Dir);
    lemma_field_at(es, at + 3, FieldName::NarHash);
    lemma_field_at(es, at + 4, FieldName::RevCount);
    lemma_field_at(es, at + 5, FieldName::LastModified);
}

/// Storing a source and reading the record back gives the same source, for
/// every kind of source.
pub proof fn lemma_record_round_trip(es: Seq<(Seq<char>, FieldValue)>, s: Source)
    requires
        is_record_of(es, s),
    ensures
        decode_source(es) == Ok::<Source, DecodeError>(s),
{
    lemma_keys_distinct();
    reveal_strlit("github");
    reveal_strlit("gitlab");
    reveal_strlit("sourcehut");
    reveal_strlit("git");
    reveal_strlit("nixpkgs");
    lemma_field_at(es, 0, FieldName::Type);
    let tag = es[0].1->Text_0;
    assert(required_text(es, FieldName::Type) == Ok::<String, DecodeError>(tag));
    match s {
        Source::Github { .. } => {
            lemma_field_at(es, 1, FieldName::Owner);
            lemma_field_at(es, 2, FieldName::Repo);
            lemma_field_at(es, 3, FieldName::Description);
            lemma_attrs_round_trip(es, 4, s->Github_attrs);
        },
        Source::Gitlab { .. } => {
            assert(tag@ != "github"@) by { assert(tag@[3] != "github"@[3]); }
            lemma_field_at(es, 1, FieldName::Owner);
            lemma_field_at(es, 2, FieldName::Repo);
            lemma_attrs_round_trip(es, 3, s->Gitlab_attrs);
        },
        Source::SourceHut { .. } => {
            assert("sourcehut"@.len() == 9 && tag@.len() == 9);
            lemma_field_at(es, 1, FieldName::Owner);
            lemma_field_at(es, 2, FieldName::Repo);
            lemma_attrs_round_trip(es, 3, s->SourceHut_attrs);
        },
        Source::Git { .. } => {
            assert("git"@.len() == 3 && tag@.len() == 3);
            lemma_field_at(es, 1, FieldName::Url);
            lemma_attrs_round_trip(es, 2, s->Git_attrs);
        },
        Source::Nixpkgs(n) => {
            assert(tag@.len() == 7);
            lemma_field_at(es, 1, FieldName::Channel);
            lemma_field_at(es, 2, FieldName::Commit);
        },
    }
}

fn entry(name: FieldName, value: FieldValue) -> (r: Field)
    ensures
        r.key@ == key_of(name),
        r.value == value,
{
    Field { key: String::from_str(key_str(name)), value }
}

fn text_or_null(v: &Option<String>) -> (r: FieldValue)
    ensures
        r == text_value(*v),
{
    match v {
        Some(s) => FieldValue::Text(s.clone()),
        None => FieldValue::Null,
    }
}

fn number_or_null(v: &Option<u64>) -> (r: FieldValue)
    ensures
        r == number_value(*v),
{
    match v {
        Some(n) => FieldValue::Unsigned(*n),
        None => FieldValue::Null,
    }
}

fn tag_entry(tag: &str) -> (r: Field)
    ensures
        r.key@ == key_of(FieldName::Type),
        text_is(r.value, tag@),
{
    entry(FieldName::Type, FieldValue::Text(String::from_str(tag)))
}

fn push_attrs(fields: &mut Vec<Field>, a: &FlakeRefAttrs)
    ensures
        final(fields)@.len() == old(fields)@.len() + 6,
        forall|k: int| 0 <= k < old(fields)@.len() ==> final(fields)@[k] == old(fields)@[k],
        attrs_stored_at(entries(final(fields)@), old(fields)@.len() as int, *a),
{
    fields.push(entry(FieldName::Ref, text_or_null(&a.git_ref)));
    fields.push(entry(FieldName::Rev, text_or_null(&a.rev)));
    fields.push(entry(FieldName::Dir, text_or_null(&a.dir)));
    fields.push(entry(FieldName::NarHash, text_or_null(&a.nar_hash)));
    fields.push(entry(FieldName::RevCount, number_or_null(&a.rev_count)));
    fields.push(entry(FieldName::LastModified, number_or_null(&a.last_modified)));
}

impl Source {
    /// The stored record of this source: the `type` tag, then the kind's own
    /// fields, then for a repository its six attributes, each absent one
    /// written as null.
    pub fn to_record(&self) -> (r: Vec<Field>)
        ensures
            is_record_of(entries(r@), *self),
    {
        let mut fields: Vec<Field> = Vec::new();
        match self {
            Source::Github { owner, repo, description, attrs } => {
                fields.push(tag_entry("github"));
                fields.push(entry(FieldName::Owner, FieldValue::Text(owner.clone())));
                fields.push(entry(FieldName::Repo, FieldValue::Text(repo.clone())));
                fields.push(entry(FieldName::Description, text_or_null(description)));
                push_attrs(&mut fields, attrs);
            },
            Source::Gitlab { owner, repo, attrs } => {
                fields.push(tag_entry("gitlab"));
                fields.push(entry(FieldName::Owner, FieldValue::Text(owner.clone())));
                fields.push(entry(FieldName::Repo, FieldValue::Text(repo.clone())));
                push_attrs(&mut fields, attrs);
            },
            Source::SourceHut { owner, repo, attrs } => {
                fields.push(tag_entry("sourcehut"));
                fields.push(entry(FieldName::Owner, FieldValue::Text(owner.clone())));
                fields.push(entry(FieldName::Repo, FieldValue::Text(repo.clone())));
                push_attrs(&mut fields, attrs);
            },
            Source::Git { url, attrs } => {
                fields.push(tag_entry("git"));
                fields.push(entry(FieldName::Url, FieldValue::Text(url.clone())));
                push_attrs(&mut fields, attrs);
            },
            Source::Nixpkgs(n) => {
                fields.push(tag_entry("nixpkgs"));
                fields.push(entry(FieldName::Channel, FieldValue::Text(n.channel.clone())));
                fields.push(entry(FieldName::Commit, FieldValue::Text(n.git_ref.clone())));
            },
        }
        assert(forall|k: int| 0 <= k < fields@.len() ==> entries(fields@)[k] == (fields@[k].key@, fields@[k].value));
        fields
    }
}

proof fn lemma_lookup_rename(es: Seq<(Seq<char>, FieldValue)>, i: int, key: Seq<char>, name: FieldName)
    requires
        0 <= i < es.len(),
        names(es[i].0, name) == names(key, name),
    ensures
        lookup(es.update(i, (key, es[i].1)), name) == lookup(es, name),
    decreases es.len(),
{
    let es2 = es.update(i, (key, es[i].1));
    if i > 0 {
        assert(es2.drop_first() =~= es.drop_first().update(i - 1, (key, es[i].1)));
        lemma_lookup_rename(es.drop_first(), i - 1, key, name);
    } else {
        assert(es2.drop_first() =~= es.drop_first());
    }
}

/// Whether an entry written under one of `a`, `b` is read as the same field
/// as one written under the other, for every field but a nixpkgs commit.
pub open spec fn same_field_apart_from_commit(a: Seq<char>, b: Seq<char>) -> bool {
    forall|name: FieldName| name != FieldName::Commit ==> (#[trigger] names(a, name) == names(b, name))
}

/// The two spellings of an aliased attribute are one field: writing
/// `git_ref` in place of `ref`, or `hash` in place of `rev`, in a record of a
/// repository gives the same source, or the same error.
pub proof fn lemma_alias_keys(es: Seq<(Seq<char>, FieldValue)>, i: int, key: Seq<char>)
    requires
        0 <= i < es.len(),
        (es[i].0 == "ref"@ && key == "git_ref"@) || (es[i].0 == "git_ref"@ && key == "ref"@)
            || (es[i].0 == "rev"@ && key == "hash"@) || (es[i].0 == "hash"@ && key == "rev"@),
        !(lookup(es, FieldName::Type) matches Some(FieldValue::Text(t)) && t@ == "nixpkgs"@),
    ensures
        decode_source(es.update(i, (key, es[i].1))) == decode_source(es),
        decode_attrs(es.update(i, (key, es[i].1))) == decode_attrs(es),
{
    lemma_keys_distinct();
    let es2 = es.update(i, (key, es[i].1));
    assert(key_of(FieldName::Ref) == "ref"@ && alias_of(FieldName::Ref) == "git_ref"@);
    assert(key_of(FieldName::Rev) == "rev"@ && alias_of(FieldName::Rev) == "hash"@);
    assert(same_field_apart_from_commit(es[i].0, key)) by {
        assert forall|name: FieldName| name != FieldName::Commit implies (#[trigger] names(es[i].0, name) == names(key, name)) by {
            if es[i].0 == "ref"@ || es[i].0 == "git_ref"@ {
                assert(names(key_of(FieldName::Ref), name) == (name == FieldName::Ref));
                assert(names(alias_of(FieldName::Ref), name) == (name == FieldName::Ref));
            } else {
                assert(names(key_of(FieldName::Rev), name) == (name == FieldName::Rev));
                assert(names(alias_of(FieldName::Rev), name) == (name == FieldName::Rev));
            }
        }
    }
    lemma_field_value_rename(es, i, key, FieldName::Type);
    lemma_field_value_rename(es, i, key, FieldName::Owner);
    lemma_field_value_rename(es, i, key, FieldName::Repo);
    lemma_field_value_rename(es, i, key, FieldName::Description);
    lemma_field_value_rename(es, i, key, FieldName::Url);
    lemma_field_value_rename(es, i, key, FieldName::Channel);
    lemma_field_value_rename(es, i, key, FieldName::Ref);
    lemma_field_value_rename(es, i, key, FieldName::Rev);
    lemma_field_value_rename(es, i, key, FieldName::Dir);
    lemma_field_value_rename(es, i, key, FieldName::NarHash);
    lemma_field_value_rename(es, i, key, FieldName::RevCount);
    lemma_field_value_rename(es, i, key, FieldName::LastModified);
    assert(decode_attrs(es2) == decode_attrs(es));
    assert(decode_hosted(es2, HostKind::Github) == decode_hosted(es, HostKind::Github));
    assert(decode_hosted(es2, HostKind::Gitlab) == decode_hosted(es, HostKind::Gitlab));
    assert(decode_hosted(es2, HostKind::SourceHut) == decode_hosted(es, HostKind::SourceHut));
}

/// A list of stored records reads back as the list of sources they store,
/// in order.
pub proof fn lemma_records_round_trip(recs: Seq<Seq<(Seq<char>, FieldValue)>>, sources: Seq<Source>)
    requires
        recs.len() == sources.len(),
        forall|k: int| 0 <= k < recs.len() ==> is_record_of(#[trigger] recs[k], sources[k]),
    ensures
        decode_all(recs) == Ok::<Seq<Source>, DecodeError>(sources),
    decreases recs.len(),
{
    if recs.len() > 0 {
        let last = recs.len() - 1;
        assert(is_record_of(recs[last], sources[last]));
        lemma_records_round_trip(recs.drop_last(), sources.drop_last());
        lemma_record_round_trip(recs.last(), sources.last());
        assert(sources.drop_last().push(sources.last()) =~= sources);
    } else {
        assert(sources =~= Seq::<Source>::empty());
    }
}

/// Writing `git_ref` in place of `ref`, or `hash` in place of `rev`, in one
/// repository record of a list leaves what the list reads as unchanged.
pub proof fn lemma_alias_keys_in_list(recs: Seq<Seq<(Seq<char>, FieldValue)>>, r: int, i: int, key: Seq<char>)
    requires
        0 <= r < recs.len(),
        0 <= i < recs[r].len(),
        (recs[r][i].0 == "ref"@ && key == "git_ref"@) || (recs[r][i].0 == "git_ref"@ && key == "ref"@)
            || (recs[r][i].0 == "rev"@ && key == "hash"@) || (recs[r][i].0 == "hash"@ && key == "rev"@),
        !(lookup(recs[r], FieldName::Type) matches Some(FieldValue::Text(t)) && t@ == "nixpkgs"@),
    ensures
        decode_all(recs.update(r, recs[r].update(i, (key, recs[r][i].1)))) == decode_all(recs),
    decreases recs.len(),
{
    let rec2 = recs[r].update(i, (key, recs[r][i].1));
    let recs2 = recs.update(r, rec2);
    lemma_alias_keys(recs[r], i, key);
    if r == recs.len() - 1 {
        assert(recs2.drop_last() =~= recs.drop_last());
    } else {
        assert(recs2.drop_last() =~= recs.drop_last().update(r, rec2));
        lemma_alias_keys_in_list(recs.drop_last(), r, i, key);
    }
}

} // verus!
