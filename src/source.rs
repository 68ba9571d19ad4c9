use vstd::prelude::*;
use vstd::string::*;

use crate::attrs::{append_query, FlakeRefAttrs};

verus! {

/// The locator string handed to a fetcher.
pub type FlakeRef = String;

/// A snapshot of a nixpkgs channel, pinned to a commit.
#[derive(Debug, Clone, PartialEq)]
pub struct Nixpkgs {
    pub channel: String,
    pub git_ref: String,
}

/// Where a flake comes from: (local/raw) Git, GitHub, SourceHut and GitLab
/// repositories, or a pinned nixpkgs snapshot.
#[derive(Debug, Clone, PartialEq)]
pub enum Source {
    Github { owner: String, repo: String, description: Option<String>, attrs: FlakeRefAttrs },
    Gitlab { owner: String, repo: String, attrs: FlakeRefAttrs },
    SourceHut { owner: String, repo: String, attrs: FlakeRefAttrs },
    Git { url: String, attrs: FlakeRefAttrs },
    Nixpkgs(Nixpkgs),
}

/// `{prefix}{owner}/{repo}`.
pub open spec fn hosted(prefix: Seq<char>, owner: Seq<char>, repo: Seq<char>) -> Seq<char> {
    prefix + owner + seq!['/'] + repo
}

/// The address of the tarball of nixpkgs at commit `git_ref`.
pub open spec fn tarball_url(git_ref: Seq<char>) -> Seq<char> {
    "https://api.github.com/repos/NixOS/nixpkgs/tarball/"@ + git_ref
}

/// `{prefix}{owner}/{repo}` as a string.
fn hosted_base(prefix: &str, owner: &String, repo: &String) -> (r: String)
    ensures
        r@ == hosted(prefix@, owner@, repo@),
{
    proof { reveal_strlit("/"); }
    let mut r = String::from_str(prefix);
    r.append(owner.as_str());
    r.append("/");
    r.append(repo.as_str());
    assert(r@ =~= hosted(prefix@, owner@, repo@));
    r
}

impl Source {
    /// The locator of this source.
    pub open spec fn flake_ref(&self) -> Seq<char> {
        match self {
            Source::Github { owner, repo, attrs, .. } =>
                append_query(hosted("github:"@, owner@, repo@), attrs.pairs()),
            Source::Gitlab { owner, repo, attrs } =>
                append_query(hosted("gitlab:"@, owner@, repo@), attrs.pairs()),
            Source::SourceHut { owner, repo, attrs } =>
                append_query(hosted("sourcehut:"@, owner@, repo@), attrs.pairs()),
            Source::Git { url, attrs } => append_query(url@, attrs.pairs()),
            Source::Nixpkgs(n) => tarball_url(n.git_ref@),
        }
    }

    /// The locator of this source: `github:`, `gitlab:` or `sourcehut:`
    /// followed by `owner/repo`, or the Git URL itself, with the attributes
    /// appended as a query; for nixpkgs, the tarball address of the pinned
    /// commit.
    pub fn to_flake_ref(&self) -> (r: FlakeRef)
        ensures
            r@ == self.flake_ref(),
    {
        match self {
            Source::Github { owner, repo, attrs, .. } => {
                let base = hosted_base("github:", owner, repo);
                attrs.append_to(base.as_str())
            },
            Source::Gitlab { owner, repo, attrs } => {
                let base = hosted_base("gitlab:", owner, repo);
                attrs.append_to(base.as_str())
            },
            Source::SourceHut { owner, repo, attrs } => {
                let base = hosted_base("sourcehut:", owner, repo);
                attrs.append_to(base.as_str())
            },
            Source::Git { url, attrs } => attrs.append_to(url.as_str()),
            Source::Nixpkgs(n) => {
                let mut r = String::from_str("https://api.github.com/repos/NixOS/nixpkgs/tarball/");
                r.append(n.git_ref.as_str());
                r
            },
        }
    }
}

} // verus!
