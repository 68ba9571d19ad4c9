use vstd::prelude::*;

verus! {

/// How a file of sources is written.
#[derive(Debug, Clone, Copy, PartialEq, Eq, Structural)]
pub enum SourcesFormat {
    /// A TOML document whose `sources` field lists the sources.
    Toml,
    /// A bare JSON array of sources.
    Json,
}

impl SourcesFormat {
    /// The format of a file, chosen by its extension alone: TOML for
    /// exactly `toml`, JSON for any other extension and for none.
    pub fn for_extension(extension: Option<&str>) -> (r: SourcesFormat)
        ensures
            r == (if extension matches Some(e) && e@ == "toml"@ {
                SourcesFormat::Toml
            } else {
                SourcesFormat::Json
            }),
    {
        match extension {
            Some(e) => if crate::record::same_text(e, "toml") {
                SourcesFormat::Toml
            } else {
                SourcesFormat::Json
            },
            None => SourcesFormat::Json,
        }
    }

    /// The top-level field that holds the list, where the list is wrapped.
    pub fn wrapper_field(&self) -> (r: Option<&'static str>)
        ensures
            *self == SourcesFormat::Toml ==> (r matches Some(k) && k@ == "sources"@),
            *self == SourcesFormat::Json ==> r is None,
    {
        match self {
            SourcesFormat::Toml => Some("sources"),
            SourcesFormat::Json => None,
        }
    }
}

} // verus!
