//! Core data model: add-on references, lock records, providers, errors.

use vstd::prelude::*;

verus! {

/// A package to resolve: a provider tag and the catalog display name.
#[derive(Debug, Clone)]
pub struct Addon {
    pub provider: String,
    pub name: String,
}

/// The canonical resolved record for one add-on.
///
/// `name` is always `<provider>/<addon-name>`; `resolved` is the
/// provider-internal identity used for later lookups; `version` is a
/// human-readable label, not comparable across providers; `timestamp`
/// (epoch seconds of the resolved release) is the only field used for
/// update comparisons.
#[derive(Debug, Clone, PartialEq, Eq)]
pub struct AddonLock {
    pub name: String,
    pub resolved: String,
    pub version: String,
    pub timestamp: u64,
}

/// Why a resolution, update check or artifact selection failed.
#[derive(Clone, Copy, Debug, PartialEq, Eq, Structural)]
pub enum LockError {
    /// A page that the step needs was not supplied or not retrievable.
    FetchError,
    /// An expected structural element was absent from the page.
    LayoutError,
    /// The provider tag is not one of the known set (soft: the add-on is
    /// unserved, not a fatal condition).
    UnknownProvider,
    /// The candidate filename lacks the packaging extension (soft: skip).
    UnsupportedArtifact,
    /// A timestamp, date or number on the page did not parse.
    ParseError,
}

/// The closed set of provider families, plus the boundary case.
#[derive(Clone, Copy, Debug, PartialEq, Eq, Structural)]
pub enum ProviderKind {
    Curse,
    Ace,
    Tukui,
    Unknown,
}

/// Which provider family a tag names; every unrecognized tag is `Unknown`.
pub open spec fn provider_kind_spec(tag: Seq<char>) -> ProviderKind {
    if tag == "curse"@ {
        ProviderKind::Curse
    } else if tag == "ace"@ {
        ProviderKind::Ace
    } else if tag == "tukui"@ {
        ProviderKind::Tukui
    } else {
        ProviderKind::Unknown
    }
}

/// Classifies a provider tag into the closed provider set.
pub fn provider_kind(tag: &str) -> (k: ProviderKind)
    ensures
        k == provider_kind_spec(tag@),
{
    if crate::strutil::str_eq(tag, "curse") {
        ProviderKind::Curse
    } else if crate::strutil::str_eq(tag, "ace") {
        ProviderKind::Ace
    } else if crate::strutil::str_eq(tag, "tukui") {
        ProviderKind::Tukui
    } else {
        ProviderKind::Unknown
    }
}

} // verus!
