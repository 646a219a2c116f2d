//! What version resolution produces, and how it can fail.
//!
//! A package's current version and artifact location come from one of two
//! mutually exclusive sources, selected by whether the package has an update
//! manifest URL: the XML manifest strategy ([`crate::manifest`]) or the
//! vendor web-store strategy ([`crate::webstore`]).

use vstd::prelude::*;
use crate::config::Extension;

verus! {

/// The currently published state of one package: its version string (compared
/// by exact string equality, never parsed) and the absolute download URL of
/// the release artifact.
pub struct ResolvedVersion {
    pub version: String,
    pub artifact_url: String,
}

/// Why resolution failed.
#[derive(Debug)]
pub enum ResolveError {
    /// The metadata endpoint could not be fetched.
    Fetch,
    /// The manifest document is not well-formed XML.
    Parse,
    /// No version attribute was ever captured from the manifest.
    MissingVersion,
    /// A version was captured, but no codebase attribute ever was.
    MissingCodebase,
    /// The web-store payload's version path does not hold a string.
    UnexpectedPayload,
}

/// Which resolution strategy a package uses: the manifest strategy exactly
/// when an update-manifest URL is configured, the web-store strategy
/// otherwise.
pub fn uses_manifest_strategy(extension: &Extension) -> (b: bool)
    ensures
        b == (extension.url is Some),
{
    extension.url.is_some()
}

} // verus!
