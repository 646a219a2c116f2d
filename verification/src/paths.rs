//! Filesystem names keyed by package name and version.
//!
//! A release artifact is downloaded to a file keyed by `(name, version)`
//! under the working area, unpacked into a directory keyed by the same pair,
//! and two unpacked trees (prior and current version) are diffed by those
//! directory names. The package's `name` is the stable, filesystem-safe
//! token; these functions pin the exact names, so the same package and
//! version always land in the same place across runs.

use vstd::prelude::*;
use vstd::string::StringExecFns;

verus! {

/// The versioned token `name-version` every per-release path is built from.
pub open spec fn spec_release_token(name: Seq<char>, version: Seq<char>) -> Seq<char> {
    name + "-"@ + version
}

/// Where a release's downloaded artifact is written, under the working
/// directory.
pub open spec fn spec_artifact_file_path(name: Seq<char>, version: Seq<char>) -> Seq<char> {
    "./crx/"@ + spec_release_token(name, version) + ".crx"@
}

/// Where a release is unpacked, under the working directory.
pub open spec fn spec_release_dir_path(name: Seq<char>, version: Seq<char>) -> Seq<char> {
    "./crx/"@ + spec_release_token(name, version)
}

/// The artifact's path as seen from inside the unpack directory, handed to
/// the extraction tool running there.
pub open spec fn spec_artifact_relative_path(name: Seq<char>, version: Seq<char>) -> Seq<char> {
    "../"@ + spec_release_token(name, version) + ".crx"@
}

/// A release directory's name as seen from the working area's root, handed
/// to the diff tool running there.
pub open spec fn spec_release_dir_arg(name: Seq<char>, version: Seq<char>) -> Seq<char> {
    "./"@ + spec_release_token(name, version)
}

/// The file the downloaded artifact of `(name, version)` is written to.
pub fn artifact_file_path(name: &String, version: &String) -> (p: String)
    ensures
        p@ == spec_artifact_file_path(name@, version@),
{
    let mut p = String::from_str("./crx/");
    p.append(name.as_str());
    p.append("-");
    p.append(version.as_str());
    p.append(".crx");
    p
}

/// The directory the artifact of `(name, version)` is unpacked into.
pub fn release_dir_path(name: &String, version: &String) -> (p: String)
    ensures
        p@ == spec_release_dir_path(name@, version@),
{
    let mut p = String::from_str("./crx/");
    p.append(name.as_str());
    p.append("-");
    p.append(version.as_str());
    p
}

/// The artifact's path relative to its unpack directory.
pub fn artifact_relative_path(name: &String, version: &String) -> (p: String)
    ensures
        p@ == spec_artifact_relative_path(name@, version@),
{
    let mut p = String::from_str("../");
    p.append(name.as_str());
    p.append("-");
    p.append(version.as_str());
    p.append(".crx");
    p
}

/// A release directory's name relative to the working area's root.
pub fn release_dir_arg(name: &String, version: &String) -> (p: String)
    ensures
        p@ == spec_release_dir_arg(name@, version@),
{
    let mut p = String::from_str("./");
    p.append(name.as_str());
    p.append("-");
    p.append(version.as_str());
    p
}

} // verus!
