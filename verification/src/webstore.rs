//! Version resolution from the vendor web-store endpoint.
//!
//! When a package has no update-manifest URL, its version is looked up by an
//! HTTP POST (with an explicit zero content length) to a fixed vendor
//! endpoint parameterized by the package's ID. The response body is a JSON
//! array structure prefixed by exactly five bytes of opaque framing that must
//! be stripped before parsing; the version is the string at the fixed nested
//! path of indices 1, 1, 6. The artifact URL is not in the payload: it is
//! synthesized from a fixed template around the package's ID.

use vstd::prelude::*;
use vstd::slice::slice_subrange;
use vstd::string::StringExecFns;
use crate::resolve::{ResolveError, ResolvedVersion};

verus! {

/// How many bytes of opaque framing precede the web-store response's JSON.
pub const FRAMING_LEN: usize = 5;

/// The string at indices `i`, `j`, `k` of successive JSON arrays in the JSON
/// document `doc`, or nothing if `doc` is not JSON or the path does not end
/// at a string.
pub uninterp spec fn json_nested_str_of(doc: Seq<u8>, i: int, j: int, k: int) -> Option<Seq<char>>;

/// Relies on `serde_json::from_slice`, `serde_json::Value`'s indexing (a
/// non-array value or an out-of-range index yields the null value) and
/// `serde_json::Value::as_str` (a string only for a JSON string value). The
/// outcome is a function of the document bytes and the indices alone.
#[verifier::external_body]
fn json_nested_str(doc: &[u8], i: usize, j: usize, k: usize) -> (r: Option<String>)
    ensures
        r.deep_view() == json_nested_str_of(doc@, i as int, j as int, k as int),
{
    let value: serde_json::Value = match serde_json::from_slice(doc) {
        Ok(value) => value,
        Err(_) => return None,
    };
    value[i][j][k].as_str().map(|s| s.to_string())
}

/// The version string carried by a web-store response body: the string at
/// path 1, 1, 6 of the JSON after the framing bytes, or nothing if the body
/// is too short, not JSON, or the path does not end at a string.
pub open spec fn webstore_version_of(body: Seq<u8>) -> Option<Seq<char>> {
    if body.len() < FRAMING_LEN {
        None
    } else {
        json_nested_str_of(body.skip(FRAMING_LEN as int), 1, 1, 6)
    }
}

/// The fixed vendor endpoint queried for a package's ID.
pub open spec fn spec_webstore_endpoint_url(id: Seq<char>) -> Seq<char> {
    "https://chrome.google.com/webstore/ajax/detail?id="@ + id + "&hl=en&pv=20210820"@
}

/// The URL of the web-store lookup endpoint for one package.
pub fn webstore_endpoint_url(package_id: &String) -> (u: String)
    ensures
        u@ == spec_webstore_endpoint_url(package_id@),
{
    let mut u = String::from_str("https://chrome.google.com/webstore/ajax/detail?id=");
    u.append(package_id.as_str());
    u.append("&hl=en&pv=20210820");
    u
}

/// The fixed template the artifact URL is synthesized from, around the
/// package's ID.
pub open spec fn spec_webstore_artifact_url(id: Seq<char>) -> Seq<char> {
    "https://clients2.google.com/service/update2/crx?response=redirect&acceptformat=crx2,crx3&prodversion=110.0&x=id%3D"@
        + id + "%26installsource%3Dondemand%26uc"@
}

/// The artifact download URL synthesized for one package.
pub fn webstore_artifact_url(package_id: &String) -> (u: String)
    ensures
        u@ == spec_webstore_artifact_url(package_id@),
{
    let mut u = String::from_str(
        "https://clients2.google.com/service/update2/crx?response=redirect&acceptformat=crx2,crx3&prodversion=110.0&x=id%3D",
    );
    u.append(package_id.as_str());
    u.append("%26installsource%3Dondemand%26uc");
    u
}

/// Resolves a package from a web-store response body: succeeds with the
/// version at the fixed path and the synthesized artifact URL exactly when
/// the body carries a version string, and fails with `UnexpectedPayload`
/// otherwise.
pub fn resolve_webstore(body: &[u8], package_id: &String) -> (r: Result<
    ResolvedVersion,
    ResolveError,
>)
    ensures
        match webstore_version_of(body@) {
            Some(v) => r matches Ok(rv) && rv.version@ == v && rv.artifact_url@
                == spec_webstore_artifact_url(package_id@),
            None => r matches Err(e) && e is UnexpectedPayload,
        },
{
    if body.len() < FRAMING_LEN {
        return Err(ResolveError::UnexpectedPayload);
    }
    let payload = slice_subrange(body, FRAMING_LEN, body.len());
    proof {
        assert(payload@ =~= body@.skip(FRAMING_LEN as int));
    }
    match json_nested_str(payload, 1, 1, 6) {
        Some(version) => Ok(
            ResolvedVersion { version, artifact_url: webstore_artifact_url(package_id) },
        ),
        None => Err(ResolveError::UnexpectedPayload),
    }
}

} // verus!
