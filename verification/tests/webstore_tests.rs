use extension_version_watcher::ledger::VersionLedger;
use extension_version_watcher::pipeline::{plan_update, UpdatePlan};
use extension_version_watcher::resolve::ResolveError;
use extension_version_watcher::webstore::{
    resolve_webstore, webstore_artifact_url, webstore_endpoint_url,
};

const ID: &str = "iheobagjkfklnlikgihanlhcddjoihkg";

fn framed(json: &[u8]) -> Vec<u8> {
    let mut body = b")]}'\n".to_vec();
    body.extend_from_slice(json);
    body
}

#[test]
fn resolves_version_at_fixed_nested_path() {
    let body = framed(br#"[0,[0,[0,0,0,0,0,0,"3.2.1"]]]"#);
    let r = resolve_webstore(&body, &ID.to_string()).unwrap();
    assert_eq!(r.version, "3.2.1");
    assert_eq!(r.artifact_url, webstore_artifact_url(&ID.to_string()));
}

#[test]
fn fresh_package_proceeds_to_fetch_without_diff() {
    let body = framed(br#"[0,[0,[0,0,0,0,0,0,"3.2.1"]]]"#);
    let resolved = resolve_webstore(&body, &ID.to_string()).unwrap();
    assert_eq!(resolved.version, "3.2.1");

    let mut ledger = VersionLedger::new();
    let prev = ledger.reconcile(&"chromebooks".to_string(), &resolved.version);
    assert_eq!(prev, "None");

    let plan = plan_update(&prev, &resolved.version, &None, true);
    assert_eq!(plan, UpdatePlan::Fetch { format: true, diff: false });
}

#[test]
fn path_not_ending_at_string_is_unexpected_payload() {
    let body = framed(br#"[0,[0,0,0,0,0,0,"3.2.1"]]"#);
    let r = resolve_webstore(&body, &ID.to_string());
    assert!(matches!(r, Err(ResolveError::UnexpectedPayload)));
}

#[test]
fn non_json_payload_is_unexpected_payload() {
    let body = framed(b"this is not json");
    let r = resolve_webstore(&body, &ID.to_string());
    assert!(matches!(r, Err(ResolveError::UnexpectedPayload)));
}

#[test]
fn body_shorter_than_framing_is_unexpected_payload() {
    let r = resolve_webstore(b")]}", &ID.to_string());
    assert!(matches!(r, Err(ResolveError::UnexpectedPayload)));
}

#[test]
fn framing_is_stripped_before_parsing() {
    // Without the framing bytes the body is valid JSON; the resolver must
    // still strip five bytes first, which makes this body unreadable.
    let body = br#"[0,[0,[0,0,0,0,0,0,"3.2.1"]]]"#;
    let r = resolve_webstore(body, &ID.to_string());
    assert!(matches!(r, Err(ResolveError::UnexpectedPayload)));
}

#[test]
fn endpoint_and_artifact_urls_embed_the_package_id() {
    assert_eq!(
        webstore_endpoint_url(&ID.to_string()),
        format!("https://chrome.google.com/webstore/ajax/detail?id={ID}&hl=en&pv=20210820")
    );
    assert_eq!(
        webstore_artifact_url(&ID.to_string()),
        format!(
            "https://clients2.google.com/service/update2/crx?response=redirect&acceptformat=crx2,crx3&prodversion=110.0&x=id%3D{ID}%26installsource%3Dondemand%26uc"
        )
    );
}
