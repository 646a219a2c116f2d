use extension_version_watcher::manifest::resolve_manifest;
use extension_version_watcher::resolve::ResolveError;

const ID: &str = "jfbecfmiegcjddenjhlbhlikcbfmnafd";

#[test]
fn resolves_version_and_codebase_from_manifest() {
    let doc = format!(
        r#"<?xml version="1.0" encoding="UTF-8"?>
<gupdate xmlns="http://www.google.com/update2/response" protocol="2.0">
  <app appid="{ID}">
    <updatecheck codebase="https://example.com/pkg-1.2.3.crx" version="1.2.3"/>
  </app>
</gupdate>"#
    );
    let r = resolve_manifest(doc.as_bytes(), &ID.to_string()).unwrap();
    assert_eq!(r.version, "1.2.3");
    assert_eq!(r.artifact_url, "https://example.com/pkg-1.2.3.crx");
}

#[test]
fn first_app_with_shared_appid_wins() {
    let doc = format!(
        r#"<gupdate>
  <app appid="{ID}">
    <updatecheck codebase="https://example.com/first.crx" version="1.0"/>
  </app>
  <app appid="{ID}">
    <updatecheck codebase="https://example.com/second.crx" version="2.0"/>
  </app>
</gupdate>"#
    );
    let r = resolve_manifest(doc.as_bytes(), &ID.to_string()).unwrap();
    assert_eq!(r.version, "1.0");
    assert_eq!(r.artifact_url, "https://example.com/first.crx");
}

#[test]
fn second_updatecheck_in_same_app_wins() {
    let doc = format!(
        r#"<gupdate>
  <app appid="{ID}">
    <updatecheck codebase="https://example.com/old.crx" version="1.0"/>
    <updatecheck codebase="https://example.com/new.crx" version="2.0"/>
  </app>
</gupdate>"#
    );
    let r = resolve_manifest(doc.as_bytes(), &ID.to_string()).unwrap();
    assert_eq!(r.version, "2.0");
    assert_eq!(r.artifact_url, "https://example.com/new.crx");
}

#[test]
fn later_updatecheck_overwrites_only_present_attributes() {
    let doc = format!(
        r#"<gupdate>
  <app appid="{ID}">
    <updatecheck codebase="https://example.com/kept.crx" version="1.0"/>
    <updatecheck version="2.0"/>
  </app>
</gupdate>"#
    );
    let r = resolve_manifest(doc.as_bytes(), &ID.to_string()).unwrap();
    assert_eq!(r.version, "2.0");
    assert_eq!(r.artifact_url, "https://example.com/kept.crx");
}

#[test]
fn updatecheck_after_a_second_app_is_ignored() {
    let doc = format!(
        r#"<gupdate>
  <app appid="{ID}">
    <updatecheck codebase="https://example.com/first.crx" version="1.0"/>
  </app>
  <app appid="aaaabbbbccccddddeeeeffffgggghhhh">
    <updatecheck codebase="https://example.com/other.crx" version="9.9"/>
  </app>
</gupdate>"#
    );
    let r = resolve_manifest(doc.as_bytes(), &ID.to_string()).unwrap();
    assert_eq!(r.version, "1.0");
    assert_eq!(r.artifact_url, "https://example.com/first.crx");
}

#[test]
fn missing_version_is_reported() {
    let doc = format!(
        r#"<gupdate>
  <app appid="{ID}">
    <updatecheck codebase="https://example.com/pkg.crx"/>
  </app>
</gupdate>"#
    );
    let r = resolve_manifest(doc.as_bytes(), &ID.to_string());
    assert!(matches!(r, Err(ResolveError::MissingVersion)));
}

#[test]
fn missing_codebase_is_reported_when_version_was_captured() {
    let doc = format!(
        r#"<gupdate>
  <app appid="{ID}">
    <updatecheck version="1.0"/>
  </app>
</gupdate>"#
    );
    let r = resolve_manifest(doc.as_bytes(), &ID.to_string());
    assert!(matches!(r, Err(ResolveError::MissingCodebase)));
}

#[test]
fn unmatched_appid_yields_missing_version() {
    let doc = r#"<gupdate>
  <app appid="aaaabbbbccccddddeeeeffffgggghhhh">
    <updatecheck codebase="https://example.com/pkg.crx" version="1.0"/>
  </app>
</gupdate>"#;
    let r = resolve_manifest(doc.as_bytes(), &ID.to_string());
    assert!(matches!(r, Err(ResolveError::MissingVersion)));
}

#[test]
fn malformed_document_is_a_parse_error() {
    let doc = b"<gupdate><app appid=";
    let r = resolve_manifest(doc, &ID.to_string());
    assert!(matches!(r, Err(ResolveError::Parse)));
}

#[test]
fn updatecheck_outside_any_app_before_match_is_ignored() {
    let doc = format!(
        r#"<gupdate>
  <updatecheck codebase="https://example.com/stray.crx" version="0.1"/>
  <app appid="{ID}">
    <updatecheck codebase="https://example.com/real.crx" version="1.0"/>
  </app>
</gupdate>"#
    );
    let r = resolve_manifest(doc.as_bytes(), &ID.to_string()).unwrap();
    assert_eq!(r.version, "1.0");
    assert_eq!(r.artifact_url, "https://example.com/real.crx");
}
