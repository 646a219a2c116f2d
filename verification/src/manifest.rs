//! Version resolution from an XML update manifest.
//!
//! The manifest document lists `app` elements carrying an `appid` attribute,
//! with nested `updatecheck` elements carrying `version` and `codebase`
//! attributes. The document is read as its stream of start-element events:
//! the scan enters "inside the matching app" at the first `app` element whose
//! `appid` equals the package's ID, and that happens only once — a later
//! `app` element ends the capture for good, so when a feed lists the same ID
//! twice only the first occurrence's data is used
//! ([`lemma_duplicate_app_ignored`]). While inside, every `updatecheck`
//! element is read: each of its `version` and `codebase` attributes, where
//! present, overwrites what an earlier `updatecheck` captured
//! ([`lemma_later_updatecheck_wins`]).

use vstd::prelude::*;
use vstd::string::StringExecFns;
use crate::resolve::{ResolveError, ResolvedVersion};

verus! {

/// One attribute of a start-element event.
pub struct Attr {
    pub name: String,
    pub value: String,
}

/// An attribute's mathematical value: its name and value character sequences.
pub type AttrV = (Seq<char>, Seq<char>);

impl View for Attr {
    type V = AttrV;

    open spec fn view(&self) -> AttrV {
        (self.name@, self.value@)
    }
}

impl DeepView for Attr {
    type V = AttrV;

    open spec fn deep_view(&self) -> AttrV {
        self@
    }
}

/// One start-element event: the element's local name and its attributes, in
/// document order.
pub struct StartTag {
    pub name: String,
    pub attrs: Vec<Attr>,
}

/// A start tag's mathematical value: its name and its attributes' values.
pub type StartTagV = (Seq<char>, Seq<AttrV>);

impl View for StartTag {
    type V = StartTagV;

    open spec fn view(&self) -> StartTagV {
        (self.name@, self.attrs.deep_view())
    }
}

impl DeepView for StartTag {
    type V = StartTagV;

    open spec fn deep_view(&self) -> StartTagV {
        self@
    }
}

/// The start-element events of the XML document `doc`, in document order,
/// or nothing if the document is malformed.
pub uninterp spec fn xml_start_tags_of(doc: Seq<u8>) -> Option<Seq<StartTagV>>;

/// Relies on `xml::EventReader`: iterating it yields the document's parse
/// events in document order; each `StartElement` event carries the element's
/// local name and its attributes' local names and values; a malformed
/// document yields an error event. The events are a function of the document
/// bytes alone.
#[verifier::external_body]
fn read_start_tags(doc: &[u8]) -> (r: Option<Vec<StartTag>>)
    ensures
        r.deep_view() == xml_start_tags_of(doc@),
{
    let mut tags = Vec::new();
    for event in xml::EventReader::new(doc) {
        match event {
            Err(_) => return None,
            Ok(xml::reader::XmlEvent::StartElement { name, attributes, .. }) => {
                let attrs = attributes
                    .into_iter()
                    .map(|a| Attr { name: a.name.local_name, value: a.value })
                    .collect();
                tags.push(StartTag { name: name.local_name, attrs });
            },
            Ok(_) => {},
        }
    }
    Some(tags)
}

/// The value of the first attribute named `key`, as the scan reads one
/// element's attribute list.
pub open spec fn attr_first(attrs: Seq<AttrV>, key: Seq<char>) -> Option<Seq<char>>
    decreases attrs.len(),
{
    if attrs.len() == 0 {
        None
    } else if attrs.first().0 == key {
        Some(attrs.first().1)
    } else {
        attr_first(attrs.drop_first(), key)
    }
}

/// Some attribute named `key` has exactly the value `value`.
pub open spec fn has_attr_value(attrs: Seq<AttrV>, key: Seq<char>, value: Seq<char>) -> bool {
    exists|i: int| 0 <= i < attrs.len() && attrs[i] == (key, value)
}

/// Where the scan stands: still searching for the matching `app` element,
/// inside it (its `updatecheck` data is being captured), or past it (a later
/// `app` element ended the capture, and it never resumes).
#[derive(Debug, PartialEq, Eq, Structural, Clone, Copy)]
pub enum ScanPhase {
    Searching,
    Inside,
    Done,
}

/// The scan's state: its phase, and the version and codebase captured so far.
pub type ScanState = (ScanPhase, Option<Seq<char>>, Option<Seq<char>>);

/// One start tag's effect on the scan.
pub open spec fn scan_step(st: ScanState, tag: StartTagV, id: Seq<char>) -> ScanState {
    match st.0 {
        ScanPhase::Searching => if tag.0 == "app"@ && has_attr_value(tag.1, "appid"@, id) {
            (ScanPhase::Inside, st.1, st.2)
        } else {
            st
        },
        ScanPhase::Inside => if tag.0 == "app"@ {
            (ScanPhase::Done, st.1, st.2)
        } else if tag.0 == "updatecheck"@ {
            (
                ScanPhase::Inside,
                match attr_first(tag.1, "version"@) {
                    Some(v) => Some(v),
                    None => st.1,
                },
                match attr_first(tag.1, "codebase"@) {
                    Some(c) => Some(c),
                    None => st.2,
                },
            )
        } else {
            st
        },
        ScanPhase::Done => st,
    }
}

/// The scan of a whole start-tag sequence, in document order.
pub open spec fn scan_tags(tags: Seq<StartTagV>, id: Seq<char>) -> ScanState
    decreases tags.len(),
{
    if tags.len() == 0 {
        (ScanPhase::Searching, None, None)
    } else {
        scan_step(scan_tags(tags.drop_last(), id), tags.last(), id)
    }
}

/// Once the capture has ended, nothing that follows changes the scan.
proof fn lemma_done_absorbs(s1: Seq<StartTagV>, s2: Seq<StartTagV>, id: Seq<char>)
    requires
        scan_tags(s1, id).0 is Done,
    ensures
        scan_tags(s1 + s2, id) == scan_tags(s1, id),
    decreases s2.len(),
{
    if s2.len() == 0 {
        assert(s1 + s2 =~= s1);
    } else {
        lemma_done_absorbs(s1, s2.drop_last(), id);
        assert((s1 + s2).drop_last() =~= s1 + s2.drop_last());
        assert((s1 + s2).last() == s2.last());
    }
}

/// Only the first matching `app` element is honored: a later `app` start tag
/// ends the capture, and nothing after it — not even another matching `app`
/// block with its own `updatecheck` data — changes the captured version or
/// codebase. When a feed lists the same ID twice, only the first occurrence's
/// data is used.
pub proof fn lemma_duplicate_app_ignored(
    s1: Seq<StartTagV>,
    tag: StartTagV,
    s2: Seq<StartTagV>,
    id: Seq<char>,
)
    requires
        scan_tags(s1, id).0 is Inside,
        tag.0 == "app"@,
    ensures
        scan_tags(s1 + seq![tag] + s2, id).1 == scan_tags(s1, id).1,
        scan_tags(s1 + seq![tag] + s2, id).2 == scan_tags(s1, id).2,
{
    assert(s1.push(tag).drop_last() =~= s1);
    assert(scan_tags(s1.push(tag), id).0 is Done);
    lemma_done_absorbs(s1.push(tag), s2, id);
    assert(s1 + seq![tag] + s2 =~= s1.push(tag) + s2);
}

/// Inside the matching app, each `updatecheck` element's attributes are read
/// independently, and a later occurrence overwrites an earlier one exactly
/// where it carries the attribute.
pub proof fn lemma_later_updatecheck_wins(st: ScanState, tag: StartTagV, id: Seq<char>)
    requires
        st.0 is Inside,
        tag.0 == "updatecheck"@,
    ensures
        scan_step(st, tag, id).0 is Inside,
        attr_first(tag.1, "version"@) matches Some(v) ==> scan_step(st, tag, id).1 == Some(v),
        attr_first(tag.1, "version"@) is None ==> scan_step(st, tag, id).1 == st.1,
        attr_first(tag.1, "codebase"@) matches Some(c) ==> scan_step(st, tag, id).2 == Some(c),
        attr_first(tag.1, "codebase"@) is None ==> scan_step(st, tag, id).2 == st.2,
{
    reveal_strlit("app");
    reveal_strlit("updatecheck");
    assert("app"@.len() == 3);
    assert("updatecheck"@.len() == 11);
}

fn find_attr(attrs: &Vec<Attr>, key: &String) -> (r: Option<String>)
    ensures
        r.deep_view() == attr_first(attrs.deep_view(), key@),
{
    let n = attrs.len();
    let mut i: usize = 0;
    proof {
        assert(attrs.deep_view().skip(0) =~= attrs.deep_view());
    }
    while i < n
        invariant
            n == attrs@.len(),
            i <= n,
            attr_first(attrs.deep_view(), key@) == attr_first(
                attrs.deep_view().skip(i as int),
                key@,
            ),
        decreases n - i,
    {
        proof {
            assert(attrs.deep_view().skip(i as int).first() == attrs.deep_view()[i as int]);
            assert(attrs.deep_view().skip(i as int).drop_first() =~= attrs.deep_view().skip(
                i + 1,
            ));
        }
        if attrs[i].name == *key {
            return Some(attrs[i].value.clone());
        }
        i += 1;
    }
    proof {
        assert(attrs.deep_view().skip(n as int) =~= Seq::<AttrV>::empty());
    }
    None
}

fn has_attr(attrs: &Vec<Attr>, key: &String, value: &String) -> (r: bool)
    ensures
        r == has_attr_value(attrs.deep_view(), key@, value@),
{
    let n = attrs.len();
    let mut i: usize = 0;
    while i < n
        invariant
            n == attrs@.len(),
            i <= n,
            forall|j: int| 0 <= j < i ==> attrs.deep_view()[j] != (key@, value@),
        decreases n - i,
    {
        if attrs[i].name == *key && attrs[i].value == *value {
            proof {
                assert(attrs.deep_view()[i as int] == (key@, value@));
            }
            return true;
        }
        proof {
            assert(attrs.deep_view()[i as int] != (key@, value@));
        }
        i += 1;
    }
    false
}

/// What one element's attribute scan captured.
pub struct ScanOutcome {
    pub version: Option<String>,
    pub codebase: Option<String>,
}

/// Runs the manifest scan over a document's start tags: the version and
/// codebase captured by `updatecheck` elements after the first `app` element
/// whose `appid` equals `package_id`.
pub fn scan_start_tags(tags: &Vec<StartTag>, package_id: &String) -> (r: ScanOutcome)
    ensures
        r.version.deep_view() == scan_tags(tags.deep_view(), package_id@).1,
        r.codebase.deep_view() == scan_tags(tags.deep_view(), package_id@).2,
{
    let key_app = String::from_str("app");
    let key_appid = String::from_str("appid");
    let key_updatecheck = String::from_str("updatecheck");
    let key_version = String::from_str("version");
    let key_codebase = String::from_str("codebase");
    let n = tags.len();
    let mut phase = ScanPhase::Searching;
    let mut version: Option<String> = None;
    let mut codebase: Option<String> = None;
    let mut i: usize = 0;
    while i < n
        invariant
            n == tags@.len(),
            i <= n,
            key_app@ == "app"@,
            key_appid@ == "appid"@,
            key_updatecheck@ == "updatecheck"@,
            key_version@ == "version"@,
            key_codebase@ == "codebase"@,
            phase == scan_tags(tags.deep_view().take(i as int), package_id@).0,
            version.deep_view() == scan_tags(tags.deep_view().take(i as int), package_id@).1,
            codebase.deep_view() == scan_tags(tags.deep_view().take(i as int), package_id@).2,
        decreases n - i,
    {
        let tag = &tags[i];
        proof {
            assert(tags.deep_view().take(i + 1).drop_last() =~= tags.deep_view().take(i as int));
            assert(tags.deep_view().take(i + 1).last() == tags.deep_view()[i as int]);
            assert(tags.deep_view()[i as int] == tag.deep_view());
        }
        match phase {
            ScanPhase::Searching => {
                if tag.name == key_app && has_attr(&tag.attrs, &key_appid, package_id) {
                    phase = ScanPhase::Inside;
                }
            },
            ScanPhase::Inside => {
                if tag.name == key_app {
                    phase = ScanPhase::Done;
                } else if tag.name == key_updatecheck {
                    if let Some(v) = find_attr(&tag.attrs, &key_version) {
                        version = Some(v);
                    }
                    if let Some(c) = find_attr(&tag.attrs, &key_codebase) {
                        codebase = Some(c);
                    }
                }
            },
            ScanPhase::Done => {},
        }
        i += 1;
    }
    proof {
        assert(tags.deep_view().take(n as int) =~= tags.deep_view());
    }
    ScanOutcome { version, codebase }
}

/// Resolves a package from an update-manifest document. Fails with `Parse`
/// exactly when the document is malformed; with `MissingVersion` exactly when
/// the scan never captured a version attribute; with `MissingCodebase`
/// exactly when it captured a version but never a codebase; and otherwise
/// returns the captured version and codebase.
pub fn resolve_manifest(doc: &[u8], package_id: &String) -> (r: Result<
    ResolvedVersion,
    ResolveError,
>)
    ensures
        match xml_start_tags_of(doc@) {
            None => r matches Err(e) && e is Parse,
            Some(tags) => {
                let st = scan_tags(tags, package_id@);
                match st.1 {
                    None => r matches Err(e) && e is MissingVersion,
                    Some(v) => match st.2 {
                        None => r matches Err(e) && e is MissingCodebase,
                        Some(c) => r matches Ok(rv) && rv.version@ == v && rv.artifact_url@ == c,
                    },
                }
            },
        },
{
    let tags = match read_start_tags(doc) {
        Some(tags) => tags,
        None => {
            return Err(ResolveError::Parse);
        },
    };
    let outcome = scan_start_tags(&tags, package_id);
    match outcome.version {
        None => Err(ResolveError::MissingVersion),
        Some(version) => match outcome.codebase {
            None => Err(ResolveError::MissingCodebase),
            Some(codebase) => Ok(ResolvedVersion { version, artifact_url: codebase }),
        },
    }
}

} // verus!
