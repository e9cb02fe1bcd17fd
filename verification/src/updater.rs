//! Self-update: which release is newer, and whether the supervisor survives it.

use crate::ipc::PROTOCOL_VERSION;
use crate::text;
use semver::Version;
use serde_json::Value;
use vstd::prelude::*;

verus! {

/// A semantic version, as the semver crate holds it.
#[verifier::external_type_specification]
#[verifier::external_body]
pub struct ExVersion(semver::Version);

/// What `semver::Version::parse` makes of a text.
pub uninterp spec fn version_in(s: Seq<char>) -> Option<Version>;

/// The major, minor and patch number of a version that has no pre-release and no
/// build part; none for one that has.
pub uninterp spec fn numbers_in(v: Version) -> Option<(u64, u64, u64)>;

/// Three numbers in decimal with dots between them.
pub open spec fn dotted(n: (u64, u64, u64)) -> Seq<char> {
    text::decimal(n.0 as nat) + seq!['.'] + text::decimal(n.1 as nat) + seq!['.'] + text::decimal(
        n.2 as nat,
    )
}

/// Whether the numbers of one release are above those of another.
pub open spec fn higher(m: (u64, u64, u64), n: (u64, u64, u64)) -> bool {
    m.0 > n.0 || m.0 == n.0 && (m.1 > n.1 || m.1 == n.1 && m.2 > n.2)
}

/// Whether what was read of a text is, where the text is three numbers with dots
/// between them, the version with these numbers.
pub open spec fn numbers_are_read(s: Seq<char>, read: Option<Version>) -> bool {
    forall|n: (u64, u64, u64)|
        s == #[trigger] dotted(n) ==> (read matches Some(v) && numbers_in(v) == Some(n))
}

/// `semver::Version::parse`: the version that the text writes, or none. The
/// contract says that the result is a function of the text, and that three
/// numbers with dots between them are the version with these numbers.
#[verifier::external_body]
pub(crate) fn parse_version(s: &str) -> (r: Option<Version>)
    ensures
        r == version_in(s@),
        numbers_are_read(s@, r),
{
    Version::parse(s).ok()
}

/// Whether the semver crate orders `a` above `b`.
pub uninterp spec fn above(a: Version, b: Version) -> bool;

/// The order of `semver::Version`: whether `a > b`. The contract says that the
/// answer is a function of the two versions, and that versions without a
/// pre-release and a build part are ordered by their numbers.
#[verifier::external_body]
pub(crate) fn is_above(a: &Version, b: &Version) -> (r: bool)
    ensures
        r == above(*a, *b),
        numbers_in(*a) matches Some(m) ==> (numbers_in(*b) matches Some(n) ==> r == higher(m, n)),
{
    a > b
}

/// A JSON value, as the serde_json crate holds it.
#[verifier::external_type_specification]
#[verifier::external_body]
pub struct ExJson(serde_json::Value);

/// The JSON value that the bytes write, if they write one.
pub uninterp spec fn json_in(bytes: Seq<u8>) -> Option<Value>;

/// `serde_json::from_slice`: the JSON value that the bytes write, or none. The
/// contract says that the result is a function of the bytes.
#[verifier::external_body]
fn read_json(bytes: &[u8]) -> (r: Option<Value>)
    ensures
        r == json_in(bytes@),
{
    serde_json::from_slice(bytes).ok()
}

/// The member of a JSON object under a key; none for another kind of value.
pub uninterp spec fn member_of(v: Value, key: Seq<char>) -> Option<Value>;

/// `serde_json::Value::get` with a text: the member of an object under that key,
/// or none.
#[verifier::external_body]
fn json_member<'a>(v: &'a Value, key: &str) -> (r: Option<&'a Value>)
    ensures
        match r {
            Some(m) => member_of(*v, key@) == Some(*m),
            None => member_of(*v, key@) is None,
        },
{
    v.get(key)
}

/// The text of a JSON string; none for another kind of value.
pub uninterp spec fn string_in(v: Value) -> Option<Seq<char>>;

/// `serde_json::Value::as_str`: the text of a string, or none.
pub assume_specification[ Value::as_str ](v: &Value) -> (r: Option<&str>)
    ensures
        match r {
            Some(s) => string_in(*v) == Some(s@),
            None => string_in(*v) is None,
        },
;

/// The version of this program.
pub const CURRENT_VERSION: &'static str = "0.1.0";

#[derive(Debug)]
pub struct UpdateInfo {
    /// `v0.4.0` as published on GitHub.
    pub latest_tag: String,
    pub latest_version: Version,
}

#[derive(Clone, Debug)]
pub struct InstallOutcome {
    pub installed_to: String,
    /// `true` when the new binary's IPC protocol differs from this one's
    /// — i.e. the running supervisor cannot talk to the new client.
    pub supervisor_restart_required: bool,
    pub installed_tag: String,
}

/// The running version; none if it does not read as a semantic version.
pub fn current_version() -> (r: Option<Version>)
    ensures
        r == version_in(CURRENT_VERSION@),
{
    parse_version(CURRENT_VERSION)
}

/// A release tag without one `v` in front.
pub open spec fn tag_version(tag: Seq<char>) -> Seq<char> {
    if tag.len() > 0 && tag[0] == 'v' {
        tag.skip(1)
    } else {
        tag
    }
}

fn strip_v(tag: &str) -> (r: String)
    ensures
        r@ == tag_version(tag@),
{
    let v = text::chars_of(tag);
    if v.len() > 0 && v[0] == 'v' {
        let s = text::string_of(&v, 1, v.len());
        assert(s@ =~= tag@.skip(1));
        s
    } else {
        text::owned(tag)
    }
}

/// Why a release could not be compared.
#[derive(Clone, Debug, PartialEq, Eq, Structural)]
pub enum ReleaseError {
    /// What describes the release is no JSON.
    NotJson,
    /// It holds no tag.
    NoTag,
    /// The tag does not read as a version.
    BadTag,
    /// The running version does not read as a version.
    BadCurrent,
}

/// The tag that a description of a release holds, where it is JSON that has one.
pub open spec fn described_tag(json: Option<Value>) -> Result<Seq<char>, ReleaseError> {
    match json {
        Some(v) => match member_of(v, "tag_name"@) {
            Some(m) => match string_in(m) {
                Some(tag) => Ok(tag),
                None => Err(ReleaseError::NoTag),
            },
            None => Err(ReleaseError::NoTag),
        },
        None => Err(ReleaseError::NotJson),
    }
}

/// The tag that a value holds which describes a release.
pub fn tag_of_release(json: Option<Value>) -> (r: Result<String, ReleaseError>)
    ensures
        match r {
            Ok(tag) => described_tag(json) == Ok::<Seq<char>, ReleaseError>(tag@),
            Err(e) => described_tag(json) == Err::<Seq<char>, ReleaseError>(e),
        },
{
    match &json {
        Some(v) => match json_member(v, "tag_name") {
            Some(m) => match m.as_str() {
                Some(tag) => Ok(text::owned(tag)),
                None => Err(ReleaseError::NoTag),
            },
            None => Err(ReleaseError::NoTag),
        },
        None => Err(ReleaseError::NotJson),
    }
}

/// The tag of the release that the bytes describe.
pub fn tag_in_release(body: &[u8]) -> (r: Result<String, ReleaseError>)
    ensures
        match r {
            Ok(tag) => described_tag(json_in(body@)) == Ok::<Seq<char>, ReleaseError>(tag@),
            Err(e) => described_tag(json_in(body@)) == Err::<Seq<char>, ReleaseError>(e),
        },
{
    tag_of_release(read_json(body))
}

/// What is made of a release once its version has been read: it is an update
/// if and only if it is above the running one.
pub fn decide_update(tag: &str, latest: Version, newer: bool) -> (r: Option<UpdateInfo>)
    ensures
        r is Some <==> newer,
        r matches Some(info) ==> info.latest_tag@ == tag@ && info.latest_version == latest,
{
    if newer {
        Some(UpdateInfo { latest_tag: text::owned(tag), latest_version: latest })
    } else {
        None
    }
}

/// Returns `Some(info)` only if the release tagged `tag` is above the version
/// `current`.
pub fn check_release(tag: &str, current: &str) -> (r: Result<Option<UpdateInfo>, ReleaseError>)
    ensures
        match (version_in(tag_version(tag@)), version_in(current@)) {
            (None, _) => r == Err::<Option<UpdateInfo>, ReleaseError>(ReleaseError::BadTag),
            (Some(_), None) => r == Err::<Option<UpdateInfo>, ReleaseError>(
                ReleaseError::BadCurrent,
            ),
            (Some(latest), Some(now)) => r matches Ok(u) && (u is Some <==> above(latest, now))
                && (u matches Some(info) ==> info.latest_tag@ == tag@ && info.latest_version
                == latest),
        },
        forall|m: (u64, u64, u64), n: (u64, u64, u64)|
            tag_version(tag@) == #[trigger] dotted(m) && current@ == #[trigger] dotted(n)
                ==> (r matches Ok(u) && (u is Some <==> higher(m, n))),
{
    let latest = match parse_version(strip_v(tag).as_str()) {
        Some(v) => v,
        None => return Err(ReleaseError::BadTag),
    };
    let now = match parse_version(current) {
        Some(v) => v,
        None => return Err(ReleaseError::BadCurrent),
    };
    let newer = is_above(&latest, &now);
    Ok(decide_update(tag, latest, newer))
}

/// The release that a tag names; none where the tag does not read as a version.
pub fn release_of_tag(tag: String) -> (r: Option<UpdateInfo>)
    ensures
        match version_in(tag_version(tag@)) {
            Some(v) => r == Some(UpdateInfo { latest_tag: tag, latest_version: v }),
            None => r is None,
        },
{
    match parse_version(strip_v(tag.as_str()).as_str()) {
        Some(latest_version) => Some(UpdateInfo { latest_tag: tag, latest_version }),
        None => None,
    }
}

/// Whether a printed protocol version differs from this program's; none where
/// what was printed is no number.
pub open spec fn protocol_differs(printed: Seq<char>) -> Option<bool> {
    match text::parsed(text::trimmed(printed), u32::MAX as nat) {
        Some(n) => Some(n != PROTOCOL_VERSION),
        None => None,
    }
}

/// Reads what the new binary printed as its protocol version.
pub fn detect_protocol_change(printed: &str) -> (r: Option<bool>)
    ensures
        r == protocol_differs(printed@),
{
    let t = text::trim(printed);
    match text::parse_number(t.as_str(), u32::MAX) {
        Some(n) => Some(n != PROTOCOL_VERSION),
        None => None,
    }
}

/// The outcome of an install: the supervisor has to be restarted unless the new
/// binary is known to speak the same protocol.
pub fn install_outcome(installed_to: String, tag: String, printed: Option<String>) -> (r:
    InstallOutcome)
    ensures
        r.installed_to == installed_to,
        r.installed_tag == tag,
        r.supervisor_restart_required == (match printed {
            Some(p) => protocol_differs(p@) != Some(false),
            None => true,
        }),
{
    let restart = match &printed {
        Some(p) => match detect_protocol_change(p.as_str()) {
            Some(changed) => changed,
            None => true,
        },
        None => true,
    };
    InstallOutcome { installed_to, supervisor_restart_required: restart, installed_tag: tag }
}

/// The message for an install script that failed: its status, what it printed,
/// and its errors if it reported any.
pub open spec fn install_failure(
    status: Seq<char>,
    out: Seq<char>,
    err: Seq<char>,
) -> Seq<char> {
    let head = "install script failed ("@ + status + "): "@ + text::trimmed(out);
    if text::trimmed(err).len() == 0 {
        head
    } else {
        head + " — "@ + text::trimmed(err)
    }
}

/// The message for an install script that failed.
pub fn install_failure_message(status: &str, out: &str, err: &str) -> (r: String)
    ensures
        r@ == install_failure(status@, out@, err@),
{
    let mut s = text::concat3("install script failed (", status, "): ");
    s.push_str(text::trim(out).as_str());
    let e = text::trim(err);
    if !e.as_str().is_empty() {
        s.push_str(" — ");
        s.push_str(e.as_str());
    }
    s
}

} // verus!
