//! Deciding, from the latest published release, whether there is a newer
//! version to install and where to download it from.
use vstd::prelude::*;
use crate::text::{chars_of, decimal, decimal_text, same_text, string_of_range};

verus! {

/// A semantic version: `major.minor.patch`, then optional pre-release and
/// build identifiers (empty when absent).
#[derive(Debug, Clone, PartialEq, Eq)]
pub struct Version {
    pub major: u64,
    pub minor: u64,
    pub patch: u64,
    pub pre: String,
    pub build: String,
}

/// A version's parts as plain values.
pub open spec fn version_parts(v: Version) -> (u64, u64, u64, Seq<char>, Seq<char>) {
    (v.major, v.minor, v.patch, v.pre@, v.build@)
}

/// What `semver::Version::parse` makes of a text: the parts of the version,
/// or the parser's error message.
pub uninterp spec fn semver_parse(text: Seq<char>) -> Result<
    (u64, u64, u64, Seq<char>, Seq<char>),
    Seq<char>,
>;

/// Whether `a <= b` in `semver::Version`'s order (precedence, then build
/// metadata).
pub uninterp spec fn semver_le(
    a: (u64, u64, u64, Seq<char>, Seq<char>),
    b: (u64, u64, u64, Seq<char>, Seq<char>),
) -> bool;

/// `semver::Version::parse`. Claimed: the outcome is `semver_parse` of the
/// text; a version is handed back as its parts, the pre-release and build
/// identifiers as their text.
#[verifier::external_body]
fn parse_semver(text: &str) -> (r: Result<Version, String>)
    ensures
        match r {
            Ok(v) => semver_parse(text@) == Ok::<_, Seq<char>>(version_parts(v)),
            Err(e) => semver_parse(text@) is Err && semver_parse(text@)->Err_0 == e@,
        },
{
    match semver::Version::parse(text) {
        Ok(v) => Ok(
            Version {
                major: v.major,
                minor: v.minor,
                patch: v.patch,
                pre: v.pre.as_str().to_string(),
                build: v.build.as_str().to_string(),
            },
        ),
        Err(e) => Err(e.to_string()),
    }
}

/// `<=` on `semver::Version` (whose `Ord` is derived: major, minor, patch,
/// pre-release, build, in that order). The identifiers are read back with
/// `Prerelease::new` and `BuildMetadata::new`, an unreadable one standing for
/// none. Claimed: the answer is `semver_le` of the two versions' parts, and
/// where major, minor or patch differ, it is decided by the first that does;
/// a version is at most an equal one.
#[verifier::external_body]
fn semver_at_most(a: &Version, b: &Version) -> (r: bool)
    ensures
        r == semver_le(version_parts(*a), version_parts(*b)),
        version_parts(*a) == version_parts(*b) ==> r,
        a.major != b.major ==> r == (a.major < b.major),
        a.major == b.major && a.minor != b.minor ==> r == (a.minor < b.minor),
        a.major == b.major && a.minor == b.minor && a.patch != b.patch ==> r == (a.patch
            < b.patch),
{
    let left = semver::Version {
        major: a.major,
        minor: a.minor,
        patch: a.patch,
        pre: semver::Prerelease::new(&a.pre).unwrap_or(semver::Prerelease::EMPTY),
        build: semver::BuildMetadata::new(&a.build).unwrap_or(semver::BuildMetadata::EMPTY),
    };
    let right = semver::Version {
        major: b.major,
        minor: b.minor,
        patch: b.patch,
        pre: semver::Prerelease::new(&b.pre).unwrap_or(semver::Prerelease::EMPTY),
        build: semver::BuildMetadata::new(&b.build).unwrap_or(semver::BuildMetadata::EMPTY),
    };
    left <= right
}

/// How a version is written: `major.minor.patch`, `-pre` and `+build` when
/// present.
pub open spec fn version_text(v: Version) -> Seq<char> {
    let core = decimal(v.major as nat) + "."@ + decimal(v.minor as nat) + "."@ + decimal(
        v.patch as nat,
    );
    let with_pre = if v.pre@.len() == 0 {
        core
    } else {
        core + "-"@ + v.pre@
    };
    if v.build@.len() == 0 {
        with_pre
    } else {
        with_pre + "+"@ + v.build@
    }
}

impl Version {
    /// `major.minor.patch` with no pre-release or build identifiers.
    pub fn new(major: u64, minor: u64, patch: u64) -> (v: Version)
        ensures
            v.major == major,
            v.minor == minor,
            v.patch == patch,
            v.pre@.len() == 0,
            v.build@.len() == 0,
    {
        Version { major, minor, patch, pre: String::new(), build: String::new() }
    }

    /// Reads a version as `semver::Version::parse` does.
    pub fn parse(text: &str) -> (r: Result<Version, String>)
        ensures
            match r {
                Ok(v) => semver_parse(text@) == Ok::<_, Seq<char>>(version_parts(v)),
                Err(e) => semver_parse(text@) is Err && semver_parse(text@)->Err_0 == e@,
            },
    {
        parse_semver(text)
    }

    /// Whether `self <= other` in semver's order.
    pub fn at_most(&self, other: &Version) -> (r: bool)
        ensures
            r == semver_le(version_parts(*self), version_parts(*other)),
            version_parts(*self) == version_parts(*other) ==> r,
            self.major != other.major ==> r == (self.major < other.major),
            self.major == other.major && self.minor != other.minor ==> r == (self.minor < other.minor),
            self.major == other.major && self.minor == other.minor && self.patch != other.patch ==> r == (
            self.patch < other.patch),
    {
        semver_at_most(self, other)
    }

    /// The version as text, as `Display` writes it.
    pub fn to_text(&self) -> (s: String)
        ensures
            s@ == version_text(*self),
    {
        let mut s = decimal_text(self.major);
        s.append(".");
        let minor = decimal_text(self.minor);
        s.append(minor.as_str());
        s.append(".");
        let patch = decimal_text(self.patch);
        s.append(patch.as_str());
        if !self.pre.as_str().is_empty() {
            s.append("-");
            s.append(self.pre.as_str());
        }
        if !self.build.as_str().is_empty() {
            s.append("+");
            s.append(self.build.as_str());
        }
        s
    }
}

/// The installer this build downloads from a release.
pub const ASSET_NAME: &'static str = "rusiodb-x86_64-pc-windows-msvc.exe";

/// A file attached to a release, as the releases API lists it.
#[derive(Debug, Clone)]
pub struct ReleaseAsset {
    pub name: Option<String>,
    pub browser_download_url: Option<String>,
}

/// What the update check reads of the latest release: its tag, its notes
/// and its files; each may be missing from the answer.
#[derive(Debug, Clone)]
pub struct Release {
    pub tag_name: Option<String>,
    pub body: Option<String>,
    pub assets: Option<Vec<ReleaseAsset>>,
}

/// A newer version: what it is, where its installer is, and its notes.
#[derive(Debug, Clone, PartialEq)]
pub struct UpdateInfo {
    pub version: Version,
    pub download_url: String,
    pub notes: String,
}

/// A tag without its leading `v`s (`trim_start_matches('v')`).
pub open spec fn strip_v(s: Seq<char>) -> Seq<char>
    decreases s.len(),
{
    if s.len() > 0 && s[0] == 'v' {
        strip_v(s.drop_first())
    } else {
        s
    }
}

/// Where the first asset named `ASSET_NAME` is, or the number of assets.
pub open spec fn installer_index(assets: Seq<ReleaseAsset>) -> int
    decreases assets.len(),
{
    if assets.len() == 0 {
        0
    } else if assets[0].name matches Some(n) && n@ == ASSET_NAME@ {
        0
    } else {
        1 + installer_index(assets.drop_first())
    }
}

pub open spec fn missing_tag_message() -> Seq<char> {
    "respuesta inesperada de GitHub: falta tag_name"@
}

pub open spec fn missing_assets_message() -> Seq<char> {
    "respuesta inesperada de GitHub: falta assets"@
}

pub open spec fn missing_installer_message() -> Seq<char> {
    "no se encontró el instalador '"@ + ASSET_NAME@ + "' en la última versión"@
}

pub open spec fn bad_version_message(tag: Seq<char>, error: Seq<char>) -> Seq<char> {
    "versión remota inválida ("@ + tag + "): "@ + error
}

/// The outcome of an update check, given the release and the running
/// version: an error, no update, or the newer version with the download of
/// the first asset named `ASSET_NAME` and the release notes (empty when
/// there are none).
pub open spec fn release_outcome(release: Release, current: Version, r: Result<
    Option<UpdateInfo>,
    String,
>) -> bool {
    match release.tag_name {
        None => r is Err && r->Err_0@ == missing_tag_message(),
        Some(tag) => match semver_parse(strip_v(tag@)) {
            Err(e) => r is Err && r->Err_0@ == bad_version_message(tag@, e),
            Ok(remote) => if semver_le(remote, version_parts(current)) {
                r == Ok::<Option<UpdateInfo>, String>(None)
            } else {
                match release.assets {
                    None => r is Err && r->Err_0@ == missing_assets_message(),
                    Some(assets) => {
                        let i = installer_index(assets@);
                        if i < assets@.len() && assets@[i].browser_download_url is Some {
                            &&& r matches Ok(Some(info))
                            &&& version_parts(info.version) == remote
                            &&& info.download_url@
                                == assets@[i].browser_download_url->Some_0@
                            &&& info.notes@ == match release.body {
                                Some(b) => b@,
                                None => Seq::empty(),
                            }
                        } else {
                            r is Err && r->Err_0@ == missing_installer_message()
                        }
                    },
                }
            },
        },
    }
}

fn strip_leading_v(s: &str) -> (r: String)
    ensures
        r@ == strip_v(s@),
{
    let v = chars_of(s);
    let mut i: usize = 0;
    assert(s@.skip(0) =~= s@);
    while i < v.len() && v[i] == 'v'
        invariant
            v@ == s@,
            i <= v.len(),
            strip_v(s@) == strip_v(s@.skip(i as int)),
        decreases v.len() - i,
    {
        assert(s@.skip(i as int).drop_first() =~= s@.skip(i + 1));
        i = i + 1;
    }
    let r = string_of_range(&v, i, v.len());
    assert(r@ =~= s@.skip(i as int));
    r
}

fn find_installer(assets: &Vec<ReleaseAsset>) -> (i: usize)
    ensures
        i == installer_index(assets@),
        i <= assets@.len(),
{
    let mut i: usize = 0;
    assert(assets@.skip(0) =~= assets@);
    while i < assets.len()
        invariant
            i <= assets@.len(),
            installer_index(assets@) == i + installer_index(assets@.skip(i as int)),
        decreases assets.len() - i,
    {
        let found = match &assets[i].name {
            Some(n) => same_text(n.as_str(), ASSET_NAME),
            None => false,
        };
        if found {
            return i;
        }
        assert(assets@.skip(i as int).drop_first() =~= assets@.skip(i + 1));
        i = i + 1;
    }
    i
}

/// Decides from the latest release whether to offer an update: the tag
/// (without leading `v`s) must be a semantic version; a version no newer
/// than `current` means no update; otherwise the release must carry this
/// build's installer.
pub fn parse_release_json(release: &Release, current: &Version) -> (r: Result<
    Option<UpdateInfo>,
    String,
>)
    ensures
        release_outcome(*release, *current, r),
        release.tag_name matches Some(tag) && semver_parse(strip_v(tag@)) == Ok::<_, Seq<char>>(
            version_parts(*current),
        ) ==> r == Ok::<Option<UpdateInfo>, String>(None),
{
    let tag = match &release.tag_name {
        Some(t) => t,
        None => return Err(String::from_str("respuesta inesperada de GitHub: falta tag_name")),
    };
    let stripped = strip_leading_v(tag.as_str());
    let remote = match Version::parse(stripped.as_str()) {
        Ok(v) => v,
        Err(e) => {
            let mut m = String::from_str("versión remota inválida (");
            m.append(tag.as_str());
            m.append("): ");
            m.append(e.as_str());
            return Err(m);
        },
    };
    if remote.at_most(current) {
        return Ok(None);
    }
    let assets = match &release.assets {
        Some(a) => a,
        None => return Err(String::from_str("respuesta inesperada de GitHub: falta assets")),
    };
    let i = find_installer(assets);
    let url = if i < assets.len() {
        match &assets[i].browser_download_url {
            Some(u) => u.clone(),
            None => return Err(installer_missing()),
        }
    } else {
        return Err(installer_missing());
    };
    let notes = match &release.body {
        Some(b) => b.clone(),
        None => String::new(),
    };
    Ok(Some(UpdateInfo { version: remote, download_url: url, notes }))
}

fn installer_missing() -> (m: String)
    ensures
        m@ == missing_installer_message(),
{
    let mut m = String::from_str("no se encontró el instalador '");
    m.append(ASSET_NAME);
    m.append("' en la última versión");
    m
}


/// An update is offered only for a version newer than the running one.
pub proof fn law_offer_is_newer(release: Release, current: Version, info: UpdateInfo)
    requires
        release_outcome(release, current, Ok(Some(info))),
    ensures
        !semver_le(version_parts(info.version), version_parts(current)),
{
}


/// What the answer of the releases API leads to, by its HTTP status: no
/// release published yet (404) means no update; another failure is an
/// error naming the status; a success is read as the latest release
/// (`Ok(true)`).
pub fn response_outcome(status: u16, status_text: &str) -> (r: Result<bool, String>)
    ensures
        status == 404 ==> r == Ok::<bool, String>(false),
        status != 404 && 200 <= status < 300 ==> r == Ok::<bool, String>(true),
        status != 404 && !(200 <= status < 300) ==> r is Err && r->Err_0@ == "GitHub respondió "@
            + status_text@,
{
    if status == 404 {
        Ok(false)
    } else if 200 <= status && status < 300 {
        Ok(true)
    } else {
        let mut m = String::from_str("GitHub respondió ");
        m.append(status_text);
        Err(m)
    }
}


/// A newer release carrying this build's installer is always offered: no
/// update is answered only for a version at most the running one.
pub proof fn law_newer_release_is_offered(
    release: Release,
    current: Version,
    r: Result<Option<UpdateInfo>, String>,
    tag: String,
    remote: (u64, u64, u64, Seq<char>, Seq<char>),
    assets: Vec<ReleaseAsset>,
)
    requires
        release_outcome(release, current, r),
        release.tag_name == Some(tag),
        semver_parse(strip_v(tag@)) == Ok::<_, Seq<char>>(remote),
        !semver_le(remote, version_parts(current)),
        release.assets == Some(assets),
        installer_index(assets@) < assets@.len(),
        assets@[installer_index(assets@)].browser_download_url is Some,
    ensures
        r matches Ok(Some(info)) && version_parts(info.version) == remote,
        r matches Ok(Some(info)) && info.download_url@ == assets@[installer_index(
            assets@,
        )].browser_download_url->Some_0@,
{
}

/// No update is answered only when the tag is a version at most the
/// running one.
pub proof fn law_no_update_only_if_not_newer(release: Release, current: Version)
    requires
        release_outcome(release, current, Ok(None)),
    ensures
        release.tag_name matches Some(tag) && semver_parse(strip_v(tag@)) matches Ok(remote) && semver_le(
            remote,
            version_parts(current),
        ),
{
}

} // verus!
