//! Self-update: whether a newer release exists, and which of its assets
//! this machine installs. Fetching, downloading and installing are the
//! caller's.

use vstd::prelude::*;
use crate::text::{chars_of, string_of, chars_from, owned, push_str, str_eq};

verus! {

/// What `semver::Version::parse` says of a text: nothing where it is a valid
/// version, else the message of its error.
pub uninterp spec fn semver_parse_error(text: Seq<char>) -> Option<Seq<char>>;

/// For two valid version texts: the first is a greater version than the
/// second, by the order of `semver::Version`.
pub uninterp spec fn semver_greater(a: Seq<char>, b: Seq<char>) -> bool;

/// Calls `semver::Version::parse`; gives the message of its error, if any.
/// The message is named, not described.
#[verifier::external_body]
fn version_parse_error(text: &str) -> (r: Option<String>)
    ensures
        r.deep_view() == semver_parse_error(text@),
{
    semver::Version::parse(text).err().map(|e| e.to_string())
}

/// Parses two valid version texts with `semver::Version::parse` and compares
/// the versions with `>`. The comparison is named, not described.
#[verifier::external_body]
fn version_greater(a: &str, b: &str) -> (r: bool)
    requires
        semver_parse_error(a@) is None,
        semver_parse_error(b@) is None,
    ensures
        r == semver_greater(a@, b@),
{
    match (semver::Version::parse(a), semver::Version::parse(b)) {
        (Ok(x), Ok(y)) => x > y,
        _ => false,
    }
}

/// A release as the GitHub API describes it.
pub struct GitHubRelease {
    pub tag_name: String,
    pub assets: Vec<GitHubAsset>,
    pub html_url: String,
}

/// A file attached to a release.
pub struct GitHubAsset {
    pub name: String,
    pub browser_download_url: String,
}

/// The version written in a tag: the tag without a leading `v`.
pub open spec fn version_text(tag: Seq<char>) -> Seq<char> {
    if tag.len() > 0 && tag[0] == 'v' {
        tag.drop_first()
    } else {
        tag
    }
}

/// Why a tag holds no version, if it holds none.
pub open spec fn version_problem(tag: Seq<char>) -> Option<Seq<char>> {
    match semver_parse_error(version_text(tag)) {
        None => None,
        Some(e) => Some("Version invalide '"@ + tag + "': "@ + e),
    }
}

/// The version written in a tag, or why it holds none (see
/// `version_problem`).
pub fn parse_version(tag: &str) -> (r: Result<String, String>)
    ensures
        r is Ok <==> version_problem(tag@) is None,
        r matches Ok(v) ==> v@ == version_text(tag@),
        r matches Err(m) ==> version_problem(tag@) == Some(m@),
{
    let cs = chars_of(tag);
    let text = if cs.len() > 0 && cs[0] == 'v' {
        assert(cs@.skip(1) =~= cs@.drop_first());
        string_of(&chars_from(&cs, 1))
    } else {
        owned(tag)
    };
    match version_parse_error(text.as_str()) {
        None => Ok(text),
        Some(e) => {
            let mut m = String::new();
            push_str(&mut m, "Version invalide '");
            push_str(&mut m, tag);
            push_str(&mut m, "': ");
            push_str(&mut m, e.as_str());
            Err(m)
        },
    }
}

/// Whether the latest release is newer than the version running, or why
/// that cannot be told: the running version is read first, then the tag.
pub open spec fn newer_release(tag: Seq<char>, current: Seq<char>) -> Result<bool, Seq<char>> {
    match version_problem(current) {
        Some(e) => Err(e),
        None => match version_problem(tag) {
            Some(e) => Err(e),
            None => Ok(semver_greater(version_text(tag), version_text(current))),
        },
    }
}

/// Whether the release with this tag is newer than the version running (see
/// `newer_release`).
pub fn is_newer_release(tag: &str, current: &str) -> (r: Result<bool, String>)
    ensures
        match (r, newer_release(tag@, current@)) {
            (Ok(a), Ok(b)) => a == b,
            (Err(m), Err(e)) => m@ == e,
            _ => false,
        },
{
    let cur = match parse_version(current) {
        Ok(v) => v,
        Err(e) => {
            return Err(e);
        },
    };
    let latest = match parse_version(tag) {
        Ok(v) => v,
        Err(e) => {
            return Err(e);
        },
    };
    Ok(version_greater(latest.as_str(), cur.as_str()))
}

/// `roadmap update --check`: from the latest release as fetched (or why it
/// could not be), its tag and page where it is newer than the version
/// running, nothing where it is not, or the error.
pub fn check_for_update(release: Result<GitHubRelease, String>, current: &str) -> (r: Result<
    Option<(String, String)>,
    String,
>)
    ensures
        release matches Err(e) ==> r == Err::<Option<(String, String)>, String>(e),
        release matches Ok(rel) ==> match (r, newer_release(rel.tag_name@, current@)) {
            (Ok(Some(found)), Ok(true)) => found.0 == rel.tag_name && found.1 == rel.html_url,
            (Ok(None), Ok(false)) => true,
            (Err(m), Err(e)) => m@ == e,
            _ => false,
        },
{
    let rel = match release {
        Ok(rel) => rel,
        Err(e) => {
            return Err(e);
        },
    };
    match is_newer_release(rel.tag_name.as_str(), current) {
        Ok(true) => Ok(Some((rel.tag_name, rel.html_url))),
        Ok(false) => Ok(None),
        Err(e) => Err(e),
    }
}

/// The archive that a release offers for a system and a processor.
pub open spec fn platform_asset(os: Seq<char>, arch: Seq<char>) -> Option<Seq<char>> {
    if os == "macos"@ && arch == "x86_64"@ {
        Some("roadmap-cli-darwin-x86_64.tar.gz"@)
    } else if os == "macos"@ && arch == "aarch64"@ {
        Some("roadmap-cli-darwin-arm64.tar.gz"@)
    } else if os == "linux"@ && arch == "x86_64"@ {
        Some("roadmap-cli-linux-x86_64.tar.gz"@)
    } else {
        None
    }
}

/// The archive that a release offers for a system and a processor, if any.
pub fn get_platform_asset_name(os: &str, arch: &str) -> (r: Option<&'static str>)
    ensures
        match (r, platform_asset(os@, arch@)) {
            (Some(a), Some(b)) => a@ == b,
            (None, None) => true,
            _ => false,
        },
{
    if str_eq(os, "macos") && str_eq(arch, "x86_64") {
        Some("roadmap-cli-darwin-x86_64.tar.gz")
    } else if str_eq(os, "macos") && str_eq(arch, "aarch64") {
        Some("roadmap-cli-darwin-arm64.tar.gz")
    } else if str_eq(os, "linux") && str_eq(arch, "x86_64") {
        Some("roadmap-cli-linux-x86_64.tar.gz")
    } else {
        None
    }
}

/// The first asset of the release with this name.
pub open spec fn first_asset_named(assets: Seq<GitHubAsset>, name: Seq<char>, i: int) -> bool {
    0 <= i < assets.len() && assets[i].name@ == name && forall|j: int| 0 <= j < i ==> assets[j].name@ != name
}

/// The asset of a release to install on a system and a processor: its name
/// and where to download it; an error where the platform has no archive or
/// the release lacks it.
pub fn select_asset(release: &GitHubRelease, os: &str, arch: &str) -> (r: Result<(String, String), String>)
    ensures
        platform_asset(os@, arch@) is None ==> (r matches Err(m) && m@ == "Plateforme non supportée: "@
            + os@ + " "@ + arch@),
        platform_asset(os@, arch@) matches Some(name) ==> ((forall|j: int|
            0 <= j < release.assets@.len() ==> release.assets@[j].name@ != name) ==> (r matches Err(m) && m@
            == "Asset '"@ + name + "' non trouvé dans la release"@)),
        platform_asset(os@, arch@) matches Some(name) ==> (forall|i: int| first_asset_named(release.assets@, name, i)
            ==> (r matches Ok(found) && found.0@ == name && found.1@ == release.assets@[i].browser_download_url@)),
{
    let name = match get_platform_asset_name(os, arch) {
        Some(n) => n,
        None => {
            let mut m = String::new();
            push_str(&mut m, "Plateforme non supportée: ");
            push_str(&mut m, os);
            push_str(&mut m, " ");
            push_str(&mut m, arch);
            assert(m@ =~= "Plateforme non supportée: "@ + os@ + " "@ + arch@);
            return Err(m);
        },
    };
    let mut i: usize = 0;
    while i < release.assets.len()
        invariant
            platform_asset(os@, arch@) == Some(name@),
            i <= release.assets@.len(),
            forall|j: int| 0 <= j < i ==> release.assets@[j].name@ != name@,
        decreases release.assets@.len() - i,
    {
        if str_eq(release.assets[i].name.as_str(), name) {
            return Ok((owned(name), release.assets[i].browser_download_url.clone()));
        }
        i = i + 1;
    }
    let mut m = String::new();
    push_str(&mut m, "Asset '");
    push_str(&mut m, name);
    push_str(&mut m, "' non trouvé dans la release");
    assert(m@ =~= "Asset '"@ + name@ + "' non trouvé dans la release"@);
    Err(m)
}

} // verus!
