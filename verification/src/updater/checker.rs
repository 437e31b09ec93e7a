//! Whether there is a newer release.

use crate::http::{
    bare_request, is_success_status, HttpRequest, HttpResponse, Method, RequestModel, ResponseModel,
};
use crate::json::{json_bytes_outcome, Json};
use crate::text::{concat, decimal, decimal_string, same, strip_prefix, strip_prefix_seq};
use vstd::prelude::*;

verus! {

broadcast use vstd::string::group_string_axioms;

/// A release to download.
#[derive(Clone, Debug, PartialEq, Eq)]
pub struct ReleaseAsset {
    pub version: String,
    pub asset_url: String,
    pub asset_name: String,
    pub checksum_url: Option<String>,
}

/// A [`ReleaseAsset`] with its texts as sequences.
pub struct ReleaseModel {
    pub version: Seq<char>,
    pub asset_url: Seq<char>,
    pub asset_name: Seq<char>,
    pub checksum_url: Option<Seq<char>>,
}

impl DeepView for ReleaseAsset {
    type V = ReleaseModel;

    open spec fn deep_view(&self) -> ReleaseModel {
        ReleaseModel {
            version: self.version@,
            asset_url: self.asset_url@,
            asset_name: self.asset_name@,
            checksum_url: self.checksum_url.deep_view(),
        }
    }
}

/// A version as its text spells it, where the text is a semantic version.
pub uninterp spec fn semver_text(text: Seq<char>) -> Option<Seq<char>>;

/// Whether the first version comes no later than the second.
pub uninterp spec fn semver_at_most(a: Seq<char>, b: Seq<char>) -> bool;

/// `semver::Version::parse`, and the version's text; `None` where the text is
/// no semantic version.
#[verifier::external_body]
fn parse_version(text: &str) -> (r: Option<String>)
    ensures
        r.deep_view() == semver_text(text@),
{
    semver::Version::parse(text).ok().map(|v| v.to_string())
}

/// The order of `semver::Version`, on the versions that two texts parse to. A
/// text comes no later than itself.
#[verifier::external_body]
fn version_at_most(a: &str, b: &str) -> (r: bool)
    ensures
        r == semver_at_most(a@, b@),
        a@ == b@ ==> r,
{
    semver::Version::parse(a).ok() <= semver::Version::parse(b).ok()
}

/// The systems that releases are built for.
#[derive(Clone, Copy, Debug, PartialEq, Eq, Structural)]
pub enum Platform {
    LinuxX64,
    LinuxArm64,
    MacArm64,
    MacX64,
    WindowsX64,
    WindowsArm64,
}

/// The file of a release for a system.
pub open spec fn asset_name_model(platform: Platform) -> Seq<char> {
    match platform {
        Platform::LinuxX64 => "okena-linux-x64.tar.gz"@,
        Platform::LinuxArm64 => "okena-linux-arm64.tar.gz"@,
        Platform::MacArm64 => "okena-macos-arm64.zip"@,
        Platform::MacX64 => "okena-macos-x64.zip"@,
        Platform::WindowsX64 => "okena-windows-x64.zip"@,
        Platform::WindowsArm64 => "okena-windows-arm64.zip"@,
    }
}

/// The file of a release for a system.
pub fn platform_asset_name(platform: Platform) -> (r: &'static str)
    ensures
        r@ == asset_name_model(platform),
{
    match platform {
        Platform::LinuxX64 => "okena-linux-x64.tar.gz",
        Platform::LinuxArm64 => "okena-linux-arm64.tar.gz",
        Platform::MacArm64 => "okena-macos-arm64.zip",
        Platform::MacX64 => "okena-macos-x64.zip",
        Platform::WindowsX64 => "okena-windows-x64.zip",
        Platform::WindowsArm64 => "okena-windows-arm64.zip",
    }
}

/// The name of an asset; empty where it has none.
pub open spec fn asset_name_of(asset: Json) -> Seq<char> {
    match asset.field_text("name"@) {
        Some(name) => name,
        None => ""@,
    }
}

/// The address of an asset.
pub open spec fn asset_url_of(asset: Json) -> Option<Seq<char>> {
    asset.field_text("browser_download_url"@)
}

/// Whether every asset with the expected name has an address.
pub open spec fn assets_have_urls(assets: Seq<Json>, expected: Seq<char>) -> bool {
    forall|i: int|
        0 <= i < assets.len() && asset_name_of(#[trigger] assets[i]) == expected ==> asset_url_of(
            assets[i],
        ) is Some
}

/// The address of the last asset with the expected name.
pub open spec fn found_url(assets: Seq<Json>, expected: Seq<char>) -> Option<Seq<char>>
    decreases assets.len(),
{
    if assets.len() == 0 {
        None
    } else if asset_name_of(assets.last()) == expected {
        asset_url_of(assets.last())
    } else {
        found_url(assets.drop_last(), expected)
    }
}

/// Whether an asset holds the checksums, by its name.
pub open spec fn is_checksums(name: Seq<char>) -> bool {
    name == "SHA256SUMS"@ || name == "sha256sums.txt"@
}

/// The address of the last list of checksums that has one.
pub open spec fn found_checksums(assets: Seq<Json>, expected: Seq<char>) -> Option<Seq<char>>
    decreases assets.len(),
{
    if assets.len() == 0 {
        None
    } else {
        let name = asset_name_of(assets.last());
        if name != expected && is_checksums(name) && asset_url_of(assets.last()) is Some {
            asset_url_of(assets.last())
        } else {
            found_checksums(assets.drop_last(), expected)
        }
    }
}

/// The version that a tag names.
pub open spec fn tag_version(tag: Seq<char>) -> Seq<char> {
    match strip_prefix_seq(tag, "v"@) {
        Some(rest) => rest,
        None => tag,
    }
}

/// The release to download, out of the description of the latest one.
pub open spec fn release_model(
    app_version: Seq<char>,
    release: Json,
    expected: Seq<char>,
) -> Result<Option<ReleaseModel>, Seq<char>> {
    match release.field_text("tag_name"@) {
        None => Err("missing tag_name"@),
        Some(tag) => match semver_text(tag_version(tag)) {
            None => Err("invalid remote version"@),
            Some(version) => if semver_text(app_version) is None {
                Err("invalid current version"@)
            } else if semver_at_most(tag_version(tag), app_version) {
                Ok(None)
            } else {
                match release.field_elements("assets"@) {
                    None => Err("missing assets array"@),
                    Some(assets) => if !assets_have_urls(assets, expected) {
                        Err("missing download URL"@)
                    } else {
                        match found_url(assets, expected) {
                            Some(url) => Ok(
                                Some(
                                    ReleaseModel {
                                        version,
                                        asset_url: url,
                                        asset_name: expected,
                                        checksum_url: found_checksums(assets, expected),
                                    },
                                ),
                            ),
                            None => Ok(None),
                        }
                    },
                }
            },
        },
    }
}

/// The models of a result.
pub open spec fn check_result(r: Result<Option<ReleaseAsset>, String>) -> Result<
    Option<ReleaseModel>,
    Seq<char>,
> {
    match r {
        Ok(release) => Ok(release.deep_view()),
        Err(message) => Err(message@),
    }
}

fn copy_str(text: Option<&str>) -> (r: Option<String>)
    ensures
        r.deep_view() == text.deep_view(),
{
    match text {
        Some(t) => Some(t.to_owned()),
        None => None,
    }
}

/// Reads the description of the latest release: `Ok(None)` where it is no newer
/// than this okena, or not built for this system.
pub fn read_release(app_version: &str, release: &Json, expected: &str) -> (r: Result<
    Option<ReleaseAsset>,
    String,
>)
    ensures
        check_result(r) == release_model(app_version@, *release, expected@),
{
    let tag: &str = match release.get_str("tag_name") {
        Some(tag) => tag,
        None => return Err("missing tag_name".to_owned()),
    };
    let remote: String = match strip_prefix(tag, "v") {
        Some(rest) => rest,
        None => tag.to_owned(),
    };
    let version: String = match parse_version(remote.as_str()) {
        Some(version) => version,
        None => return Err("invalid remote version".to_owned()),
    };
    if parse_version(app_version).is_none() {
        return Err("invalid current version".to_owned());
    }
    if version_at_most(remote.as_str(), app_version) {
        return Ok(None);
    }
    let assets: &Vec<Json> = match release.get_array("assets") {
        Some(assets) => assets,
        None => return Err("missing assets array".to_owned()),
    };
    let mut url: Option<String> = None;
    let mut checksum_url: Option<String> = None;
    let mut i: usize = 0;
    assert(assets@.take(0) == Seq::<Json>::empty());
    while i < assets.len()
        invariant
            i <= assets@.len(),
            assets_have_urls(assets@.take(i as int), expected@),
            url.deep_view() == found_url(assets@.take(i as int), expected@),
            checksum_url.deep_view() == found_checksums(assets@.take(i as int), expected@),
            release.field_elements("assets"@) == Some(assets@),
            release.field_text("tag_name"@) == Some(tag@),
            semver_text(tag_version(tag@)) == Some(version@),
            semver_text(app_version@) is Some,
            !semver_at_most(tag_version(tag@), app_version@),
        decreases assets@.len() - i,
    {
        assert(assets@.take(i + 1).drop_last() == assets@.take(i as int));
        assert(assets@.take(i + 1).last() == assets@[i as int]);
        let name: &str = match assets[i].get_str("name") {
            Some(name) => name,
            None => "",
        };
        assert(name@ == asset_name_of(assets@[i as int]));
        let address: Option<&str> = assets[i].get_str("browser_download_url");
        assert(address.deep_view() == asset_url_of(assets@[i as int]));
        if same(name, expected) {
            if address.is_none() {
                assert(!assets_have_urls(assets@, expected@)) by {
                    assert(asset_name_of(assets@[i as int]) == expected@);
                }
                return Err("missing download URL".to_owned());
            }
            url = copy_str(address);
        } else if (same(name, "SHA256SUMS") || same(name, "sha256sums.txt"))
            && address.is_some() {
            checksum_url = copy_str(address);
        }
        assert forall|j: int|
            0 <= j < i + 1 && asset_name_of(#[trigger] assets@.take(i + 1)[j])
                == expected@ implies asset_url_of(assets@.take(i + 1)[j]) is Some by {
            if j < i {
                assert(assets@.take(i as int)[j] == assets@.take(i + 1)[j]);
            }
        }
        i = i + 1;
    }
    assert(assets@.take(assets@.len() as int) == assets@);
    match url {
        Some(asset_url) => Ok(
            Some(
                ReleaseAsset { version, asset_url, asset_name: expected.to_owned(), checksum_url },
            ),
        ),
        None => Ok(None),
    }
}

/// The request for the latest release.
pub open spec fn release_request_model(app_version: Seq<char>) -> RequestModel {
    RequestModel {
        user_agent: Some("okena/"@ + app_version),
        timeout_ms: Some(15000),
        label: Some("updater.check"@),
        ..bare_request(
            Method::Get,
            "https://api.github.com/repos/contember/okena/releases/latest"@,
        )
    }
}

/// The request for the latest release.
pub fn release_request(app_version: &str) -> (r: HttpRequest)
    ensures
        r.deep_view() == release_request_model(app_version@),
{
    let agent: String = concat("okena/", app_version);
    HttpRequest::get("https://api.github.com/repos/contember/okena/releases/latest").user_agent(
        agent.as_str(),
    ).timeout(15000).label("updater.check")
}

/// What the answer to the request for the latest release means; `None` is an
/// answer that did not come.
pub open spec fn check_model(
    app_version: Seq<char>,
    answer: Option<ResponseModel>,
    expected: Seq<char>,
) -> Result<Option<ReleaseModel>, Seq<char>> {
    match answer {
        Some(response) => if response.status == 403 || response.status == 429 {
            Err("GitHub API rate limit exceeded \u{2014} try again later"@)
        } else if !is_success_status(response.status) {
            Err("GitHub API returned status "@ + decimal(response.status as nat))
        } else {
            match json_bytes_outcome(response.body) {
                Ok(release) => release_model(app_version, release, expected),
                Err(_) => Err("failed to parse release JSON"@),
            }
        },
        None => Err("failed to fetch latest release"@),
    }
}

/// Reads the answer to the request for the latest release.
pub fn check_for_update(app_version: &str, answer: &Option<HttpResponse>, expected: &str) -> (r:
    Result<Option<ReleaseAsset>, String>)
    ensures
        check_result(r) == check_model(
            app_version@,
            match answer {
                Some(response) => Some(response.view()),
                None => None,
            },
            expected@,
        ),
{
    let response: &HttpResponse = match answer {
        Some(response) => response,
        None => return Err("failed to fetch latest release".to_owned()),
    };
    let status: u16 = response.status();
    if status == 403 || status == 429 {
        return Err("GitHub API rate limit exceeded \u{2014} try again later".to_owned());
    }
    if !response.is_success() {
        return Err(
            concat("GitHub API returned status ", decimal_string(status as u64).as_str()),
        );
    }
    match response.json() {
        Ok(release) => read_release(app_version, &release, expected),
        Err(_) => Err("failed to parse release JSON".to_owned()),
    }
}

/// A release is only offered where its version comes after the running one,
/// under the expected name, at an address that the description gives.
pub proof fn only_newer_releases_are_offered(
    app_version: Seq<char>,
    release: Json,
    expected: Seq<char>,
)
    ensures
        release_model(app_version, release, expected) matches Ok(Some(found)) ==> {
            &&& release.field_text("tag_name"@) matches Some(tag)
            &&& !semver_at_most(tag_version(tag), app_version)
            &&& semver_text(tag_version(tag)) == Some(found.version)
            &&& found.asset_name == expected
        },
{
}

proof fn last_asset_counts(assets: Seq<Json>, expected: Seq<char>, i: int)
    requires
        0 <= i < assets.len(),
        asset_name_of(assets[i]) == expected,
        forall|k: int| i < k < assets.len() ==> asset_name_of(#[trigger] assets[k]) != expected,
    ensures
        found_url(assets, expected) == asset_url_of(assets[i]),
    decreases assets.len(),
{
    if i < assets.len() - 1 {
        assert(assets[assets.len() - 1] == assets.last());
        let front = assets.drop_last();
        assert forall|k: int| i < k < front.len() implies asset_name_of(#[trigger] front[k])
            != expected by {
            assert(front[k] == assets[k]);
        }
        last_asset_counts(front, expected, i);
    }
}

/// A newer release with a download for the system is offered, with its version and
/// the address of that very download.
pub proof fn newer_releases_are_offered(
    app_version: Seq<char>,
    release: Json,
    expected: Seq<char>,
    tag: Seq<char>,
    version: Seq<char>,
    assets: Seq<Json>,
    i: int,
    url: Seq<char>,
)
    requires
        release.field_text("tag_name"@) == Some(tag),
        semver_text(tag_version(tag)) == Some(version),
        semver_text(app_version) is Some,
        !semver_at_most(tag_version(tag), app_version),
        release.field_elements("assets"@) == Some(assets),
        0 <= i < assets.len(),
        expected.len() > 0,
        assets[i].field_text("name"@) == Some(expected),
        assets[i].field_text("browser_download_url"@) == Some(url),
        forall|k: int|
            0 <= k < assets.len() && k != i ==> (#[trigger] assets[k]).field_text("name"@) != Some(
                expected,
            ),
    ensures
        release_model(app_version, release, expected) matches Ok(Some(found)) && found.version
            == version && found.asset_url == url && found.asset_name == expected,
{
    reveal_strlit("");
    assert(""@.len() == 0);
    assert forall|k: int| 0 <= k < assets.len() && k != i implies asset_name_of(
        #[trigger] assets[k],
    ) != expected by {
        assert(assets[k].field_text("name"@) != Some(expected));
    }
    last_asset_counts(assets, expected, i);
}

/// A release that is not newer, or has no download for the system, is no news.
pub proof fn other_releases_are_no_news(
    app_version: Seq<char>,
    release: Json,
    expected: Seq<char>,
    tag: Seq<char>,
    assets: Seq<Json>,
)
    requires
        release.field_text("tag_name"@) == Some(tag),
        semver_text(tag_version(tag)) is Some,
        semver_text(app_version) is Some,
    ensures
        semver_at_most(tag_version(tag), app_version) ==> release_model(
            app_version,
            release,
            expected,
        ) == Ok::<Option<ReleaseModel>, Seq<char>>(None),
        !semver_at_most(tag_version(tag), app_version) && release.field_elements("assets"@) == Some(
            assets,
        ) && (forall|k: int|
            0 <= k < assets.len() ==> asset_name_of(#[trigger] assets[k]) != expected)
            ==> release_model(app_version, release, expected) == Ok::<
            Option<ReleaseModel>,
            Seq<char>,
        >(None),
{
    if forall|k: int| 0 <= k < assets.len() ==> asset_name_of(#[trigger] assets[k]) != expected {
        nothing_is_found(assets, expected);
    }
}

proof fn nothing_is_found(assets: Seq<Json>, expected: Seq<char>)
    requires
        forall|k: int| 0 <= k < assets.len() ==> asset_name_of(#[trigger] assets[k]) != expected,
    ensures
        found_url(assets, expected) is None,
    decreases assets.len(),
{
    if assets.len() > 0 {
        let front = assets.drop_last();
        assert(assets[assets.len() - 1] == assets.last());
        assert forall|k: int| 0 <= k < front.len() implies asset_name_of(#[trigger] front[k])
            != expected by {
            assert(front[k] == assets[k]);
        }
        nothing_is_found(front, expected);
    }
}

/// A list of checksums that goes with a release is found by its name.
pub proof fn checksums_are_found(assets: Seq<Json>, expected: Seq<char>, asset: Json, url: Seq<char>)
    requires
        asset.field_text("name"@) == Some("SHA256SUMS"@) || asset.field_text("name"@) == Some(
            "sha256sums.txt"@,
        ),
        asset.field_text("browser_download_url"@) == Some(url),
        asset.field_text("name"@) != Some(expected),
    ensures
        found_checksums(assets.push(asset), expected) == Some(url),
{
    assert(assets.push(asset).last() == asset);
}

/// A tag is its version, with or without the letter in front.
pub proof fn tags_are_versions(version: Seq<char>)
    ensures
        tag_version("v"@ + version) == version,
        !"v"@.is_prefix_of(version) ==> tag_version(version) == version,
{
    let prefix = "v"@;
    assert(prefix.is_prefix_of(prefix + version));
    assert((prefix + version).skip(prefix.len() as int) == version);
}

/// Only a successful answer is read: every other one is an error, and so is none.
pub proof fn only_successes_are_read(
    app_version: Seq<char>,
    answer: Option<ResponseModel>,
    expected: Seq<char>,
)
    ensures
        check_model(app_version, answer, expected) is Ok ==> (answer matches Some(response) && 200
            <= response.status < 300),
        answer is None ==> check_model(app_version, answer, expected) is Err,
        answer matches Some(response) ==> (200 <= response.status < 300 ==> (json_bytes_outcome(
            response.body,
        ) matches Ok(release) ==> check_model(app_version, answer, expected) == release_model(
            app_version,
            release,
            expected,
        ))),
{
}

/// Every system has a download of its own.
pub proof fn systems_have_their_own_downloads(a: Platform, b: Platform)
    requires
        asset_name_model(a) == asset_name_model(b),
    ensures
        a == b,
{
    reveal_strlit("okena-linux-x64.tar.gz");
    reveal_strlit("okena-linux-arm64.tar.gz");
    reveal_strlit("okena-macos-arm64.zip");
    reveal_strlit("okena-macos-x64.zip");
    reveal_strlit("okena-windows-x64.zip");
    reveal_strlit("okena-windows-arm64.zip");
    assert("okena-linux-x64.tar.gz"@.len() == 22);
    assert("okena-linux-arm64.tar.gz"@.len() == 24);
    assert("okena-macos-arm64.zip"@.len() == 21 && "okena-macos-arm64.zip"@[6] == 'm');
    assert("okena-macos-x64.zip"@.len() == 19);
    assert("okena-windows-x64.zip"@.len() == 21 && "okena-windows-x64.zip"@[6] == 'w');
    assert("okena-windows-arm64.zip"@.len() == 23);
}

/// The question for a release tells which version asks, and goes to the same address for
/// all of them.
pub proof fn requests_tell_the_version(a: Seq<char>, b: Seq<char>)
    ensures
        release_request_model(a).user_agent == Some("okena/"@ + a),
        release_request_model(a).url == release_request_model(b).url,
        release_request_model(a).method is Get,
        release_request_model(a) == release_request_model(b) ==> a == b,
{
    let prefix = "okena/"@;
    assert((prefix + a).skip(prefix.len() as int) == a);
    assert((prefix + b).skip(prefix.len() as int) == b);
}

/// A download without an address is an error, not a release without one.
pub proof fn downloads_need_addresses(
    app_version: Seq<char>,
    release: Json,
    expected: Seq<char>,
    tag: Seq<char>,
    assets: Seq<Json>,
    i: int,
)
    requires
        release.field_text("tag_name"@) == Some(tag),
        semver_text(tag_version(tag)) is Some,
        semver_text(app_version) is Some,
        !semver_at_most(tag_version(tag), app_version),
        release.field_elements("assets"@) == Some(assets),
        0 <= i < assets.len(),
        assets[i].field_text("name"@) == Some(expected),
        assets[i].field_text("browser_download_url"@) is None,
    ensures
        release_model(app_version, release, expected) is Err,
{
    assert(asset_name_of(assets[i]) == expected);
    assert(asset_url_of(assets[i]) is None);
}

/// The download itself is never taken for its list of checksums.
pub proof fn downloads_are_no_checksums(assets: Seq<Json>, expected: Seq<char>, asset: Json)
    requires
        asset.field_text("name"@) == Some(expected),
    ensures
        found_checksums(assets.push(asset), expected) == found_checksums(assets, expected),
{
    assert(assets.push(asset).last() == asset);
    assert(assets.push(asset).drop_last() == assets);
}

} // verus!
