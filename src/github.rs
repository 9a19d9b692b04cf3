//! Releases and their assets, the choice of the asset to download, and the
//! answers of the release and rate-limit services.

use vstd::prelude::*;

use crate::error::InstallError;
use crate::platform::{accepted, asset_matcher, some_matcher, Platform, PlatformMatcher};
use crate::text::{chars_of, contains};
use crate::version::first_from;

verus! {

/// A downloadable file attached to a release.
#[derive(Debug)]
pub struct Asset {
    pub id: u64,
    pub name: String,
    pub label: Option<String>,
    pub content_type: Option<String>,
    pub size: u64,
    pub download_count: u64,
    pub browser_download_url: Option<String>,
}

/// The latest release of a repository.
#[derive(Debug)]
pub struct Release {
    pub tag_name: String,
    pub html_url: String,
    pub assets: Vec<Asset>,
}

impl Release {
    /// The release that stands for "none found": no tag, no page, no assets.
    pub fn empty() -> (r: Self)
        ensures
            r.tag_name@.len() == 0,
            r.html_url@.len() == 0,
            r.assets@.len() == 0,
    {
        Release { tag_name: String::new(), html_url: String::new(), assets: Vec::new() }
    }
}

/// The assets, in order, whose names target the platform.
pub open spec fn platform_assets(
    assets: Seq<Asset>,
    matcher: Option<PlatformMatcher>,
    platform: Platform,
) -> Seq<Asset>
    decreases assets.len(),
{
    if assets.len() == 0 {
        Seq::empty()
    } else {
        let rest = platform_assets(assets.drop_last(), matcher, platform);
        if accepted(assets.last().name@, matcher, platform) {
            rest.push(assets.last())
        } else {
            rest
        }
    }
}

/// The values behind a list of references.
pub open spec fn derefs(v: Seq<&Asset>) -> Seq<Asset> {
    v.map_values(|a: &Asset| *a)
}

/// The assets that target `current_platform`, in their order.
pub fn find_platform_assets<'a>(
    assets: &'a Vec<Asset>,
    matcher: Option<&PlatformMatcher>,
    current_platform: &Platform,
) -> (r: Result<Vec<&'a Asset>, InstallError>)
    ensures
        r is Ok,
        r matches Ok(v) ==> derefs(v@) == platform_assets(assets@, some_matcher(matcher), *current_platform),
{
    let mut out: Vec<&'a Asset> = Vec::new();
    let mut i: usize = 0;
    while i < assets.len()
        invariant
            i <= assets@.len(),
            derefs(out@) == platform_assets(
                assets@.subrange(0, i as int),
                some_matcher(matcher),
                *current_platform,
            ),
        decreases assets.len() - i,
    {
        let ghost before = out@;
        assert(assets@.subrange(0, i + 1).drop_last() =~= assets@.subrange(0, i as int));
        let ok = asset_matcher(assets[i].name.as_str(), matcher, current_platform).is_ok();
        if ok {
            out.push(&assets[i]);
            assert(derefs(out@) =~= derefs(before).push(assets@[i as int]));
        }
        i = i + 1;
    }
    assert(assets@.subrange(0, assets@.len() as int) =~= assets@);
    Ok(out)
}

/// The asset chosen for download.
#[derive(Debug)]
pub struct AssetChoice {
    /// Its download URL.
    pub url: String,
    /// Its name.
    pub name: String,
    /// Several assets matched: the first with a URL was taken.
    pub multiple: bool,
}

pub open spec fn has_url_pred(s: Seq<Asset>) -> spec_fn(int) -> bool {
    |i: int| s[i].browser_download_url is Some
}

/// The result of choosing among matched assets: none is an error; a single
/// one needs a URL; of several, the first with a URL is taken, and none with
/// a URL is an error. As `(url, name, multiple)`.
pub open spec fn choice_spec(m: Seq<Asset>) -> Result<(Seq<char>, Seq<char>, bool), InstallError> {
    if m.len() == 0 {
        Err(InstallError::NoPlatformAsset)
    } else if m.len() == 1 {
        match m[0].browser_download_url {
            Some(u) => Ok((u@, m[0].name@, false)),
            None => Err(InstallError::NoDownloadUrl),
        }
    } else {
        match first_from(m.len() as int, 0, has_url_pred(m)) {
            Some(i) => Ok((m[i].browser_download_url->0@, m[i].name@, true)),
            None => Err(InstallError::NoAssetWithUrl),
        }
    }
}

/// Whether a choice agrees with `choice_spec`.
pub open spec fn choice_agrees(
    r: Result<AssetChoice, InstallError>,
    s: Result<(Seq<char>, Seq<char>, bool), InstallError>,
) -> bool {
    match (r, s) {
        (Ok(c), Ok((u, n, mult))) => c.url@ == u && c.name@ == n && c.multiple == mult,
        (Err(e), Err(f)) => e == f,
        _ => false,
    }
}

/// Chooses the asset to download among those that match the platform.
pub fn select_asset(matched: &Vec<&Asset>) -> (r: Result<AssetChoice, InstallError>)
    ensures
        choice_agrees(r, choice_spec(derefs(matched@))),
{
    let ghost m = derefs(matched@);
    let n = matched.len();
    if n == 0 {
        return Err(InstallError::NoPlatformAsset);
    }
    if n == 1 {
        return match &matched[0].browser_download_url {
            Some(u) => Ok(AssetChoice { url: u.clone(), name: matched[0].name.clone(), multiple: false }),
            None => Err(InstallError::NoDownloadUrl),
        };
    }
    let mut i: usize = 0;
    while i < n
        invariant
            n == matched@.len(),
            m == derefs(matched@),
            n > 1,
            i <= n,
            first_from(n as int, 0, has_url_pred(m)) == first_from(n as int, i as int, has_url_pred(m)),
        decreases n - i,
    {
        match &matched[i].browser_download_url {
            Some(u) => {
                assert(has_url_pred(m)(i as int));
                return Ok(AssetChoice { url: u.clone(), name: matched[i].name.clone(), multiple: true });
            },
            None => {
                assert(!has_url_pred(m)(i as int));
            },
        }
        i = i + 1;
    }
    Err(InstallError::NoAssetWithUrl)
}

/// Chooses the asset of `release` to download for `current_platform`.
pub fn get_best_url(
    release: &Release,
    matcher: Option<&PlatformMatcher>,
    current_platform: &Platform,
) -> (r: Result<AssetChoice, InstallError>)
    ensures
        choice_agrees(
            r,
            choice_spec(platform_assets(release.assets@, some_matcher(matcher), *current_platform)),
        ),
{
    match find_platform_assets(&release.assets, matcher, current_platform) {
        Ok(matched) => select_asset(&matched),
        Err(e) => Err(e),
    }
}

/// The API address of the latest release of `owner/name`.
pub open spec fn release_url_spec(repo: Seq<char>) -> Seq<char> {
    "https://api.github.com/repos/"@ + repo + "/releases/latest"@
}

/// The API address of the latest release of `repo`, which must hold a `/`
/// between owner and name.
pub fn release_api_url(repo: &str) -> (r: Result<String, InstallError>)
    ensures
        r is Ok <==> contains(repo@, seq!['/']),
        r matches Ok(u) ==> u@ == release_url_spec(repo@),
        r matches Err(e) ==> e matches InstallError::InvalidRepository { repo: x } && x@ == repo@,
{
    let cs = chars_of(repo);
    let slash = chars_of("/");
    proof {
        reveal_strlit("/");
        assert(slash@ =~= seq!['/']);
    }
    if !crate::text::contains_exec(&cs, &slash) {
        return Err(InstallError::InvalidRepository { repo: String::from_str(repo) });
    }
    let mut u = String::from_str("https://api.github.com/repos/");
    u.append(repo);
    u.append("/releases/latest");
    Ok(u)
}

/// What an answer of the release service means.
pub fn release_response(status: u16, body: String) -> (r: Result<(), InstallError>)
    ensures
        status == 200 ==> r is Ok,
        status == 404 ==> r == Err::<(), InstallError>(InstallError::NoRelease),
        status != 200 && status != 404 ==> r == Err::<(), InstallError>(
            InstallError::HttpStatus { code: status, body },
        ),
{
    if status == 200 {
        Ok(())
    } else if status == 404 {
        Err(InstallError::NoRelease)
    } else {
        Err(InstallError::HttpStatus { code: status, body })
    }
}

/// Whether `serde_json` parses a text as JSON.
pub uninterp spec fn json_accepts(text: Seq<char>) -> bool;

/// Relies on `serde_json::from_str::<serde_json::Value>`: whether a text
/// parses depends on the text alone.
#[verifier::external_body]
fn parse_json(text: &str) -> (r: bool)
    ensures
        r == json_accepts(text@),
{
    serde_json::from_str::<serde_json::Value>(text).is_ok()
}

/// The unsigned integer that `serde_json` finds at `section.field` of a
/// JSON text, if any.
pub uninterp spec fn json_u64_field(text: Seq<char>, section: Seq<char>, field: Seq<char>) -> Option<u64>;

/// Relies on `serde_json::from_str::<serde_json::Value>`, on the indexing of
/// `serde_json::Value` by key (a missing key or a non-object gives `Null`,
/// never a panic) and on `Value::as_u64`: the result depends on the three
/// texts alone.
#[verifier::external_body]
fn json_u64_at(text: &str, section: &str, field: &str) -> (r: Option<u64>)
    ensures
        r == json_u64_field(text@, section@, field@),
{
    match serde_json::from_str::<serde_json::Value>(text) {
        Ok(v) => v[section][field].as_u64(),
        Err(_) => None,
    }
}

/// The API quota as reported.
#[derive(Debug, PartialEq, Eq, Structural, Clone, Copy)]
pub enum RateLimit {
    /// The service did not answer successfully; requests go ahead.
    Unchecked,
    /// Requests left, and when the quota resets (Unix time).
    Available { remaining: u64, reset: u64 },
}

/// The quota from the reported `remaining` and `reset` fields: a missing
/// count counts as one request left, a missing reset time as zero. No
/// request left is an error that carries the reset time.
pub open spec fn rate_limit_of(remaining: Option<u64>, reset: Option<u64>) -> Result<RateLimit, InstallError> {
    let n = match remaining {
        Some(n) => n,
        None => 1,
    };
    let t = match reset {
        Some(t) => t,
        None => 0,
    };
    if n > 0 {
        Ok(RateLimit::Available { remaining: n, reset: t })
    } else {
        Err(InstallError::RateLimited { reset: t })
    }
}

/// The quota from the reported fields; see `rate_limit_of`.
pub fn rate_limit_from_fields(remaining: Option<u64>, reset: Option<u64>) -> (r: Result<
    RateLimit,
    InstallError,
>)
    ensures
        r == rate_limit_of(remaining, reset),
{
    let n = match remaining {
        Some(n) => n,
        None => 1,
    };
    let t = match reset {
        Some(t) => t,
        None => 0,
    };
    if n > 0 {
        Ok(RateLimit::Available { remaining: n, reset: t })
    } else {
        Err(InstallError::RateLimited { reset: t })
    }
}

/// Reads an answer of the rate-limit service: an unsuccessful status leaves
/// the quota unchecked; a body that is not JSON is an error; else the
/// `rate.remaining` and `rate.reset` fields decide.
pub fn check_rate_limit(status_ok: bool, body: &str) -> (r: Result<RateLimit, InstallError>)
    ensures
        !status_ok ==> r == Ok::<RateLimit, InstallError>(RateLimit::Unchecked),
        status_ok && !json_accepts(body@) ==> r == Err::<RateLimit, InstallError>(
            InstallError::UnexpectedResponse,
        ),
        status_ok && json_accepts(body@) ==> r == rate_limit_of(
            json_u64_field(body@, "rate"@, "remaining"@),
            json_u64_field(body@, "rate"@, "reset"@),
        ),
{
    if !status_ok {
        return Ok(RateLimit::Unchecked);
    }
    if !parse_json(body) {
        return Err(InstallError::UnexpectedResponse);
    }
    let remaining = json_u64_at(body, "rate", "remaining");
    let reset = json_u64_at(body, "rate", "reset");
    rate_limit_from_fields(remaining, reset)
}

} // verus!
