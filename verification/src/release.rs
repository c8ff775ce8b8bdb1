//! The release of yt-dlp that its publisher offers.
use crate::platform::{asset_name, release_asset_name, Platform};
use crate::text::{cat, cat3, same};
use vstd::prelude::*;

verus! {

/// One file of a release.
#[derive(Debug)]
pub struct GhAsset {
    pub name: String,
    pub browser_download_url: String,
}

/// A release with its files.
#[derive(Debug)]
pub struct GhRelease {
    pub tag_name: String,
    pub assets: Vec<GhAsset>,
}

/// The request that asks for the newest release.
pub struct ReleaseRequest {
    pub url: &'static str,
    pub user_agent: &'static str,
    pub accept: &'static str,
}

/// Names and addresses of the files of a release.
pub open spec fn files(assets: Seq<GhAsset>) -> Seq<(Seq<char>, Seq<char>)> {
    assets.map_values(|a: GhAsset| (a.name@, a.browser_download_url@))
}

/// The address of the first file from `i` on that has the given name.
pub open spec fn address_from(
    files: Seq<(Seq<char>, Seq<char>)>,
    name: Seq<char>,
    i: int,
) -> Option<Seq<char>>
    decreases files.len() - i,
{
    if i < 0 || i >= files.len() {
        None
    } else if files[i].0 == name {
        Some(files[i].1)
    } else {
        address_from(files, name, i + 1)
    }
}

/// The address of the file of a release for a platform.
pub open spec fn asset_address(rel: GhRelease, p: Platform) -> Option<Seq<char>> {
    address_from(files(rel.assets@), asset_name(p), 0)
}

/// An address is found exactly where there is a file of that name, and it is
/// the address of such a file.
pub proof fn address_is_of_the_name(
    files: Seq<(Seq<char>, Seq<char>)>,
    name: Seq<char>,
    i: int,
)
    requires
        0 <= i,
    ensures
        match address_from(files, name, i) {
            Some(url) => exists|k: int|
                i <= k < files.len() && (#[trigger] files[k]).0 == name && files[k].1 == url,
            None => forall|k: int| i <= k < files.len() ==> (#[trigger] files[k]).0 != name,
        },
    decreases files.len() - i,
{
    if i < files.len() {
        if files[i].0 != name {
            address_is_of_the_name(files, name, i + 1);
        }
    }
}

/// The request that asks for the newest release.
pub fn release_request() -> (r: ReleaseRequest)
    ensures
        r.url@ == "https://api.github.com/repos/yt-dlp/yt-dlp/releases/latest"@,
        r.user_agent@ == "VideoGrab/1.0"@,
        r.accept@ == "application/vnd.github+json"@,
{
    ReleaseRequest {
        url: "https://api.github.com/repos/yt-dlp/yt-dlp/releases/latest",
        user_agent: "VideoGrab/1.0",
        accept: "application/vnd.github+json",
    }
}

/// What came back when the newest release was asked for.
pub enum ReleaseReply {
    /// The publisher answered with a status other than success.
    Refused { status: String },
    /// The request failed, or its answer could not be read.
    Failed { reason: String },
    /// The release.
    Release { release: GhRelease },
}

/// The message of a reply that brought no release.
pub open spec fn reply_error(reply: ReleaseReply) -> Option<Seq<char>> {
    match reply {
        ReleaseReply::Refused { status } => Some("GitHub API returned "@ + status@),
        ReleaseReply::Failed { reason } => Some(reason@),
        ReleaseReply::Release { .. } => None,
    }
}

/// The release in a reply.
pub open spec fn reply_release(reply: ReleaseReply) -> GhRelease {
    reply->release
}

/// The message where a release has no file for a platform.
pub open spec fn no_asset_error(p: Platform) -> Seq<char> {
    "asset "@ + asset_name(p) + " not found in release"@
}

/// Takes the release out of a reply.
pub fn read_reply(reply: ReleaseReply) -> (r: Result<GhRelease, String>)
    ensures
        match r {
            Ok(release) => reply_error(reply) is None && release == reply_release(reply),
            Err(e) => reply_error(reply) == Some(e@),
        },
{
    match reply {
        ReleaseReply::Refused { status } => Err(cat("GitHub API returned ", status.as_str())),
        ReleaseReply::Failed { reason } => Err(reason),
        ReleaseReply::Release { release } => Ok(release),
    }
}

/// Tells the version of the newest release.
pub fn fetch_latest_ytdlp_version(reply: ReleaseReply) -> (r: Result<String, String>)
    ensures
        match r {
            Ok(version) => reply_error(reply) is None && version@ == reply_release(
                reply,
            ).tag_name@,
            Err(e) => reply_error(reply) == Some(e@),
        },
{
    match read_reply(reply) {
        Ok(release) => Ok(release.tag_name),
        Err(e) => Err(e),
    }
}

/// Finds the address of the file for a platform in a release.
pub fn find_asset(rel: &GhRelease, p: Platform) -> (r: Result<String, String>)
    ensures
        match r {
            Ok(url) => asset_address(*rel, p) == Some(url@),
            Err(e) => asset_address(*rel, p) is None && e@ == no_asset_error(p),
        },
{
    let wanted = release_asset_name(p);
    let mut i: usize = 0;
    while i < rel.assets.len()
        invariant
            i <= rel.assets@.len(),
            wanted@ == asset_name(p),
            asset_address(*rel, p) == address_from(files(rel.assets@), wanted@, i as int),
        decreases rel.assets@.len() - i,
    {
        if same(rel.assets[i].name.as_str(), wanted) {
            return Ok(rel.assets[i].browser_download_url.clone());
        }
        i += 1;
    }
    Err(cat3("asset ", wanted, " not found in release"))
}

/// The download that brings a release to this platform.
pub struct UpdatePlan {
    pub url: String,
    pub version: String,
}

/// Decides what to download to bring yt-dlp to the newest release, and which
/// version it then has.
pub fn update_ytdlp(reply: ReleaseReply, p: Platform) -> (r: Result<UpdatePlan, String>)
    ensures
        match r {
            Ok(plan) => {
                &&& reply_error(reply) is None
                &&& asset_address(reply_release(reply), p) == Some(plan.url@)
                &&& plan.version@ == reply_release(reply).tag_name@
            },
            Err(e) => if reply_error(reply) is Some {
                reply_error(reply) == Some(e@)
            } else {
                asset_address(reply_release(reply), p) is None && e@ == no_asset_error(p)
            },
        },
{
    match read_reply(reply) {
        Ok(release) => match find_asset(&release, p) {
            Ok(url) => Ok(UpdatePlan { url, version: release.tag_name }),
            Err(e) => Err(e),
        },
        Err(e) => Err(e),
    }
}

/// The address that is found is that of the first file with the name, and one
/// is found wherever there is one.
pub proof fn first_file_of_the_name_is_taken(
    before: Seq<(Seq<char>, Seq<char>)>,
    name: Seq<char>,
    url: Seq<char>,
    after: Seq<(Seq<char>, Seq<char>)>,
)
    requires
        forall|k: int| 0 <= k < before.len() ==> (#[trigger] before[k]).0 != name,
    ensures
        address_from(before + seq![(name, url)] + after, name, 0) == Some(url),
        address_from(before, name, 0) is None,
{
    address_behind(before, name, url, after, 0);
    address_is_of_the_name(before, name, 0);
}

proof fn address_behind(
    before: Seq<(Seq<char>, Seq<char>)>,
    name: Seq<char>,
    url: Seq<char>,
    after: Seq<(Seq<char>, Seq<char>)>,
    i: int,
)
    requires
        0 <= i <= before.len(),
        forall|k: int| 0 <= k < before.len() ==> (#[trigger] before[k]).0 != name,
    ensures
        address_from(before + seq![(name, url)] + after, name, i) == Some(url),
    decreases before.len() - i,
{
    let all = before + seq![(name, url)] + after;
    if i < before.len() {
        assert(all[i] == before[i]);
        address_behind(before, name, url, after, i + 1);
    } else {
        assert(all[i] == (name, url));
    }
}

/// A reply that brings no release brings a message: the status where it was
/// refused, and the reason where it failed.
pub proof fn replies_tell_what_went_wrong(status: String, reason: String, release: GhRelease)
    ensures
        reply_error(ReleaseReply::Refused { status }) == Some("GitHub API returned "@ + status@),
        reply_error(ReleaseReply::Failed { reason }) == Some(reason@),
        reply_error(ReleaseReply::Release { release }) is None,
        reply_release(ReleaseReply::Release { release }) == release,
{
}

/// The message where a release has no file for a platform names the file, and
/// the file that is looked for is the one for the platform.
pub proof fn missing_file_is_named(rel: GhRelease, p: Platform)
    ensures
        no_asset_error(p) == "asset "@ + asset_name(p) + " not found in release"@,
        asset_address(rel, p) == address_from(files(rel.assets@), asset_name(p), 0),
{
}

} // verus!
