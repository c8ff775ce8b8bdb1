//! Where the tools that the program runs are taken from.
use crate::media::{first_existing, first_found, first_found_is_first};
use crate::platform::{
    at_root, below, bundle_place, bundled_ffmpeg_candidate_paths, bundled_resource_path,
    ffmpeg_places, ffmpeg_resource, places, root_ffmpeg_path, root_resource_path, yt_dlp_path,
    ytdlp_place, ytdlp_resource, Location, LocationView, Platform, Root,
};
use crate::text::cat;
use vstd::prelude::*;

verus! {

/// A tool is in place: its file is there and is not a stump.
pub open spec fn in_place(exists: bool, size: Option<u64>) -> bool {
    exists && (size matches Some(n) && n > 1000)
}

/// Tells whether a tool is in place: its file is there and is not a stump.
/// `size` is the size of the file, if it could be asked for.
pub fn is_installed(exists: bool, size: Option<u64>) -> (r: bool)
    ensures
        r == in_place(exists, size),
{
    exists && match size {
        Some(n) => n > 1000,
        None => false,
    }
}

/// What is to be done to have a tool in place.
pub enum InstallStep {
    /// Nothing: it is there.
    Ready,
    /// Copy it from this place.
    CopyFrom { source: Location },
    /// It does not come with the program.
    Missing,
}

/// What an `InstallStep` holds.
#[verifier::ext_equal]
pub enum StepView {
    Ready,
    CopyFrom { source: LocationView },
    Missing,
}

impl View for InstallStep {
    type V = StepView;

    open spec fn view(&self) -> StepView {
        match *self {
            InstallStep::Ready => StepView::Ready,
            InstallStep::CopyFrom { source } => StepView::CopyFrom { source: source@ },
            InstallStep::Missing => StepView::Missing,
        }
    }
}

/// The places to look for a bundled yt-dlp, best first.
pub open spec fn ytdlp_sources(p: Platform) -> Seq<LocationView> {
    seq![
        below(bundle_place(), ytdlp_resource(p)),
        below(at_root(Root::Resources), ytdlp_resource(p)),
    ]
}

/// The places to look for a bundled ffmpeg, best first. `windows_build` tells
/// whether there is a file at `windows_ffmpeg_path` and `at_root_too` whether
/// there is one at `root_ffmpeg_path`.
pub open spec fn ffmpeg_sources(
    p: Platform,
    arm64: bool,
    windows_build: bool,
    at_root_too: bool,
) -> Seq<LocationView> {
    ffmpeg_places(p, arm64, windows_build) + (if at_root_too {
        seq![below(at_root(Root::Resources), ffmpeg_resource(p))]
    } else {
        seq![]
    })
}

/// What is to be done to have a tool in place, where `found` tells which of
/// the sources are there.
pub open spec fn step_for(
    installed: bool,
    sources: Seq<LocationView>,
    found: Seq<bool>,
) -> StepView {
    if installed {
        StepView::Ready
    } else {
        match first_found(found, 0) {
            Some(k) => StepView::CopyFrom { source: sources[k] },
            None => StepView::Missing,
        }
    }
}

/// Decides what is to be done to have a tool in place.
pub fn install_step(installed: bool, sources: Vec<Location>, found: &Vec<bool>) -> (r: InstallStep)
    requires
        found@.len() <= sources@.len(),
    ensures
        r@ == step_for(installed, places(sources@), found@),
{
    if installed {
        return InstallStep::Ready;
    }
    proof {
        first_found_is_first(found@, 0);
    }
    match first_existing(found) {
        Some(k) => {
            let mut sources = sources;
            let ghost all = sources@;
            let source = sources.swap_remove(k);
            assert(places(all)[k as int] == source@);
            InstallStep::CopyFrom { source }
        },
        None => InstallStep::Missing,
    }
}

/// Lists the places to look for a bundled yt-dlp, best first.
pub fn ytdlp_source_paths(p: Platform) -> (r: Vec<Location>)
    ensures
        places(r@) == ytdlp_sources(p),
{
    let mut r: Vec<Location> = Vec::new();
    r.push(bundled_resource_path(p));
    r.push(root_resource_path(p));
    assert(places(r@) =~= ytdlp_sources(p));
    r
}

/// Lists the places to look for a bundled ffmpeg, best first.
pub fn ffmpeg_source_paths(p: Platform, arm64: bool, windows_build: bool, at_root_too: bool) -> (r:
    Vec<Location>)
    ensures
        places(r@) == ffmpeg_sources(p, arm64, windows_build, at_root_too),
{
    let mut r = bundled_ffmpeg_candidate_paths(p, arm64, windows_build);
    let ghost before = r@;
    if at_root_too {
        r.push(root_ffmpeg_path(p));
        assert(places(r@) =~= places(before) + seq![
            below(at_root(Root::Resources), ffmpeg_resource(p)),
        ]);
    } else {
        assert(places(r@) =~= places(before) + seq![]);
    }
    r
}

/// Decides what is to be done to have yt-dlp in place, where `found` tells
/// which of the places of `ytdlp_source_paths` hold it. Where it does not come
/// with the program it is to be downloaded.
pub fn ensure_bundled_ytdlp(p: Platform, installed: bool, found: &Vec<bool>) -> (r: InstallStep)
    requires
        found@.len() == 2,
    ensures
        r@ == step_for(installed, ytdlp_sources(p), found@),
{
    let sources = ytdlp_source_paths(p);
    assert(places(sources@).len() == 2);
    install_step(installed, sources, found)
}

/// Decides what is to be done to have ffmpeg in place, where `found` tells
/// which of the places of `ffmpeg_source_paths` hold it. It is not needed:
/// where it does not come with the program, streams are not joined.
pub fn ensure_ffmpeg(
    p: Platform,
    arm64: bool,
    windows_build: bool,
    at_root_too: bool,
    installed: bool,
    found: &Vec<bool>,
) -> (r: InstallStep)
    requires
        found@.len() == ffmpeg_sources(p, arm64, windows_build, at_root_too).len(),
    ensures
        r@ == step_for(
            installed,
            ffmpeg_sources(p, arm64, windows_build, at_root_too),
            found@,
        ),
{
    let sources = ffmpeg_source_paths(p, arm64, windows_build, at_root_too);
    assert(places(sources@).len() == sources@.len());
    install_step(installed, sources, found)
}

/// The message where yt-dlp is found neither among the bundled files nor on
/// the network.
pub open spec fn missing_message(reason: Seq<char>) -> Seq<char> {
    "yt-dlp не знайдено ні в ресурсах програми, ні в мережі: "@ + reason
}

/// Writes the message where yt-dlp is found neither among the bundled files nor
/// on the network.
pub fn missing_ytdlp_error(reason: &str) -> (r: String)
    ensures
        r@ == missing_message(reason@),
{
    cat("yt-dlp не знайдено ні в ресурсах програми, ні в мережі: ", reason)
}

/// What is known of a binary that can be asked for its version.
pub open spec fn place_opt(l: Option<Location>) -> Option<LocationView> {
    match l {
        Some(l) => Some(l@),
        None => None,
    }
}

/// The binary that is asked for its version: the installed one, or else the
/// bundled one.
pub open spec fn asked_place(p: Platform, installed: bool, bundled: bool) -> Option<LocationView> {
    if installed {
        Some(ytdlp_place(p))
    } else if bundled {
        Some(below(bundle_place(), ytdlp_resource(p)))
    } else {
        None
    }
}

/// Chooses the binary that is asked for its version: the installed one, or
/// else the bundled one.
pub fn version_source(p: Platform, installed: bool, bundled: bool) -> (r: Option<Location>)
    ensures
        place_opt(r) == asked_place(p, installed, bundled),
{
    if installed {
        Some(yt_dlp_path(p))
    } else if bundled {
        Some(bundled_resource_path(p))
    } else {
        None
    }
}

/// A tool that is in place stays; otherwise it is copied from the first place
/// that has it, and it is missing exactly where no place has it.
pub proof fn tools_come_from_the_first_place(
    sources: Seq<LocationView>,
    found: Seq<bool>,
    k: int,
)
    requires
        found.len() == sources.len(),
    ensures
        step_for(true, sources, found) == StepView::Ready,
        0 <= k < found.len() && found[k] && (forall|j: int| 0 <= j < k ==> !(#[trigger] found[j]))
            ==> step_for(false, sources, found) == (StepView::CopyFrom { source: sources[k] }),
        (forall|j: int| 0 <= j < found.len() ==> !(#[trigger] found[j])) <==> step_for(
            false,
            sources,
            found,
        ) == StepView::Missing,
{
    first_found_is_first(found, 0);
}

/// yt-dlp is looked for among the bundled files and, for a program that runs
/// from its sources, beside them; ffmpeg in the places for it and, where it is
/// there, beside them.
pub proof fn sources_of_the_tools(p: Platform, arm64: bool, windows_build: bool)
    ensures
        ytdlp_sources(p) == seq![
            LocationView {
                root: Root::Resources,
                parts: seq!["resources"@, ytdlp_resource(p)],
            },
            LocationView { root: Root::Resources, parts: seq![ytdlp_resource(p)] },
        ],
        ffmpeg_sources(p, arm64, windows_build, false) == ffmpeg_places(p, arm64, windows_build),
        ffmpeg_sources(p, arm64, windows_build, true) == ffmpeg_places(p, arm64, windows_build).push(
            LocationView { root: Root::Resources, parts: seq![ffmpeg_resource(p)] },
        ),
{
    let name = ytdlp_resource(p);
    assert(below(bundle_place(), name).parts =~= seq!["resources"@, name]);
    assert(below(at_root(Root::Resources), name).parts =~= seq![name]);
    assert(below(at_root(Root::Resources), ffmpeg_resource(p)).parts =~= seq![ffmpeg_resource(p)]);
    assert(ytdlp_sources(p) =~= seq![
        LocationView { root: Root::Resources, parts: seq!["resources"@, name] },
        LocationView { root: Root::Resources, parts: seq![name] },
    ]);
    let all = ffmpeg_places(p, arm64, windows_build);
    assert(ffmpeg_sources(p, arm64, windows_build, false) =~= all);
    assert(ffmpeg_sources(p, arm64, windows_build, true) =~= all.push(
        LocationView { root: Root::Resources, parts: seq![ffmpeg_resource(p)] },
    ));
}

/// A tool is in place exactly if its file is there and has more than a
/// thousand bytes; a file whose size is not known does not count.
pub proof fn stumps_do_not_count(exists: bool, size: Option<u64>, n: u64)
    ensures
        !in_place(false, size),
        !in_place(exists, None),
        in_place(true, Some(n)) <==> n > 1000,
{
}

/// The installed binary is asked for its version, the bundled one only where
/// there is none, and nothing where there is neither.
pub proof fn installed_binary_is_asked_first(p: Platform, bundled: bool)
    ensures
        asked_place(p, true, bundled) == Some(ytdlp_place(p)),
        asked_place(p, false, true) == Some(below(bundle_place(), ytdlp_resource(p))),
        asked_place(p, false, false) is None,
{
}

/// The message of a missing yt-dlp ends with the reason.
pub proof fn missing_message_tells_the_reason(reason: Seq<char>)
    ensures
        missing_message(reason)
            == "yt-dlp не знайдено ні в ресурсах програми, ні в мережі: "@ + reason,
{
}

} // verus!
