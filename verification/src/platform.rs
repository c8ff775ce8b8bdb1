//! The systems that the program runs on, and what differs between them.
use crate::text::{lossy_text, lossy_utf8, same, str_opt, texts, trim, trimmed};
use vstd::prelude::*;

verus! {

/// The operating systems that are told apart.
#[derive(Clone, Copy, PartialEq, Eq, Structural)]
pub enum Os {
    Windows,
    MacOs,
    Other,
}

/// The processor architectures that are told apart.
#[derive(Clone, Copy, PartialEq, Eq, Structural)]
pub enum Arch {
    Aarch64,
    X86_64,
    Other,
}

/// The system that the program was built for.
#[derive(Clone, Copy, PartialEq, Eq, Structural)]
pub struct Platform {
    pub os: Os,
    pub arch: Arch,
}

/// The directories below which the program keeps its files.
#[derive(Clone, Copy, PartialEq, Eq, Structural)]
pub enum Root {
    /// The directory for the data of the program.
    AppData,
    /// The directory of the files that came with the program.
    Resources,
}

/// A place in the file system: the names that lead to it from a root.
pub struct Location {
    pub root: Root,
    pub parts: Vec<String>,
}

/// What a `Location` holds.
#[verifier::ext_equal]
pub struct LocationView {
    pub root: Root,
    pub parts: Seq<Seq<char>>,
}

impl View for Location {
    type V = LocationView;

    open spec fn view(&self) -> LocationView {
        LocationView { root: self.root, parts: texts(self.parts@) }
    }
}

/// The place `name` inside the place `l`.
pub open spec fn below(l: LocationView, name: Seq<char>) -> LocationView {
    LocationView { root: l.root, parts: l.parts.push(name) }
}

/// The root itself.
pub open spec fn at_root(root: Root) -> LocationView {
    LocationView { root, parts: seq![] }
}

/// The directory of the program's own data.
pub open spec fn data_place() -> LocationView {
    below(at_root(Root::AppData), "videograb"@)
}

/// Where the download history is kept between sessions.
pub open spec fn history_place() -> LocationView {
    below(data_place(), "history.json"@)
}

/// Where the settings are kept between sessions.
pub open spec fn settings_place() -> LocationView {
    below(data_place(), "settings.json"@)
}

/// Where thumbnails and metadata files are kept.
pub open spec fn media_place() -> LocationView {
    below(data_place(), "media"@)
}

/// The directory of the bundled binaries.
pub open spec fn bundle_place() -> LocationView {
    below(at_root(Root::Resources), "resources"@)
}

/// The contents of a list of places.
pub open spec fn places(v: Seq<Location>) -> Seq<LocationView> {
    v.map_values(|l: Location| l@)
}

/// The name of the release file for a platform.
pub open spec fn asset_name(p: Platform) -> Seq<char> {
    if p.os == Os::Windows {
        "yt-dlp.exe"@
    } else if p.arch == Arch::Aarch64 {
        "yt-dlp_aarch64"@
    } else if p.os == Os::MacOs {
        "yt-dlp_macos"@
    } else {
        "yt-dlp"@
    }
}

/// The name of the bundled ffmpeg for a processor, outside Windows.
pub open spec fn ffmpeg_slice(arm64: bool) -> Seq<char> {
    if arm64 {
        "ffmpeg-bundled-arm64"@
    } else {
        "ffmpeg-bundled-x64"@
    }
}

/// The name of the bundled ffmpeg for a platform.
pub open spec fn ffmpeg_resource(p: Platform) -> Seq<char> {
    if p.os == Os::Windows {
        "ffmpeg-bundled.exe"@
    } else {
        ffmpeg_slice(p.arch == Arch::Aarch64)
    }
}

/// The name of the bundled yt-dlp for a platform.
pub open spec fn ytdlp_resource(p: Platform) -> Seq<char> {
    if p.os == Os::Windows {
        "yt-dlp-bundled.exe"@
    } else {
        "yt-dlp-bundled"@
    }
}

/// Where the program keeps its copy of yt-dlp.
pub open spec fn ytdlp_place(p: Platform) -> LocationView {
    below(
        data_place(),
        if p.os == Os::Windows {
            "yt-dlp.exe"@
        } else {
            "yt-dlp"@
        },
    )
}

/// Where the program keeps its copy of ffmpeg.
pub open spec fn ffmpeg_place(p: Platform) -> LocationView {
    below(
        data_place(),
        if p.os == Os::Windows {
            "ffmpeg.exe"@
        } else {
            "ffmpeg"@
        },
    )
}

/// The root as a place.
fn root_of(root: Root) -> (r: Location)
    ensures
        r@ == at_root(root),
{
    let r = Location { root, parts: Vec::new() };
    assert(texts(r.parts@) =~= seq![]);
    r
}

/// The place `name` inside the place `l`.
fn inside(l: Location, name: &str) -> (r: Location)
    ensures
        r@ == below(l@, name@),
{
    let mut parts = l.parts;
    let ghost before = parts@;
    parts.push(name.to_owned());
    assert(texts(parts@) =~= texts(before).push(name@));
    Location { root: l.root, parts }
}

/// The name of the release file for a platform.
pub fn release_asset_name(p: Platform) -> (r: &'static str)
    ensures
        r@ == asset_name(p),
{
    if p.os == Os::Windows {
        "yt-dlp.exe"
    } else if p.arch == Arch::Aarch64 {
        "yt-dlp_aarch64"
    } else if p.os == Os::MacOs {
        "yt-dlp_macos"
    } else {
        "yt-dlp"
    }
}

/// The name of the bundled ffmpeg for a platform.
pub fn bundled_ffmpeg_resource_name(p: Platform) -> (r: &'static str)
    ensures
        r@ == ffmpeg_resource(p),
{
    if p.os == Os::Windows {
        "ffmpeg-bundled.exe"
    } else if p.arch == Arch::Aarch64 {
        "ffmpeg-bundled-arm64"
    } else {
        "ffmpeg-bundled-x64"
    }
}

/// The name of the bundled yt-dlp for a platform.
pub fn bundled_resource_name(p: Platform) -> (r: &'static str)
    ensures
        r@ == ytdlp_resource(p),
{
    if p.os == Os::Windows {
        "yt-dlp-bundled.exe"
    } else {
        "yt-dlp-bundled"
    }
}

/// The directory of the program's own data.
pub fn data_dir() -> (r: Location)
    ensures
        r@ == data_place(),
{
    inside(root_of(Root::AppData), "videograb")
}

/// Where the download history is kept between sessions.
pub fn history_path() -> (r: Location)
    ensures
        r@ == history_place(),
{
    inside(data_dir(), "history.json")
}

/// Where the settings are kept between sessions.
pub fn settings_path() -> (r: Location)
    ensures
        r@ == settings_place(),
{
    inside(data_dir(), "settings.json")
}

/// Where thumbnails and metadata files are kept.
pub fn app_thumb_dir() -> (r: Location)
    ensures
        r@ == media_place(),
{
    inside(data_dir(), "media")
}

/// Where the program keeps its copy of yt-dlp.
pub fn yt_dlp_path(p: Platform) -> (r: Location)
    ensures
        r@ == ytdlp_place(p),
{
    if p.os == Os::Windows {
        inside(data_dir(), "yt-dlp.exe")
    } else {
        inside(data_dir(), "yt-dlp")
    }
}

/// Where the program keeps its copy of ffmpeg, which yt-dlp uses to join
/// separate video and audio streams.
pub fn ffmpeg_path(p: Platform) -> (r: Location)
    ensures
        r@ == ffmpeg_place(p),
{
    if p.os == Os::Windows {
        inside(data_dir(), "ffmpeg.exe")
    } else {
        inside(data_dir(), "ffmpeg")
    }
}

/// Where the bundled yt-dlp lies.
pub fn bundled_resource_path(p: Platform) -> (r: Location)
    ensures
        r@ == below(bundle_place(), ytdlp_resource(p)),
{
    inside(inside(root_of(Root::Resources), "resources"), bundled_resource_name(p))
}

/// Where the bundled yt-dlp lies when the program runs from its sources.
pub fn root_resource_path(p: Platform) -> (r: Location)
    ensures
        r@ == below(at_root(Root::Resources), ytdlp_resource(p)),
{
    inside(root_of(Root::Resources), bundled_resource_name(p))
}

/// Where the bundled ffmpeg lies when the program runs from its sources.
pub fn root_ffmpeg_path(p: Platform) -> (r: Location)
    ensures
        r@ == below(at_root(Root::Resources), ffmpeg_resource(p)),
{
    inside(root_of(Root::Resources), bundled_ffmpeg_resource_name(p))
}

/// A command that tells the architecture of the running machine.
pub struct Probe {
    pub program: &'static str,
    pub args: Vec<&'static str>,
}

/// What a `Probe` holds.
pub open spec fn probe_view(p: Option<Probe>) -> Option<(Seq<char>, Seq<Seq<char>>)> {
    match p {
        Some(p) => Some((p.program@, p.args@.map_values(|a: &'static str| a@))),
        None => None,
    }
}

/// The command that tells the architecture of the running machine.
pub open spec fn probe_for(p: Platform) -> Option<(Seq<char>, Seq<Seq<char>>)> {
    if p.os == Os::MacOs {
        Some(("sysctl"@, seq!["-n"@, "hw.optional.arm64"@]))
    } else if p.arch == Arch::X86_64 {
        Some(("uname"@, seq!["-m"@]))
    } else {
        None
    }
}

/// Chooses the command that tells the architecture of the running machine, for
/// the platforms on which it may differ from the one the program was built
/// for.
pub fn arch_probe(p: Platform) -> (r: Option<Probe>)
    ensures
        probe_view(r) == probe_for(p),
{
    if p.os == Os::MacOs {
        let mut args: Vec<&'static str> = Vec::new();
        args.push("-n");
        args.push("hw.optional.arm64");
        assert(args@.map_values(|a: &'static str| a@) =~= seq!["-n"@, "hw.optional.arm64"@]);
        Some(Probe { program: "sysctl", args })
    } else if p.arch == Arch::X86_64 {
        let mut args: Vec<&'static str> = Vec::new();
        args.push("-m");
        assert(args@.map_values(|a: &'static str| a@) =~= seq!["-m"@]);
        Some(Probe { program: "uname", args })
    } else {
        None
    }
}

/// Whether the running machine has a 64-bit ARM processor, where `reply` is
/// what the command of `arch_probe` printed.
pub open spec fn arm64_host(p: Platform, reply: Option<Seq<char>>) -> bool {
    match reply {
        Some(t) if p.os == Os::MacOs => trimmed(t) == "1"@,
        Some(t) if p.arch == Arch::X86_64 => trimmed(t) == "aarch64"@,
        _ => p.arch == Arch::Aarch64,
    }
}

/// The text of a reply in bytes.
pub open spec fn reply_text(reply: Option<&[u8]>) -> Option<Seq<char>> {
    match reply {
        Some(b) => Some(lossy_utf8(b@)),
        None => None,
    }
}

/// Decides whether the running machine has a 64-bit ARM processor, where
/// `reply` is what the command of `arch_probe` printed, if it could be run.
pub fn host_is_arm64(p: Platform, reply: Option<&[u8]>) -> (r: bool)
    ensures
        r == arm64_host(p, reply_text(reply)),
{
    match reply {
        Some(bytes) => {
            let text = lossy_text(bytes);
            arm64_from_text(p, Some(text.as_str()))
        },
        None => arm64_from_text(p, None),
    }
}

/// Decides whether the running machine has a 64-bit ARM processor from the
/// text that the command of `arch_probe` printed.
pub fn arm64_from_text(p: Platform, reply: Option<&str>) -> (r: bool)
    ensures
        r == arm64_host(p, str_opt(reply)),
{
    match reply {
        Some(t) => if p.os == Os::MacOs {
            same(trim(t), "1")
        } else if p.arch == Arch::X86_64 {
            same(trim(t), "aarch64")
        } else {
            p.arch == Arch::Aarch64
        },
        None => p.arch == Arch::Aarch64,
    }
}

/// The places to look for a bundled ffmpeg, best first: the one for the
/// running machine, the one for the platform of the build and, outside
/// Windows, the Windows build where it is there.
pub open spec fn ffmpeg_places(p: Platform, arm64: bool, windows_build: bool) -> Seq<LocationView> {
    let primary = below(bundle_place(), ffmpeg_resource(p));
    (if ffmpeg_slice(arm64) == ffmpeg_resource(p) {
        seq![]
    } else {
        seq![below(bundle_place(), ffmpeg_slice(arm64))]
    }) + seq![primary] + (if p.os != Os::Windows && windows_build {
        seq![below(bundle_place(), "ffmpeg-bundled.exe"@)]
    } else {
        seq![]
    })
}

/// The ffmpeg for the running machine is looked for first, and the one for the
/// platform of the build is looked for in any case.
pub proof fn running_machine_comes_first(p: Platform, arm64: bool, windows_build: bool)
    ensures
        ffmpeg_places(p, arm64, windows_build).len() > 0,
        ffmpeg_places(p, arm64, windows_build)[0] == below(bundle_place(), ffmpeg_slice(arm64)),
        ffmpeg_places(p, arm64, windows_build).contains(below(bundle_place(), ffmpeg_resource(p))),
{
    let places = ffmpeg_places(p, arm64, windows_build);
    let k: int = if ffmpeg_slice(arm64) == ffmpeg_resource(p) {
        0
    } else {
        1
    };
    assert(places[k] == below(bundle_place(), ffmpeg_resource(p)));
}

/// The name of the bundled ffmpeg for a processor, outside Windows.
fn slice_name(arm64: bool) -> (r: &'static str)
    ensures
        r@ == ffmpeg_slice(arm64),
{
    if arm64 {
        "ffmpeg-bundled-arm64"
    } else {
        "ffmpeg-bundled-x64"
    }
}

/// A file among the bundled binaries.
fn bundled(name: &str) -> (r: Location)
    ensures
        r@ == below(bundle_place(), name@),
{
    inside(inside(root_of(Root::Resources), "resources"), name)
}

/// Where the Windows build of ffmpeg would lie among the bundled binaries.
pub fn windows_ffmpeg_path() -> (r: Location)
    ensures
        r@ == below(bundle_place(), "ffmpeg-bundled.exe"@),
{
    bundled("ffmpeg-bundled.exe")
}

/// Lists the places to look for a bundled ffmpeg, best first. `arm64` tells
/// about the running machine, `windows_build` whether there is a file at
/// `windows_ffmpeg_path`.
pub fn bundled_ffmpeg_candidate_paths(p: Platform, arm64: bool, windows_build: bool) -> (r: Vec<
    Location,
>)
    ensures
        places(r@) == ffmpeg_places(p, arm64, windows_build),
{
    let mut r: Vec<Location> = Vec::new();
    if !same(slice_name(arm64), bundled_ffmpeg_resource_name(p)) {
        r.push(bundled(slice_name(arm64)));
    }
    r.push(bundled(bundled_ffmpeg_resource_name(p)));
    if p.os != Os::Windows && windows_build {
        r.push(windows_ffmpeg_path());
    }
    assert(places(r@) =~= ffmpeg_places(p, arm64, windows_build));
    r
}

/// Which file of a release is for which platform: Windows has one of its own,
/// then every ARM machine, then macOS, and all else shares one.
pub proof fn release_files_are_told_apart(p: Platform)
    ensures
        p.os == Os::Windows ==> asset_name(p) == "yt-dlp.exe"@,
        p.os != Os::Windows && p.arch == Arch::Aarch64 ==> asset_name(p) == "yt-dlp_aarch64"@,
        p.os == Os::MacOs && p.arch != Arch::Aarch64 ==> asset_name(p) == "yt-dlp_macos"@,
        p.os == Os::Other && p.arch != Arch::Aarch64 ==> asset_name(p) == "yt-dlp"@,
{
}

/// Which bundled binaries are for which platform.
pub proof fn bundled_files_are_told_apart(p: Platform)
    ensures
        p.os == Os::Windows ==> ffmpeg_resource(p) == "ffmpeg-bundled.exe"@,
        p.os != Os::Windows && p.arch == Arch::Aarch64 ==> ffmpeg_resource(p)
            == "ffmpeg-bundled-arm64"@,
        p.os != Os::Windows && p.arch != Arch::Aarch64 ==> ffmpeg_resource(p)
            == "ffmpeg-bundled-x64"@,
        p.os == Os::Windows ==> ytdlp_resource(p) == "yt-dlp-bundled.exe"@,
        p.os != Os::Windows ==> ytdlp_resource(p) == "yt-dlp-bundled"@,
        ffmpeg_slice(true) == "ffmpeg-bundled-arm64"@,
        ffmpeg_slice(false) == "ffmpeg-bundled-x64"@,
{
}

/// Where everything lies: the data of the program in a directory of its own,
/// the bundled files in another, and each place one step below its directory.
pub proof fn places_lie_where_they_should(p: Platform, l: LocationView, name: Seq<char>)
    ensures
        data_place() == (LocationView { root: Root::AppData, parts: seq!["videograb"@] }),
        bundle_place() == (LocationView { root: Root::Resources, parts: seq!["resources"@] }),
        at_root(l.root) == (LocationView { root: l.root, parts: seq![] }),
        below(l, name).root == l.root,
        below(l, name).parts == l.parts + seq![name],
        p.os == Os::Windows ==> ytdlp_place(p) == below(data_place(), "yt-dlp.exe"@)
            && ffmpeg_place(p) == below(data_place(), "ffmpeg.exe"@),
        p.os != Os::Windows ==> ytdlp_place(p) == below(data_place(), "yt-dlp"@) && ffmpeg_place(p)
            == below(data_place(), "ffmpeg"@),
{
    assert(data_place().parts =~= seq!["videograb"@]);
    assert(bundle_place().parts =~= seq!["resources"@]);
    assert(below(l, name).parts =~= l.parts + seq![name]);
}

/// The running machine is taken for what it says of itself, and for what the
/// program was built for where it says nothing or is not asked.
pub proof fn machines_are_believed(p: Platform, reply: Seq<char>)
    ensures
        p.os == Os::MacOs ==> arm64_host(p, Some(reply)) == (trimmed(reply) == "1"@),
        p.os != Os::MacOs && p.arch == Arch::X86_64 ==> arm64_host(p, Some(reply)) == (trimmed(
            reply,
        ) == "aarch64"@),
        p.os != Os::MacOs && p.arch != Arch::X86_64 ==> arm64_host(p, Some(reply)) == (p.arch
            == Arch::Aarch64),
        arm64_host(p, None) == (p.arch == Arch::Aarch64),
{
}

/// The places to look for ffmpeg are these and no others: the slice for the
/// running machine, the one for the build where it is another, and last the
/// Windows build, outside Windows and where it is there.
pub proof fn ffmpeg_is_looked_for_here(p: Platform, arm64: bool, windows_build: bool)
    ensures
        ({
            let slice = below(
                bundle_place(),
                if arm64 {
                    "ffmpeg-bundled-arm64"@
                } else {
                    "ffmpeg-bundled-x64"@
                },
            );
            let built = below(
                bundle_place(),
                if p.os == Os::Windows {
                    "ffmpeg-bundled.exe"@
                } else if p.arch == Arch::Aarch64 {
                    "ffmpeg-bundled-arm64"@
                } else {
                    "ffmpeg-bundled-x64"@
                },
            );
            let spare = below(bundle_place(), "ffmpeg-bundled.exe"@);
            let all = ffmpeg_places(p, arm64, windows_build);
            let last = p.os != Os::Windows && windows_build;
            let same = p.os != Os::Windows && arm64 == (p.arch == Arch::Aarch64);
            &&& same && !last ==> all == seq![slice]
            &&& same && last ==> all == seq![slice, spare]
            &&& !same && !last ==> all == seq![slice, built]
            &&& !same && last ==> all == seq![slice, built, spare]
        }),
{
    reveal_strlit("ffmpeg-bundled-arm64");
    reveal_strlit("ffmpeg-bundled-x64");
    reveal_strlit("ffmpeg-bundled.exe");
    assert("ffmpeg-bundled-arm64"@.len() != "ffmpeg-bundled-x64"@.len());
    assert("ffmpeg-bundled-arm64"@.len() != "ffmpeg-bundled.exe"@.len());
    assert("ffmpeg-bundled-x64"@[14] != "ffmpeg-bundled.exe"@[14]);
    let all = ffmpeg_places(p, arm64, windows_build);
    let slice = below(bundle_place(), ffmpeg_slice(arm64));
    let built = below(bundle_place(), ffmpeg_resource(p));
    let spare = below(bundle_place(), "ffmpeg-bundled.exe"@);
    assert(all =~= seq![slice] || all =~= seq![slice, spare] || all =~= seq![slice, built] || all
        =~= seq![slice, built, spare]);
}

/// The files of the program lie in its data directory, under these names.
pub proof fn files_lie_in_the_data_directory()
    ensures
        history_place() == (LocationView {
            root: Root::AppData,
            parts: seq!["videograb"@, "history.json"@],
        }),
        settings_place() == (LocationView {
            root: Root::AppData,
            parts: seq!["videograb"@, "settings.json"@],
        }),
        media_place() == (LocationView {
            root: Root::AppData,
            parts: seq!["videograb"@, "media"@],
        }),
{
    assert(history_place().parts =~= seq!["videograb"@, "history.json"@]);
    assert(settings_place().parts =~= seq!["videograb"@, "settings.json"@]);
    assert(media_place().parts =~= seq!["videograb"@, "media"@]);
}

/// Machines are asked where a program can run on another processor than it was
/// built for: on macOS always, elsewhere where it was built for x86-64.
pub proof fn machines_are_asked(p: Platform)
    ensures
        p.os == Os::MacOs ==> probe_for(p) == Some(
            ("sysctl"@, seq!["-n"@, "hw.optional.arm64"@]),
        ),
        p.os != Os::MacOs && p.arch == Arch::X86_64 ==> probe_for(p) == Some(
            ("uname"@, seq!["-m"@]),
        ),
        p.os != Os::MacOs && p.arch != Arch::X86_64 ==> probe_for(p) is None,
{
}

} // verus!
