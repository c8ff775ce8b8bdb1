//! The command lines and the environment that yt-dlp is run with.
use crate::item::{DownloadItem, ItemView};
use crate::names::{safe_dir, sanitize_dir, save_place};
use crate::output::{
    after_last, after_last_in_front, after_last_is_not_negative, last_part, network_path,
    plain_name,
};
use crate::platform::{Os, Platform};
use crate::text::{cat, cat3, has_part, joined_has_part, same, str_opt, text_opt, texts};
use vstd::prelude::*;
use vstd::utf8::is_ascii_chars;

verus! {

/// The options that every download begins with, and where its file goes.
pub open spec fn common_args(dir: Seq<char>) -> Seq<Seq<char>> {
    seq![
        "--newline"@,
        "--no-playlist"@,
        "--no-update"@,
        "--extractor-args"@,
        "youtube:player_client=default,web_embedded,web_safari,ios"@,
        "--no-warnings"@,
        "-o"@,
        dir + "/%(title).120s [%(id)s].%(ext)s"@,
    ]
}

/// The options that keep the thumbnail and the metadata of a video.
pub open spec fn media_args(thumb_dir: Seq<char>) -> Seq<Seq<char>> {
    seq![
        "--write-info-json"@,
        "-o"@,
        "thumbnail:"@ + thumb_dir + "/%(id)s.%(ext)s"@,
        "-o"@,
        "infojson:"@ + thumb_dir,
    ]
}

/// The options of a download of sound alone.
pub open spec fn audio_args(quality: Seq<char>) -> Seq<Seq<char>> {
    seq![
        "-x"@,
        "--audio-format"@,
        if quality == "m4a"@ {
            "m4a"@
        } else {
            "mp3"@
        },
        "--audio-quality"@,
        "0"@,
    ]
}

/// The choice of streams of a video of the given quality: at most so high,
/// where the quality is a height, and preferably such as fit into an MP4 file.
pub open spec fn video_format(quality: Seq<char>) -> Seq<char> {
    if quality == "1080"@ || quality == "720"@ || quality == "480"@ {
        "bv*[height<="@ + quality + "][vcodec~=avc]+ba*[acodec~=mp4]/bv*[height<="@ + quality
            + "]/b[height<="@ + quality + "]/b*+ba/b"@
    } else {
        "bv*[vcodec~=avc]+ba*[acodec~=mp4]/bv*+ba/b"@
    }
}

/// The command line of a download. All but downloads of sound alone keep the
/// thumbnail and end up in one MP4 file; the address comes last.
pub open spec fn download_args(p: Platform, item: ItemView, thumb_dir: Seq<char>) -> Seq<
    Seq<char>,
> {
    let common = common_args(save_place(p, item.save_dir));
    if item.mode == "audio"@ {
        common + audio_args(item.quality) + seq![item.url]
    } else {
        common + media_args(thumb_dir) + seq!["-f"@, video_format(item.quality)]
            + seq!["--merge-output-format"@, "mp4"@] + seq![item.url]
    }
}

/// Adds one argument at the end.
fn add_arg(args: &mut Vec<String>, arg: &str)
    ensures
        texts(final(args)@) == texts(old(args)@).push(arg@),
{
    args.push(arg.to_owned());
    assert(texts(args@) =~= texts(old(args)@).push(arg@));
}

/// The choice of streams of a video of the given quality.
fn video_format_text(quality: &str) -> (r: String)
    ensures
        r@ == video_format(quality@),
{
    if same(quality, "1080") || same(quality, "720") || same(quality, "480") {
        let a = cat3(
            "bv*[height<=",
            quality,
            "][vcodec~=avc]+ba*[acodec~=mp4]/bv*[height<=",
        );
        let b = cat3(a.as_str(), quality, "]/b[height<=");
        cat3(b.as_str(), quality, "]/b*+ba/b")
    } else {
        "bv*[vcodec~=avc]+ba*[acodec~=mp4]/bv*+ba/b".to_owned()
    }
}

/// Builds the command line of a download; `thumb_dir` is the directory for
/// thumbnails and metadata.
pub fn build_args(p: Platform, item: &DownloadItem, thumb_dir: &str) -> (r: Vec<String>)
    ensures
        texts(r@) == download_args(p, item@, thumb_dir@),
{
    let mut args: Vec<String> = Vec::new();
    assert(texts(args@) =~= seq![]);
    add_arg(&mut args, "--newline");
    add_arg(&mut args, "--no-playlist");
    add_arg(&mut args, "--no-update");
    add_arg(&mut args, "--extractor-args");
    add_arg(&mut args, "youtube:player_client=default,web_embedded,web_safari,ios");
    add_arg(&mut args, "--no-warnings");
    add_arg(&mut args, "-o");
    let dir = sanitize_dir(p, item.save_dir.as_str());
    let target = cat(dir.as_str(), "/%(title).120s [%(id)s].%(ext)s");
    add_arg(&mut args, target.as_str());
    assert(texts(args@) =~= common_args(save_place(p, item@.save_dir)));
    if same(item.mode.as_str(), "audio") {
        add_arg(&mut args, "-x");
        add_arg(&mut args, "--audio-format");
        if same(item.quality.as_str(), "m4a") {
            add_arg(&mut args, "m4a");
        } else {
            add_arg(&mut args, "mp3");
        }
        add_arg(&mut args, "--audio-quality");
        add_arg(&mut args, "0");
    } else {
        add_arg(&mut args, "--write-info-json");
        add_arg(&mut args, "-o");
        let thumbnail = cat3("thumbnail:", thumb_dir, "/%(id)s.%(ext)s");
        add_arg(&mut args, thumbnail.as_str());
        add_arg(&mut args, "-o");
        let infojson = cat("infojson:", thumb_dir);
        add_arg(&mut args, infojson.as_str());
        add_arg(&mut args, "-f");
        let format = video_format_text(item.quality.as_str());
        add_arg(&mut args, format.as_str());
        add_arg(&mut args, "--merge-output-format");
        add_arg(&mut args, "mp4");
    }
    add_arg(&mut args, item.url.as_str());
    assert(texts(args@) =~= download_args(p, item@, thumb_dir@));
    args
}

/// The command line that looks up the id and the title of a video.
pub open spec fn look_up_args(url: Seq<char>) -> Seq<Seq<char>> {
    seq!["--no-download"@, "--print"@, "%(id)s\t%(title)s"@, url]
}

/// Builds the command line that looks up the id and the title of a video.
pub fn metadata_args(url: &str) -> (r: Vec<String>)
    ensures
        texts(r@) == look_up_args(url@),
{
    let mut args: Vec<String> = Vec::new();
    add_arg(&mut args, "--no-download");
    add_arg(&mut args, "--print");
    add_arg(&mut args, "%(id)s\t%(title)s");
    add_arg(&mut args, url);
    assert(texts(args@) =~= look_up_args(url@));
    args
}

/// The message of a download whose process could not be started.
pub open spec fn start_message(program: Seq<char>, reason: Seq<char>) -> Seq<char> {
    "Cannot start yt-dlp ("@ + program + "): "@ + reason + "."@
}

/// Writes the message of a download whose process could not be started.
pub fn start_error(program: &str, reason: &str) -> (r: String)
    ensures
        r@ == start_message(program@, reason@),
{
    let a = cat3("Cannot start yt-dlp (", program, "): ");
    cat3(a.as_str(), reason, ".")
}

/// The text that `str::to_uppercase` makes of a text.
pub uninterp spec fn upper_case(text: Seq<char>) -> Seq<char>;

/// A letter from a to z as its capital, any other character as it is.
pub open spec fn capital(c: char) -> char {
    if 'a' <= c <= 'z' {
        (c as int - 32) as char
    } else {
        c
    }
}

/// `str::to_uppercase`: of a text in ASCII the capitals of its letters; of
/// other texts what Unicode says.
#[verifier::external_body]
fn to_upper_case(text: &str) -> (r: String)
    ensures
        r@ == upper_case(text@),
        is_ascii_chars(text@) ==> r@ == text@.map_values(|c: char| capital(c)),
{
    text.to_uppercase()
}

/// The variable of the host is the one that Windows needs for secure
/// connections.
pub open spec fn root_variable(name: Seq<char>) -> bool {
    upper_case(name) == "SYSTEMROOT"@
}

/// Tells whether a variable of the host is the one that Windows needs for
/// secure connections, however its name is written.
pub fn is_system_root(name: &str) -> (r: bool)
    ensures
        r == root_variable(name@),
        is_ascii_chars(name@) ==> r == (name@.map_values(|c: char| capital(c)) == "SYSTEMROOT"@),
{
    let upper = to_upper_case(name);
    same(upper.as_str(), "SYSTEMROOT")
}

/// The variables of the host that yt-dlp may see, where they are set.
pub struct HostEnv {
    pub home: Option<String>,
    pub user: Option<String>,
    pub tmpdir: Option<String>,
    pub lang: Option<String>,
    pub ssl_cert_file: Option<String>,
    pub ssl_cert_dir: Option<String>,
}

/// One variable of an environment.
pub struct EnvVar {
    pub name: &'static str,
    pub value: String,
}

/// The names and values of a list of variables.
pub open spec fn variables(v: Seq<EnvVar>) -> Seq<(Seq<char>, Seq<char>)> {
    v.map_values(|e: EnvVar| (e.name@, e.value@))
}

/// The value of a variable, or a stand-in where it is not set.
pub open spec fn value_or(o: Option<String>, otherwise: Seq<char>) -> Seq<char> {
    match o {
        Some(s) => s@,
        None => otherwise,
    }
}

/// A variable that is handed on where it is set.
pub open spec fn if_set(name: Seq<char>, o: Option<String>) -> Seq<(Seq<char>, Seq<char>)> {
    match o {
        Some(s) => seq![(name, s@)],
        None => seq![],
    }
}

/// The directory of the binary, which comes first on the search path.
pub open spec fn tool_dir(bin_dir: Option<Seq<char>>) -> Seq<char> {
    match bin_dir {
        Some(d) => d,
        None => "."@,
    }
}

/// The search path that begins with a directory.
pub open spec fn search_path(p: Platform, dir: Seq<char>) -> Seq<char> {
    if p.os == Os::Windows {
        dir + ";C:\\Windows\\System32"@
    } else {
        dir + ":/usr/local/bin:/usr/bin:/bin"@
    }
}

/// The environment of yt-dlp, apart from the variables that `is_system_root`
/// lets through on Windows.
pub open spec fn tool_env(p: Platform, bin_dir: Option<Seq<char>>, host: HostEnv) -> Seq<
    (Seq<char>, Seq<char>),
> {
    if p.os == Os::Windows {
        seq![("PATH"@, search_path(p, tool_dir(bin_dir)))]
    } else {
        seq![
            ("PATH"@, search_path(p, tool_dir(bin_dir))),
            ("HOME"@, value_or(host.home, "/tmp"@)),
            (
                "USER"@,
                if host.home is Some {
                    value_or(host.user, "user"@)
                } else {
                    "user"@
                },
            ),
            ("TMPDIR"@, value_or(host.tmpdir, "/tmp"@)),
            ("LANG"@, value_or(host.lang, "en_US.UTF-8"@)),
        ] + if_set("SSL_CERT_FILE"@, host.ssl_cert_file) + if_set(
            "SSL_CERT_DIR"@,
            host.ssl_cert_dir,
        )
    }
}

/// Adds one variable at the end.
fn add_var(env: &mut Vec<EnvVar>, name: &'static str, value: String)
    ensures
        variables(final(env)@) == variables(old(env)@).push((name@, value@)),
{
    env.push(EnvVar { name, value });
    assert(variables(env@) =~= variables(old(env)@).push((name@, value@)));
}

/// The value of a variable, or a stand-in where it is not set.
fn text_or(o: &Option<String>, otherwise: &str) -> (r: String)
    ensures
        r@ == value_or(*o, otherwise@),
{
    match o {
        Some(s) => s.clone(),
        None => otherwise.to_owned(),
    }
}

/// What the directory of a file can be where slashes alone separate: what
/// stands before the last slash, if that ends with a plain name.
pub open spec fn slash_dir_allowed(path: Seq<char>, dir: Option<Seq<char>>) -> bool {
    let k = after_last(path, '/');
    if k == 0 {
        dir == Some(Seq::<char>::empty())
    } else if k == 1 {
        dir == Some("/"@)
    } else {
        plain_name(last_part(path.take(k - 1))) ==> dir == Some(path.take(k - 1))
    }
}

/// What the directory of a file can be, whatever the system.
pub open spec fn parent_allowed(path: Seq<char>, dir: Option<Seq<char>>) -> bool {
    &&& path.len() == 0 ==> dir is None
    &&& dir matches Some(d) ==> d.is_prefix_of(path) && d.len() < path.len()
    &&& !network_path(path) && plain_name(last_part(path)) ==> dir is Some
    &&& plain_name(path) ==> dir == Some(Seq::<char>::empty())
    &&& forall|name: Seq<char>|
        path == #[trigger] ("/"@ + name) && plain_name(name) ==> dir == Some("/"@)
    &&& forall|d: Seq<char>, name: Seq<char>|
        path == #[trigger] (d + "/"@ + name) && !network_path(path) && plain_name(last_part(d))
            && plain_name(name) ==> dir == Some(d)
    &&& forall|d: Seq<char>, name: Seq<char>|
        path == #[trigger] (d + "\\"@ + name) && !network_path(path) && plain_name(last_part(d))
            && plain_name(name) ==> dir == Some(d) || slash_dir_allowed(path, dir)
}

/// `Path::parent`: the directory of a file. Slashes separate the parts of a path
/// everywhere and backslashes on some systems, so only what holds on all of
/// them is claimed: an empty path has none; a directory is the path with
/// something cut off its end; one that ends with a plain name has a directory,
/// unless it begins with two separators; that of a bare name is empty, and
/// that of a name behind a single slash is the slash; before a slash and a
/// plain name stands the directory, if it ends with a plain name itself and
/// the path does not begin with two separators; and so it does before a
/// backslash, or else the backslash is a part of the name and the slashes
/// alone count. Left unsaid is what the directory of a file at the top of a
/// drive or on a server is.
#[verifier::external_body]
fn parent_dir(path: &str) -> (r: Option<String>)
    ensures
        parent_allowed(path@, text_opt(r)),
{
    std::path::Path::new(path).parent().map(|d| d.to_string_lossy().to_string())
}

/// The environment that yt-dlp can be run with, whatever the system.
pub open spec fn env_allowed(
    p: Platform,
    bin: Seq<char>,
    host: HostEnv,
    env: Seq<(Seq<char>, Seq<char>)>,
) -> bool {
    exists|dir: Option<Seq<char>>| #[trigger]
        parent_allowed(bin, dir) && env == tool_env(p, dir, host)
}

/// Builds the environment that the yt-dlp at the path `bin` is run with in
/// place of that of the host; the bundled ffmpeg lies in the same directory.
/// On Windows the variables for which `is_system_root` holds come in addition,
/// as they are.
pub fn ytdlp_cmd(p: Platform, bin: &str, host: &HostEnv) -> (r: Vec<EnvVar>)
    ensures
        env_allowed(p, bin@, *host, variables(r@)),
{
    let dir = parent_dir(bin);
    let ghost allowed = text_opt(dir);
    let env = match &dir {
        Some(d) => environment(p, Some(d.as_str()), host),
        None => environment(p, None, host),
    };
    assert(parent_allowed(bin@, allowed));
    assert(variables(env@) == tool_env(p, allowed, *host));
    env
}

/// Builds the environment of a yt-dlp that lies in the directory `bin_dir`.
pub fn environment(p: Platform, bin_dir: Option<&str>, host: &HostEnv) -> (r: Vec<EnvVar>)
    ensures
        variables(r@) == tool_env(p, str_opt(bin_dir), *host),
{
    let dir: &str = match bin_dir {
        Some(d) => d,
        None => ".",
    };
    let mut env: Vec<EnvVar> = Vec::new();
    assert(variables(env@) =~= seq![]);
    if p.os == Os::Windows {
        add_var(&mut env, "PATH", cat(dir, ";C:\\Windows\\System32"));
    } else {
        add_var(&mut env, "PATH", cat(dir, ":/usr/local/bin:/usr/bin:/bin"));
        add_var(&mut env, "HOME", text_or(&host.home, "/tmp"));
        if host.home.is_some() {
            add_var(&mut env, "USER", text_or(&host.user, "user"));
        } else {
            add_var(&mut env, "USER", "user".to_owned());
        }
        add_var(&mut env, "TMPDIR", text_or(&host.tmpdir, "/tmp"));
        add_var(&mut env, "LANG", text_or(&host.lang, "en_US.UTF-8"));
        match &host.ssl_cert_file {
            Some(v) => {
                add_var(&mut env, "SSL_CERT_FILE", v.clone());
            },
            None => {},
        }
        match &host.ssl_cert_dir {
            Some(v) => {
                add_var(&mut env, "SSL_CERT_DIR", v.clone());
            },
            None => {},
        }
    }
    assert(variables(env@) =~= tool_env(p, str_opt(bin_dir), *host));
    env
}

/// The address of the video is the last argument of its download.
pub proof fn address_comes_last(p: Platform, item: ItemView, thumb_dir: Seq<char>)
    ensures
        download_args(p, item, thumb_dir).len() > 0,
        download_args(p, item, thumb_dir).last() == item.url,
{
}

/// Every download but that of sound alone is joined into one MP4 file.
pub proof fn videos_end_up_as_mp4(p: Platform, item: ItemView, thumb_dir: Seq<char>)
    requires
        item.mode != "audio"@,
    ensures
        ({
            let args = download_args(p, item, thumb_dir);
            args[args.len() - 3] == "--merge-output-format"@ && args[args.len() - 2] == "mp4"@
        }),
{
}

/// The variables that yt-dlp may have, by their names.
pub open spec fn known_variable(p: Platform, name: Seq<char>) -> bool {
    ||| name == "PATH"@
    ||| p.os != Os::Windows && (name == "HOME"@ || name == "USER"@ || name == "TMPDIR"@ || name
        == "LANG"@ || name == "SSL_CERT_FILE"@ || name == "SSL_CERT_DIR"@)
}

/// Whatever the host has set, yt-dlp sees the known variables alone.
pub proof fn environment_is_clean(
    p: Platform,
    bin: Seq<char>,
    host: HostEnv,
    env: Seq<(Seq<char>, Seq<char>)>,
    k: int,
)
    requires
        env_allowed(p, bin, host, env),
        0 <= k < env.len(),
    ensures
        known_variable(p, env[k].0),
{
}

/// The search path of yt-dlp begins with the directory of its binary, where
/// the bundled ffmpeg lies.
pub proof fn bundled_tools_are_found_first(
    p: Platform,
    dir: Seq<char>,
    name: Seq<char>,
    host: HostEnv,
    env: Seq<(Seq<char>, Seq<char>)>,
)
    requires
        env_allowed(p, dir + "/"@ + name, host, env),
        plain_name(last_part(dir)),
        plain_name(name),
        !network_path(dir + "/"@ + name),
    ensures
        env.len() > 0,
        env[0] == ("PATH"@, search_path(p, dir)),
        dir.is_prefix_of(env[0].1),
{
    assert(search_path(p, dir).subrange(0, dir.len() as int) =~= dir);
}

/// The same of a path with backslashes: the search path begins with the
/// directory where backslashes separate, and elsewhere, where such a path is
/// one bare name, it names no directory.
pub proof fn bundled_tools_are_found_behind_backslashes(
    p: Platform,
    dir: Seq<char>,
    name: Seq<char>,
    host: HostEnv,
    env: Seq<(Seq<char>, Seq<char>)>,
)
    requires
        env_allowed(p, dir + "\\"@ + name, host, env),
        plain_name(last_part(dir)),
        plain_name(name),
        !network_path(dir + "\\"@ + name),
        !dir.contains('/'),
    ensures
        env.len() > 0,
        env[0] == ("PATH"@, search_path(p, dir)) || env[0] == (
            "PATH"@,
            search_path(p, Seq::<char>::empty()),
        ),
{
    reveal_strlit("\\");
    let path = dir + "\\"@ + name;
    assert forall|i: int| 0 <= i < path.len() implies #[trigger] path[i] != '/' by {
        if i < dir.len() {
            assert(path[i] == dir[i]);
        } else if i > dir.len() {
            assert(path[i] == name[i - dir.len() - 1]);
        }
    }
    after_last_in_front(Seq::<char>::empty(), '/', path);
    assert(Seq::<char>::empty() + path =~= path);
    after_last_is_not_negative(path, '/');
}

/// Whatever the path to the binary, the search path of yt-dlp begins with the
/// beginning of that path, or with the working directory.
pub proof fn search_path_is_of_the_tool(
    p: Platform,
    bin: Seq<char>,
    host: HostEnv,
    env: Seq<(Seq<char>, Seq<char>)>,
)
    requires
        env_allowed(p, bin, host, env),
    ensures
        env.len() > 0,
        env[0].0 == "PATH"@,
        env[0].1 == search_path(p, "."@) || exists|d: Seq<char>|
            d.is_prefix_of(bin) && env[0].1 == #[trigger] search_path(p, d),
{
    let dir = choose|dir: Option<Seq<char>>| #[trigger]
        parent_allowed(bin, dir) && env == tool_env(p, dir, host);
    match dir {
        Some(d) => {
            assert(d.is_prefix_of(bin) && env[0].1 == search_path(p, d));
        },
        None => {},
    }
}

/// Every download begins with the same options, and names its file after title
/// and id in the directory that was asked for.
pub proof fn downloads_begin_alike(p: Platform, item: ItemView, thumb_dir: Seq<char>)
    ensures
        ({
            let args = download_args(p, item, thumb_dir);
            &&& args.len() > 8
            &&& args[0] == "--newline"@
            &&& args[1] == "--no-playlist"@
            &&& args[2] == "--no-update"@
            &&& args[3] == "--extractor-args"@
            &&& args[4] == "youtube:player_client=default,web_embedded,web_safari,ios"@
            &&& args[5] == "--no-warnings"@
            &&& args[6] == "-o"@
            &&& p.os != Os::Windows ==> args[7] == item.save_dir
                + "/%(title).120s [%(id)s].%(ext)s"@
            &&& p.os == Os::Windows ==> args[7] == safe_dir(item.save_dir)
                + "/%(title).120s [%(id)s].%(ext)s"@
        }),
{
}

/// A download of sound alone extracts it in the best quality, as m4a where that
/// is asked for and as mp3 otherwise, and asks for nothing else.
pub proof fn sound_alone_is_extracted(p: Platform, item: ItemView, thumb_dir: Seq<char>)
    requires
        item.mode == "audio"@,
    ensures
        ({
            let args = download_args(p, item, thumb_dir);
            &&& args.len() == 14
            &&& args[8] == "-x"@
            &&& args[9] == "--audio-format"@
            &&& item.quality == "m4a"@ ==> args[10] == "m4a"@
            &&& item.quality != "m4a"@ ==> args[10] == "mp3"@
            &&& args[11] == "--audio-quality"@
            &&& args[12] == "0"@
            &&& args[13] == item.url
        }),
{
}

/// Any other download keeps metadata and thumbnail in the directory for them,
/// chooses its streams, and joins them into an MP4 file.
pub proof fn videos_are_kept_with_their_metadata(
    p: Platform,
    item: ItemView,
    thumb_dir: Seq<char>,
)
    requires
        item.mode != "audio"@,
    ensures
        ({
            let args = download_args(p, item, thumb_dir);
            &&& args.len() == 18
            &&& args[8] == "--write-info-json"@
            &&& args[9] == "-o"@
            &&& args[10] == "thumbnail:"@ + thumb_dir + "/%(id)s.%(ext)s"@
            &&& args[11] == "-o"@
            &&& args[12] == "infojson:"@ + thumb_dir
            &&& args[13] == "-f"@
            &&& args[14] == video_format(item.quality)
            &&& args[15] == "--merge-output-format"@
            &&& args[16] == "mp4"@
            &&& args[17] == item.url
        }),
{
}

/// A text that limits a choice of streams to a height.
pub open spec fn limits_height(choice: Seq<char>, height: Seq<char>) -> bool {
    has_part(choice, "[height<="@ + height + "]"@)
}

/// For each height that can be chosen, the first three alternatives of the
/// choice of streams have that very height as their limit.
pub proof fn chosen_height_is_the_limit(p: Platform, item: ItemView, thumb_dir: Seq<char>)
    requires
        item.mode != "audio"@,
        item.quality == "1080"@ || item.quality == "720"@ || item.quality == "480"@,
    ensures
        exists|a: Seq<char>, b: Seq<char>, c: Seq<char>, rest: Seq<char>|
            {
                &&& download_args(p, item, thumb_dir)[14] == #[trigger] (a + "/"@ + b + "/"@ + c
                    + "/"@ + rest)
                &&& !a.contains('/') && !b.contains('/') && !c.contains('/')
                &&& limits_height(a, item.quality)
                &&& limits_height(b, item.quality)
                &&& limits_height(c, item.quality)
            },
{
    let h = item.quality;
    let limit = "[height<="@ + h + "]"@;
    let tail = "[vcodec~=avc]+ba*[acodec~=mp4]"@;
    let none = Seq::<char>::empty();
    let a = "bv*"@ + limit + tail;
    let b = "bv*"@ + limit + none;
    let c = "b"@ + limit + none;
    let rest = "b*+ba/b"@;
    joined_has_part("bv*"@, limit, tail);
    joined_has_part("bv*"@, limit, none);
    joined_has_part("b"@, limit, none);
    assert(!h.contains('/') && !"bv*"@.contains('/') && !"b"@.contains('/') && !tail.contains(
        '/',
    )) by {
        reveal_strlit("1080");
        reveal_strlit("720");
        reveal_strlit("480");
        reveal_strlit("bv*");
        reveal_strlit("b");
        reveal_strlit("[vcodec~=avc]+ba*[acodec~=mp4]");
    }
    no_slash_in_three("bv*"@, limit, tail, h);
    no_slash_in_three("bv*"@, limit, none, h);
    no_slash_in_three("b"@, limit, none, h);
    height_alternatives(h);
    assert(download_args(p, item, thumb_dir)[14] == a + "/"@ + b + "/"@ + c + "/"@ + rest);
    assert(limits_height(a, h) && limits_height(b, h) && limits_height(c, h));
}

proof fn height_alternatives(h: Seq<char>)
    requires
        h == "1080"@ || h == "720"@ || h == "480"@,
    ensures
        ({
            let limit = "[height<="@ + h + "]"@;
            let none = Seq::<char>::empty();
            video_format(h) == ("bv*"@ + limit + "[vcodec~=avc]+ba*[acodec~=mp4]"@) + "/"@ + (
            "bv*"@ + limit + none) + "/"@ + ("b"@ + limit + none) + "/"@ + "b*+ba/b"@
        }),
{
    let (o, e, v, b, t, d, w) = (
        "[height<="@,
        "]"@,
        "bv*"@,
        "b"@,
        "[vcodec~=avc]+ba*[acodec~=mp4]"@,
        "/"@,
        "b*+ba/b"@,
    );
    assert("bv*[height<="@ =~= v + o) by {
        reveal_strlit("bv*[height<=");
        reveal_strlit("bv*");
        reveal_strlit("[height<=");
    }
    assert("][vcodec~=avc]+ba*[acodec~=mp4]/bv*[height<="@ =~= e + t + d + v + o) by {
        reveal_strlit("][vcodec~=avc]+ba*[acodec~=mp4]/bv*[height<=");
        reveal_strlit("]");
        reveal_strlit("[vcodec~=avc]+ba*[acodec~=mp4]");
        reveal_strlit("/");
        reveal_strlit("bv*");
        reveal_strlit("[height<=");
    }
    assert("]/b[height<="@ =~= e + d + b + o) by {
        reveal_strlit("]/b[height<=");
        reveal_strlit("]");
        reveal_strlit("/");
        reveal_strlit("b");
        reveal_strlit("[height<=");
    }
    assert("]/b*+ba/b"@ =~= e + d + w) by {
        reveal_strlit("]/b*+ba/b");
        reveal_strlit("]");
        reveal_strlit("/");
        reveal_strlit("b*+ba/b");
    }
    regrouped(o, e, v, b, t, d, w, h);
}

proof fn regrouped(
    o: Seq<char>,
    e: Seq<char>,
    v: Seq<char>,
    b: Seq<char>,
    t: Seq<char>,
    d: Seq<char>,
    w: Seq<char>,
    h: Seq<char>,
)
    ensures
        (v + o) + h + (e + t + d + v + o) + h + (e + d + b + o) + h + (e + d + w) == (v + (o + h
            + e) + t) + d + (v + (o + h + e) + Seq::<char>::empty()) + d + (b + (o + h + e)
            + Seq::<char>::empty()) + d + w,
{
    let none = Seq::<char>::empty();
    let l = o + h + e;
    assert(v + l + none =~= v + l);
    assert(b + l + none =~= b + l);
    assert((v + o) + h + (e + t + d + v + o) =~= (v + l + t) + d + (v + o));
    assert((v + l + t) + d + (v + o) + h + (e + d + b + o) =~= (v + l + t) + d + (v + l) + d + (b
        + o));
    assert((v + l + t) + d + (v + l) + d + (b + o) + h + (e + d + w) =~= (v + l + t) + d + (v + l)
        + d + (b + l) + d + w);
}

proof fn no_slash_in_three(a: Seq<char>, limit: Seq<char>, b: Seq<char>, h: Seq<char>)
    requires
        limit == "[height<="@ + h + "]"@,
        !a.contains('/'),
        !b.contains('/'),
        !h.contains('/'),
    ensures
        !(a + limit + b).contains('/'),
{
    reveal_strlit("[height<=");
    reveal_strlit("]");
    let s = a + limit + b;
    if s.contains('/') {
        let i = choose|i: int| 0 <= i < s.len() && s[i] == '/';
        let k = i - a.len();
        if k < 0 {
            assert(a[i] == '/');
        } else if k >= limit.len() {
            assert(b[k - limit.len()] == '/');
        } else if k < 9 {
            assert("[height<="@[k] == '/');
        } else if k < 9 + h.len() {
            assert(h[k - 9] == '/');
        } else {
            assert("]"@[0] == '/');
        }
    }
}

/// Any two of the qualities that a video can be asked for in, one of the three
/// heights or the best, give different choices of streams.
pub proof fn qualities_give_different_choices(q: Seq<char>, r: Seq<char>)
    requires
        q == "1080"@ || q == "720"@ || q == "480"@,
        q != r,
    ensures
        video_format(q) != video_format(r),
{
    let f = video_format(q);
    let g = video_format(r);
    reveal_strlit("1080");
    reveal_strlit("720");
    reveal_strlit("480");
    reveal_strlit("bv*[height<=");
    reveal_strlit("][vcodec~=avc]+ba*[acodec~=mp4]/bv*[height<=");
    reveal_strlit("]/b[height<=");
    reveal_strlit("]/b*+ba/b");
    reveal_strlit("bv*[vcodec~=avc]+ba*[acodec~=mp4]/bv*+ba/b");
    if r == "1080"@ || r == "720"@ || r == "480"@ {
        assert(f.len() == 77 + 3 * q.len());
        assert(g.len() == 77 + 3 * r.len());
        if f == g {
            assert(f.subrange(12, 12 + q.len() as int) =~= q);
            assert(g.subrange(12, 12 + r.len() as int) =~= r);
        }
    } else {
        assert(f[4] == 'h');
        assert(g[4] == 'v');
    }
}

/// Whatever is asked for but a height, the best streams are chosen, preferably
/// such as fit into an MP4 file, and no height limits them.
pub proof fn best_has_no_limit(quality: Seq<char>)
    requires
        quality != "1080"@,
        quality != "720"@,
        quality != "480"@,
    ensures
        video_format(quality) == "bv*[vcodec~=avc]+ba*[acodec~=mp4]/bv*+ba/b"@,
{
}

/// A height is chosen in three steps, the streams that fit into an MP4 file
/// first, and without a limit only where there is nothing so low.
pub proof fn heights_prefer_mp4(quality: Seq<char>)
    requires
        quality == "1080"@ || quality == "720"@ || quality == "480"@,
    ensures
        video_format(quality) == "bv*[height<="@ + quality + "][vcodec~=avc]+ba*[acodec~=mp4]"@
            + "/bv*[height<="@ + quality + "]/b[height<="@ + quality + "]/b*+ba/b"@,
{
    reveal_strlit("][vcodec~=avc]+ba*[acodec~=mp4]/bv*[height<=");
    reveal_strlit("][vcodec~=avc]+ba*[acodec~=mp4]");
    reveal_strlit("/bv*[height<=");
    assert("][vcodec~=avc]+ba*[acodec~=mp4]/bv*[height<="@ =~= "][vcodec~=avc]+ba*[acodec~=mp4]"@
        + "/bv*[height<="@);
    assert(video_format(quality) =~= "bv*[height<="@ + quality
        + "][vcodec~=avc]+ba*[acodec~=mp4]"@ + "/bv*[height<="@ + quality + "]/b[height<="@
        + quality + "]/b*+ba/b"@);
}

/// The environment of the tool: on Windows the search path alone; elsewhere
/// also home, user, directory for temporary files and language, each that of
/// the host or a stand-in, and the certificates where the host has them.
pub proof fn tool_sees_these_variables(p: Platform, dir: Option<Seq<char>>, host: HostEnv)
    ensures
        ({
            let env = tool_env(p, dir, host);
            let first = match dir {
                Some(d) => d,
                None => "."@,
            };
            let certificates = (if host.ssl_cert_file is Some {
                1int
            } else {
                0
            }) + (if host.ssl_cert_dir is Some {
                1int
            } else {
                0
            });
            &&& p.os == Os::Windows ==> env == seq![
                ("PATH"@, first + ";C:\\Windows\\System32"@),
            ]
            &&& p.os != Os::Windows ==> {
                &&& env.len() == 5 + certificates
                &&& env[0] == ("PATH"@, first + ":/usr/local/bin:/usr/bin:/bin"@)
                &&& env[1].0 == "HOME"@
                &&& host.home matches Some(h) ==> env[1].1 == h@
                &&& host.home is None ==> env[1].1 == "/tmp"@
                &&& env[2].0 == "USER"@
                &&& host.home is Some ==> (host.user matches Some(u) ==> env[2].1 == u@)
                &&& host.home is None || host.user is None ==> env[2].1 == "user"@
                &&& env[3].0 == "TMPDIR"@
                &&& host.tmpdir matches Some(t) ==> env[3].1 == t@
                &&& host.tmpdir is None ==> env[3].1 == "/tmp"@
                &&& env[4].0 == "LANG"@
                &&& host.lang matches Some(l) ==> env[4].1 == l@
                &&& host.lang is None ==> env[4].1 == "en_US.UTF-8"@
                &&& host.ssl_cert_file matches Some(f) ==> env[5] == ("SSL_CERT_FILE"@, f@)
                &&& host.ssl_cert_dir matches Some(d) ==> env[env.len() - 1] == (
                    "SSL_CERT_DIR"@,
                    d@,
                )
            }
        }),
{
}

/// The message of a download that could not be started names the program and
/// the reason.
pub proof fn start_message_names_program_and_reason(program: Seq<char>, reason: Seq<char>)
    ensures
        start_message(program, reason) == "Cannot start yt-dlp ("@ + program + "): "@ + reason
            + "."@,
{
}

/// Capitals are those of the Latin alphabet; other characters stay.
pub proof fn capitals_of_letters(k: int, c: char)
    requires
        0 <= k < 26,
    ensures
        capital("abcdefghijklmnopqrstuvwxyz"@[k]) == "ABCDEFGHIJKLMNOPQRSTUVWXYZ"@[k],
        !('a' <= c <= 'z') ==> capital(c) == c,
{
    reveal_strlit("abcdefghijklmnopqrstuvwxyz");
    reveal_strlit("ABCDEFGHIJKLMNOPQRSTUVWXYZ");
}

/// A look-up downloads nothing and prints id and title with a tab between them.
pub proof fn look_up_prints_id_and_title(url: Seq<char>)
    ensures
        look_up_args(url).len() == 4,
        look_up_args(url)[0] == "--no-download"@,
        look_up_args(url)[1] == "--print"@,
        look_up_args(url)[2] == "%(id)s"@ + "\t"@ + "%(title)s"@,
        look_up_args(url)[3] == url,
{
    reveal_strlit("%(id)s\t%(title)s");
    reveal_strlit("%(id)s");
    reveal_strlit("\t");
    reveal_strlit("%(title)s");
    assert("%(id)s\t%(title)s"@ =~= "%(id)s"@ + "\t"@ + "%(title)s"@);
}

/// One name alone gets through to the tool on Windows, in any mix of capitals
/// and small letters.
pub proof fn one_variable_gets_through(name: Seq<char>, other: Seq<char>)
    ensures
        root_variable(name) <==> upper_case(name) == "SYSTEMROOT"@,
        root_variable(name) && root_variable(other) ==> upper_case(name) == upper_case(other),
{
}

} // verus!
