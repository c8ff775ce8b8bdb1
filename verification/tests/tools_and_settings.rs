use videograb::command::{
    build_args, environment, is_system_root, metadata_args, start_error, ytdlp_cmd, EnvVar, HostEnv,
};
use videograb::install::{
    ensure_bundled_ytdlp, ensure_ffmpeg, ffmpeg_source_paths, is_installed, missing_ytdlp_error,
    version_source, ytdlp_source_paths, InstallStep,
};
use videograb::item::DownloadItem;
use videograb::platform::{
    app_thumb_dir, arch_probe, arm64_from_text, bundled_ffmpeg_candidate_paths,
    bundled_ffmpeg_resource_name, bundled_resource_path, data_dir, ffmpeg_path, history_path,
    host_is_arm64, release_asset_name, settings_path, yt_dlp_path, Arch, Location, Os, Platform,
    Root,
};
use videograb::release::{
    fetch_latest_ytdlp_version, find_asset, release_request, update_ytdlp, GhAsset, GhRelease,
    ReleaseReply,
};
use videograb::report::{ended_text, raw_version_output, ytdlp_debug_info, RunOutcome};
use videograb::settings::{dir_or_none, load_last_dir, put_last_dir, save_last_dir};
use videograb::version::{
    bundled_ytdlp_version, check_ytdlp_update, get_ytdlp_status, newer_by, newer_than,
    parse_version_output, startup_update,
};

const LINUX: Platform = Platform { os: Os::Other, arch: Arch::X86_64 };
const WINDOWS: Platform = Platform { os: Os::Windows, arch: Arch::X86_64 };
const MAC_ARM: Platform = Platform { os: Os::MacOs, arch: Arch::Aarch64 };
const MAC_INTEL: Platform = Platform { os: Os::MacOs, arch: Arch::X86_64 };
const LINUX_ARM: Platform = Platform { os: Os::Other, arch: Arch::Aarch64 };

fn shown(l: &Location) -> String {
    let root = match l.root {
        Root::AppData => "data",
        Root::Resources => "res",
    };
    format!("{}/{}", root, l.parts.join("/"))
}

fn all_shown(v: &Vec<Location>) -> Vec<String> {
    v.iter().map(shown).collect()
}

fn step(s: InstallStep) -> String {
    match s {
        InstallStep::Ready => "ready".to_string(),
        InstallStep::CopyFrom { source } => shown(&source),
        InstallStep::Missing => "missing".to_string(),
    }
}

fn request(mode: &str, quality: &str) -> DownloadItem {
    DownloadItem {
        id: "i".to_string(),
        url: "https://youtu.be/x".to_string(),
        mode: mode.to_string(),
        quality: quality.to_string(),
        save_dir: "C:\\My?Videos".to_string(),
        status: "pending".to_string(),
        stage: "info".to_string(),
        media_id: None,
        title: None,
        progress: 0,
        speed: None,
        error: None,
    }
}

#[test]
fn arguments_of_a_video() {
    assert_eq!(
        build_args(LINUX, &request("video", "720"), "/media"),
        vec![
            "--newline",
            "--no-playlist",
            "--no-update",
            "--extractor-args",
            "youtube:player_client=default,web_embedded,web_safari,ios",
            "--no-warnings",
            "-o",
            "C:\\My?Videos/%(title).120s [%(id)s].%(ext)s",
            "--write-info-json",
            "-o",
            "thumbnail:/media/%(id)s.%(ext)s",
            "-o",
            "infojson:/media",
            "-f",
            "bv*[height<=720][vcodec~=avc]+ba*[acodec~=mp4]/bv*[height<=720]/b[height<=720]/b*+ba/b",
            "--merge-output-format",
            "mp4",
            "https://youtu.be/x",
        ]
    );
}

#[test]
fn arguments_of_the_best_video_on_windows() {
    let args = build_args(WINDOWS, &request("video", "best"), "/media");
    assert_eq!(args[7], "C:\\My_Videos/%(title).120s [%(id)s].%(ext)s");
    assert_eq!(args[14], "bv*[vcodec~=avc]+ba*[acodec~=mp4]/bv*+ba/b");
    assert_eq!(args[args.len() - 3], "--merge-output-format");
    assert_eq!(args[args.len() - 1], "https://youtu.be/x");
}

#[test]
fn arguments_of_sound_alone() {
    let args = build_args(LINUX, &request("audio", "m4a"), "/media");
    assert_eq!(
        args[8..],
        ["-x", "--audio-format", "m4a", "--audio-quality", "0", "https://youtu.be/x"]
    );
    assert_eq!(build_args(LINUX, &request("audio", "720"), "/m")[10], "mp3");
    assert_eq!(build_args(LINUX, &request("audio", "mp3"), "/m")[10], "mp3");
}

#[test]
fn arguments_of_a_look_up() {
    assert_eq!(
        metadata_args("u"),
        vec!["--no-download", "--print", "%(id)s\t%(title)s", "u"]
    );
    assert_eq!(start_error("yt", "gone"), "Cannot start yt-dlp (yt): gone.");
}

fn pairs(v: Vec<EnvVar>) -> Vec<(String, String)> {
    v.into_iter().map(|e| (e.name.to_string(), e.value)).collect()
}

fn pair(a: &str, b: &str) -> (String, String) {
    (a.to_string(), b.to_string())
}

#[test]
fn environment_of_the_tool() {
    let bare = HostEnv {
        home: None,
        user: Some("me".to_string()),
        tmpdir: None,
        lang: None,
        ssl_cert_file: None,
        ssl_cert_dir: None,
    };
    assert_eq!(
        pairs(ytdlp_cmd(LINUX, "/app/yt-dlp", &bare)),
        vec![
            pair("PATH", "/app:/usr/local/bin:/usr/bin:/bin"),
            pair("HOME", "/tmp"),
            pair("USER", "user"),
            pair("TMPDIR", "/tmp"),
            pair("LANG", "en_US.UTF-8"),
        ]
    );
    let full = HostEnv {
        home: Some("/home/me".to_string()),
        user: Some("me".to_string()),
        tmpdir: Some("/t".to_string()),
        lang: Some("uk_UA".to_string()),
        ssl_cert_file: Some("/f".to_string()),
        ssl_cert_dir: Some("/d".to_string()),
    };
    assert_eq!(
        pairs(ytdlp_cmd(MAC_ARM, "", &full)),
        vec![
            pair("PATH", ".:/usr/local/bin:/usr/bin:/bin"),
            pair("HOME", "/home/me"),
            pair("USER", "me"),
            pair("TMPDIR", "/t"),
            pair("LANG", "uk_UA"),
            pair("SSL_CERT_FILE", "/f"),
            pair("SSL_CERT_DIR", "/d"),
        ]
    );
    assert_eq!(
        pairs(environment(WINDOWS, Some("C:\\app"), &full)),
        vec![pair("PATH", "C:\\app;C:\\Windows\\System32")]
    );
    assert_eq!(environment(LINUX, None, &bare)[0].value, ".:/usr/local/bin:/usr/bin:/bin");
}

#[test]
fn directory_of_the_tool_comes_first() {
    let bare = HostEnv {
        home: None,
        user: None,
        tmpdir: None,
        lang: None,
        ssl_cert_file: None,
        ssl_cert_dir: None,
    };
    for dir in ["/home/me/.local/share/app/videograb", "C:/Users/me/videograb", "bin"] {
        let env = ytdlp_cmd(LINUX, &format!("{}/yt-dlp", dir), &bare);
        assert_eq!(env[0].value, format!("{}:/usr/local/bin:/usr/bin:/bin", dir));
    }
    assert_eq!(ytdlp_cmd(LINUX, "yt-dlp", &bare)[0].value, ":/usr/local/bin:/usr/bin:/bin");
    assert_eq!(ytdlp_cmd(WINDOWS, "C:/a/yt-dlp.exe", &bare)[0].value, "C:/a;C:\\Windows\\System32");
    assert_eq!(ytdlp_cmd(LINUX, "/yt-dlp", &bare)[0].value, "/:/usr/local/bin:/usr/bin:/bin");
    let dir = if std::path::MAIN_SEPARATOR == '\\' { "C:\\a" } else { "" };
    assert_eq!(
        ytdlp_cmd(WINDOWS, "C:\\a\\yt-dlp.exe", &bare)[0].value,
        format!("{};C:\\Windows\\System32", dir)
    );
}

#[test]
fn other_variables_stay_out() {
    let full = HostEnv {
        home: Some("h".to_string()),
        user: None,
        tmpdir: None,
        lang: None,
        ssl_cert_file: Some("f".to_string()),
        ssl_cert_dir: Some("d".to_string()),
    };
    let known = ["PATH", "HOME", "USER", "TMPDIR", "LANG", "SSL_CERT_FILE", "SSL_CERT_DIR"];
    let names: Vec<&str> =
        ytdlp_cmd(LINUX, "/a/b", &full).iter().map(|e| e.name).collect();
    assert_eq!(names, known);
}

#[test]
fn system_root_is_known_in_any_case() {
    assert!(is_system_root("SystemRoot"));
    assert!(is_system_root("SYSTEMROOT"));
    assert!(is_system_root("ſystemroot"));
    assert!(!is_system_root("SystemDrive"));
}

#[test]
fn release_files_by_platform() {
    assert_eq!(release_asset_name(WINDOWS), "yt-dlp.exe");
    assert_eq!(release_asset_name(LINUX_ARM), "yt-dlp_aarch64");
    assert_eq!(release_asset_name(MAC_INTEL), "yt-dlp_macos");
    assert_eq!(release_asset_name(LINUX), "yt-dlp");
    assert_eq!(bundled_ffmpeg_resource_name(WINDOWS), "ffmpeg-bundled.exe");
    assert_eq!(bundled_ffmpeg_resource_name(MAC_ARM), "ffmpeg-bundled-arm64");
    assert_eq!(bundled_ffmpeg_resource_name(LINUX), "ffmpeg-bundled-x64");
}

#[test]
fn places_of_files() {
    assert_eq!(shown(&data_dir()), "data/videograb");
    assert_eq!(shown(&history_path()), "data/videograb/history.json");
    assert_eq!(shown(&settings_path()), "data/videograb/settings.json");
    assert_eq!(shown(&app_thumb_dir()), "data/videograb/media");
    assert_eq!(shown(&yt_dlp_path(WINDOWS)), "data/videograb/yt-dlp.exe");
    assert_eq!(shown(&yt_dlp_path(LINUX)), "data/videograb/yt-dlp");
    assert_eq!(shown(&ffmpeg_path(WINDOWS)), "data/videograb/ffmpeg.exe");
    assert_eq!(shown(&ffmpeg_path(MAC_ARM)), "data/videograb/ffmpeg");
    assert_eq!(shown(&bundled_resource_path(WINDOWS)), "res/resources/yt-dlp-bundled.exe");
    assert_eq!(shown(&bundled_resource_path(LINUX)), "res/resources/yt-dlp-bundled");
}

#[test]
fn architecture_is_asked_for() {
    let p = arch_probe(MAC_INTEL).unwrap();
    assert_eq!((p.program, p.args), ("sysctl", vec!["-n", "hw.optional.arm64"]));
    let p = arch_probe(LINUX).unwrap();
    assert_eq!((p.program, p.args), ("uname", vec!["-m"]));
    assert!(arch_probe(LINUX_ARM).is_none());
    assert!(host_is_arm64(MAC_INTEL, Some(b"1\n")));
    assert!(!host_is_arm64(MAC_ARM, Some(b"0\n")));
    assert!(!host_is_arm64(MAC_ARM, Some(b"1\xff")));
    assert!(host_is_arm64(LINUX, Some(b"aarch64\n")));
    assert!(!host_is_arm64(LINUX, Some(b"x86_64\n")));
    assert!(!host_is_arm64(LINUX, None));
    assert!(host_is_arm64(MAC_ARM, None));
    assert!(arm64_from_text(LINUX_ARM, Some("anything")));
}

#[test]
fn ffmpeg_is_looked_for_best_first() {
    assert_eq!(
        all_shown(&bundled_ffmpeg_candidate_paths(MAC_INTEL, true, true)),
        vec![
            "res/resources/ffmpeg-bundled-arm64",
            "res/resources/ffmpeg-bundled-x64",
            "res/resources/ffmpeg-bundled.exe",
        ]
    );
    assert_eq!(
        all_shown(&bundled_ffmpeg_candidate_paths(LINUX, false, false)),
        vec!["res/resources/ffmpeg-bundled-x64"]
    );
    assert_eq!(
        all_shown(&bundled_ffmpeg_candidate_paths(WINDOWS, false, true)),
        vec!["res/resources/ffmpeg-bundled-x64", "res/resources/ffmpeg-bundled.exe"]
    );
    assert_eq!(
        all_shown(&ffmpeg_source_paths(LINUX, false, false, true)),
        vec!["res/resources/ffmpeg-bundled-x64", "res/ffmpeg-bundled-x64"]
    );
}

#[test]
fn tools_are_put_in_place() {
    assert!(is_installed(true, Some(1001)));
    assert!(!is_installed(true, Some(1000)));
    assert!(!is_installed(true, None));
    assert!(!is_installed(false, Some(5000)));
    assert_eq!(
        all_shown(&ytdlp_source_paths(LINUX)),
        vec!["res/resources/yt-dlp-bundled", "res/yt-dlp-bundled"]
    );
    assert_eq!(step(ensure_bundled_ytdlp(LINUX, true, &vec![true, true])), "ready");
    assert_eq!(
        step(ensure_bundled_ytdlp(LINUX, false, &vec![false, true])),
        "res/yt-dlp-bundled"
    );
    assert_eq!(step(ensure_bundled_ytdlp(LINUX, false, &vec![false, false])), "missing");
    assert_eq!(
        step(ensure_ffmpeg(MAC_INTEL, true, false, false, false, &vec![false, true])),
        "res/resources/ffmpeg-bundled-x64"
    );
    assert_eq!(step(ensure_ffmpeg(LINUX, false, false, false, false, &vec![false])), "missing");
    assert_eq!(
        missing_ytdlp_error("x"),
        "yt-dlp не знайдено ні в ресурсах програми, ні в мережі: x"
    );
}

#[test]
fn version_is_asked_of_the_installed_binary() {
    assert_eq!(shown(&version_source(LINUX, true, true).unwrap()), "data/videograb/yt-dlp");
    assert_eq!(
        shown(&version_source(LINUX, false, true).unwrap()),
        "res/resources/yt-dlp-bundled"
    );
    assert!(version_source(LINUX, false, false).is_none());
    assert_eq!(bundled_ytdlp_version(Some((true, b" 2025.01.15\n"))), "2025.01.15");
    assert_eq!(bundled_ytdlp_version(Some((true, b"2\xff"))), "2\u{fffd}");
    assert_eq!(bundled_ytdlp_version(Some((false, b"2025.01.15"))), "");
    assert_eq!(bundled_ytdlp_version(None), "");
    assert_eq!(parse_version_output(" 1\n"), "1");
}

#[test]
fn semantic_versions_are_compared() {
    assert!(newer_than("1.10.0", "1.9.0"));
    assert!(!newer_than("1.9.0", "1.10.0"));
    assert!(newer_than("v2.0.0", "1.99.99"));
    assert!(!newer_than("v1.0.0", "1.0.0"));
    assert!(newer_than("1.0.0", "1.0.0-rc.1"));
    assert!(!newer_than("1.0.0-rc.1", "1.0.0"));
    assert!(newer_than("1.0.0-rc.11", "1.0.0-rc.2"));
    assert!(newer_than("2025.10.22", "2025.9.30"));
    assert!(!newer_than("v1.2.3", "1.2.3"));
    assert!(newer_than("1.10.0-rc.1", "1.9.0+build"));
    assert!(!newer_than("1.9.0+build", "v1.10.0-rc.1"));
}

#[test]
fn order_of_semantic_versions_is_total_and_transitive() {
    let rising = ["1.0.0-alpha", "1.0.0-alpha.1", "1.0.0-rc.1", "1.0.0", "v1.0.0+1", "1.0.1", "2.0.0"];
    for (i, a) in rising.iter().enumerate() {
        for (j, b) in rising.iter().enumerate() {
            assert_eq!(newer_than(a, b), i > j, "{} {}", a, b);
        }
    }
}

#[test]
fn dates_are_compared_by_their_numbers() {
    assert!(!newer_than("2025.01.15", "2025.02.01"));
    assert!(newer_than("2025.02.01", "2025.01.15"));
    assert!(!newer_than("2025.01.15", "2025.01.15"));
    assert!(newer_than("v2025.10.01", "2025.9.30"));
    assert!(newer_than("2025.01.15.232748", "2025.01.15"));
    assert!(!newer_than("2025.01.15", "2025.01.15.232748"));
    assert!(!newer_than("2025.01.05", "2025.1.5"));
    assert!(!newer_than("2025.1.5", "2025.01.05"));
    assert!(!newer_than("2025.01.15.0", "2025.01.15"));
    assert!(newer_than("100000000000000000000000", "99999999999999999999999"));
    assert!(!newer_by("2025.01.15", "2025.02.01", None));
    assert!(newer_by("2025.02.01", "v2025.01.15", None));
}

#[test]
fn other_versions_are_newer_when_they_differ() {
    assert!(newer_than("nightly", "2025.01.15"));
    assert!(newer_than("2025.01.15", "nightly"));
    assert!(!newer_than("nightly", "nightly"));
    assert!(newer_than("2025..15", "2025.01.15"));
    assert!(newer_than("1.0.0", ""));
    assert!(!newer_than("", ""));
    assert!(newer_by("a", "b", None));
    assert!(!newer_by("a", "b", Some(false)));
    assert!(newer_by("a", "a", Some(true)));
}

#[test]
fn status_tells_of_updates() {
    let s = get_ytdlp_status("1.0.0".to_string(), Some("1.1.0".to_string()), true);
    assert!(s.update_available && s.auto_check);
    assert_eq!(s.bundled_version, "1.0.0");
    assert_eq!(s.latest_version, Some("1.1.0".to_string()));
    assert!(!get_ytdlp_status(String::new(), Some("1.1.0".to_string()), true).update_available);
    assert!(!get_ytdlp_status("1.0.0".to_string(), None, true).update_available);
    let s = check_ytdlp_update(String::new(), Ok("1.1.0".to_string()), false).ok().unwrap();
    assert!(s.update_available && !s.auto_check);
    assert_eq!(
        check_ytdlp_update(String::new(), Err("offline".to_string()), false).err(),
        Some("offline".to_string())
    );
    assert_eq!(startup_update("1.0.0", "1.0.1".to_string()), Some("1.0.1".to_string()));
    assert_eq!(startup_update("1.0.1", "1.0.0".to_string()), None);
    assert_eq!(startup_update("", "1.0.0".to_string()), None);
    assert_eq!(startup_update("x", "x".to_string()), None);
    assert_eq!(startup_update("2025.02.01", "2025.01.15".to_string()), None);
    assert_eq!(
        startup_update("2025.01.15", "2025.02.01".to_string()),
        Some("2025.02.01".to_string())
    );
    let s = get_ytdlp_status("2025.02.01".to_string(), Some("2025.01.15".to_string()), true);
    assert!(!s.update_available);
}

fn asset(name: &str, url: &str) -> GhAsset {
    GhAsset { name: name.to_string(), browser_download_url: url.to_string() }
}

fn release() -> GhRelease {
    GhRelease {
        tag_name: "2025.01.15".to_string(),
        assets: vec![asset("yt-dlp.exe", "w"), asset("yt-dlp", "l1"), asset("yt-dlp", "l2")],
    }
}

#[test]
fn release_file_is_chosen_by_platform() {
    assert_eq!(find_asset(&release(), LINUX), Ok("l1".to_string()));
    assert_eq!(find_asset(&release(), WINDOWS), Ok("w".to_string()));
    assert_eq!(
        find_asset(&release(), MAC_INTEL),
        Err("asset yt-dlp_macos not found in release".to_string())
    );
    let plan = update_ytdlp(ReleaseReply::Release { release: release() }, LINUX).ok().unwrap();
    assert_eq!((plan.url.as_str(), plan.version.as_str()), ("l1", "2025.01.15"));
    assert_eq!(
        update_ytdlp(ReleaseReply::Release { release: release() }, LINUX_ARM).err(),
        Some("asset yt-dlp_aarch64 not found in release".to_string())
    );
}

#[test]
fn release_replies_are_read() {
    assert_eq!(
        fetch_latest_ytdlp_version(ReleaseReply::Release { release: release() }),
        Ok("2025.01.15".to_string())
    );
    assert_eq!(
        fetch_latest_ytdlp_version(ReleaseReply::Refused { status: "403 Forbidden".to_string() }),
        Err("GitHub API returned 403 Forbidden".to_string())
    );
    assert_eq!(
        update_ytdlp(ReleaseReply::Failed { reason: "timeout".to_string() }, LINUX).err(),
        Some("timeout".to_string())
    );
    assert_eq!(release_request().user_agent, "VideoGrab/1.0");
    assert_eq!(release_request().accept, "application/vnd.github+json");
    assert_eq!(
        release_request().url,
        "https://api.github.com/repos/yt-dlp/yt-dlp/releases/latest"
    );
}

#[test]
fn saved_directory_is_loaded_again() {
    for dir in ["", "/home/me/Videos", "C:\\Users\\\"me\"\\Відео", "a\nb\u{1}"] {
        let text = save_last_dir(None, dir);
        assert_eq!(load_last_dir(Some(&text)), dir);
        let again = save_last_dir(Some(&text), "/other");
        assert_eq!(load_last_dir(Some(&again)), "/other");
    }
}

#[test]
fn saving_keeps_other_settings() {
    let text = save_last_dir(Some("{\"theme\":\"dark\",\"n\":[1,2],\"last_dir\":7}"), "/v");
    let v: serde_json::Value = serde_json::from_str(&text).unwrap();
    assert_eq!(v.get("theme").and_then(|t| t.as_str()), Some("dark"));
    assert_eq!(v.get("n").map(|n| n.to_string()), Some("[1,2]".to_string()));
    assert_eq!(v.as_object().map(|m| m.len()), Some(3));
    assert_eq!(load_last_dir(Some(&text)), "/v");
}

#[test]
fn unreadable_settings_start_anew() {
    assert_eq!(load_last_dir(None), "");
    assert_eq!(load_last_dir(Some("not json")), "");
    assert_eq!(load_last_dir(Some("{}")), "");
    assert_eq!(load_last_dir(Some("{\"last_dir\":7}")), "");
    assert_eq!(load_last_dir(Some("[]")), "");
    assert_eq!(save_last_dir(Some("not json"), "/v"), "{\"last_dir\":\"/v\"}");
    assert_eq!(save_last_dir(Some("null"), "/v"), "{\"last_dir\":\"/v\"}");
    assert_eq!(dir_or_none(None), "");
    assert_eq!(dir_or_none(Some("/d".to_string())), "/d");
}

#[test]
fn settings_that_are_no_object_are_written_over() {
    for content in ["[]", "[1]", "3", "\"s\"", "true"] {
        let text = save_last_dir(Some(content), "/v");
        assert_eq!(text, "{\"last_dir\":\"/v\"}");
        assert_eq!(load_last_dir(Some(&text)), "/v");
    }
}

#[test]
fn directory_is_put_into_null() {
    let mut v = serde_json::Value::Null;
    put_last_dir(&mut v, "/d");
    assert_eq!(v.to_string(), "{\"last_dir\":\"/d\"}");
}

#[test]
fn report_shows_the_run() {
    assert_eq!(
        raw_version_output(RunOutcome::Ended { code: Some(0), stdout: b"1\n", stderr: b"a\"b" }),
        "exit=0 stdout=\"1\\n\" stderr=\"a\\\"b\""
    );
    assert_eq!(
        raw_version_output(RunOutcome::Ended { code: None, stdout: b"\xff", stderr: b"" }),
        "exit=-1 stdout=\"\u{fffd}\" stderr=\"\""
    );
    assert_eq!(raw_version_output(RunOutcome::NotStarted { reason: "no" }), "spawn error: no");
    assert_eq!(ended_text(Some(2), "o", "e"), "exit=2 stdout=o stderr=e");
    let info = ytdlp_debug_info(
        "/d".to_string(),
        true,
        "/r".to_string(),
        false,
        RunOutcome::NotStarted { reason: "x" },
    );
    assert_eq!(info.data_path, "/d");
    assert!(info.data_exists);
    assert_eq!(info.resource_path, "/r");
    assert!(!info.resource_exists);
    assert_eq!(info.raw_version_output, "spawn error: x");
}
