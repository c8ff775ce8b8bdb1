use videograb::download::{next_step, DownloadAction, DownloadEvent};
use videograb::item::DownloadItem;
use videograb::platform::{Arch, Os, Platform};
use videograb::queue::{cancel_download, enqueue, initial_state, lookup, AppState};

const LINUX: Platform = Platform { os: Os::Other, arch: Arch::X86_64 };

fn add(state: &mut AppState, id: &str) -> DownloadItem {
    enqueue(
        state,
        id.to_string(),
        "u".to_string(),
        "audio".to_string(),
        "mp3".to_string(),
        "/d".to_string(),
    )
}

fn shown(action: DownloadAction) -> String {
    match action {
        DownloadAction::LookUp { args } => format!("look up {}", args.join(" ")),
        DownloadAction::Start { args } => format!("start {}", args[8..].join(" ")),
        DownloadAction::Watch => "watch".to_string(),
        DownloadAction::Store => "store".to_string(),
        DownloadAction::Stop => "stop".to_string(),
    }
}

#[test]
fn download_goes_its_course() {
    let mut s = initial_state();
    add(&mut s, "other");
    let item = add(&mut s, "a");
    let r = next_step(LINUX, &mut s, &item, "/m", DownloadEvent::Queued);
    assert_eq!(shown(r.action), "look up --no-download --print %(id)s\t%(title)s u");
    assert!(r.shown.is_none());
    let event = DownloadEvent::LookedUp { success: true, stdout: b"abcdef\tT\n".to_vec() };
    let r = next_step(LINUX, &mut s, &item, "/m", event);
    assert_eq!(shown(r.action), "start -x --audio-format mp3 --audio-quality 0 u");
    assert_eq!(r.shown.unwrap().title, Some("T".to_string()));
    let r = next_step(LINUX, &mut s, &item, "/m", DownloadEvent::Started);
    assert_eq!(shown(r.action), "watch");
    assert!(r.shown.is_none());
    let r = next_step(LINUX, &mut s, &item, "/m", DownloadEvent::Watched { waited: Some(true) });
    assert_eq!(shown(r.action), "store");
    assert_eq!(r.shown.unwrap().status, "done");
    assert_eq!(lookup(&s, "other").unwrap().status, "pending");
}

#[test]
fn download_goes_on_without_a_look_up() {
    let mut s = initial_state();
    let item = add(&mut s, "a");
    let r = next_step(LINUX, &mut s, &item, "/m", DownloadEvent::NotLookedUp);
    assert_eq!(shown(r.action), "start -x --audio-format mp3 --audio-quality 0 u");
    assert!(r.shown.is_none());
    let event = DownloadEvent::LookedUp { success: false, stdout: b"abcdef\tT\n".to_vec() };
    let r = next_step(LINUX, &mut s, &item, "/m", event);
    assert_eq!(shown(r.action), "start -x --audio-format mp3 --audio-quality 0 u");
    assert!(r.shown.is_none());
    assert!(lookup(&s, "a").unwrap().media_id.is_none());
}

#[test]
fn download_that_does_not_start_is_over() {
    let mut s = initial_state();
    let item = add(&mut s, "a");
    let event = DownloadEvent::NotStarted { program: "p".to_string(), reason: "r".to_string() };
    let r = next_step(LINUX, &mut s, &item, "/m", event);
    assert_eq!(shown(r.action), "stop");
    assert_eq!(r.shown.unwrap().error, Some("Cannot start yt-dlp (p): r.".to_string()));
}

#[test]
fn cancelled_download_is_over() {
    let mut s = initial_state();
    let item = add(&mut s, "a");
    cancel_download(&mut s, "a", true);
    let r = next_step(LINUX, &mut s, &item, "/m", DownloadEvent::Gone);
    assert_eq!(shown(r.action), "stop");
    assert!(r.shown.is_none());
    let r = next_step(LINUX, &mut s, &item, "/m", DownloadEvent::Watched { waited: Some(false) });
    assert_eq!(shown(r.action), "store");
    assert_eq!(r.shown.unwrap().error, Some("Скасування завантаження".to_string()));
}

#[test]
fn download_that_is_not_over_in_time_has_failed() {
    let mut s = initial_state();
    let item = add(&mut s, "a");
    let r = next_step(LINUX, &mut s, &item, "/m", DownloadEvent::Watched { waited: None });
    assert_eq!(shown(r.action), "store");
    assert_eq!(r.shown.unwrap().error, Some("yt-dlp exited with an error".to_string()));
}
