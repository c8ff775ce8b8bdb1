use videograb::item::{DownloadItem, FULL};
use videograb::queue::{
    cancel_download, clear_queue, enqueue, get_queue, handle_line, initial_state, lookup,
    record_metadata, record_start_failure, remove_item, restore_history, set_auto_check,
    settle_item, start_download, wait_and_finalize, wait_child, AppState, ChildState,
};

fn add(state: &mut AppState, id: &str) -> DownloadItem {
    enqueue(
        state,
        id.to_string(),
        format!("https://example.org/{}", id),
        "video".to_string(),
        "720".to_string(),
        "/videos".to_string(),
    )
}

fn item(state: &AppState, id: &str) -> DownloadItem {
    lookup(state, id).unwrap()
}

fn ids(items: &Vec<DownloadItem>) -> Vec<String> {
    items.iter().map(|i| i.id.clone()).collect()
}

fn is_random_id(s: &str) -> bool {
    let b = s.as_bytes();
    b.len() == 36
        && b[14] == b'4'
        && matches!(b[19], b'8' | b'9' | b'a' | b'b')
        && b.iter().enumerate().all(|(i, c)| match i {
            8 | 13 | 18 | 23 => *c == b'-',
            _ => c.is_ascii_digit() || (b'a'..=b'f').contains(c),
        })
}

#[test]
fn new_download_waits_at_the_end() {
    let mut s = initial_state();
    add(&mut s, "one");
    let i = start_download(
        &mut s,
        "u".to_string(),
        "audio".to_string(),
        "mp3".to_string(),
        "/d".to_string(),
    );
    assert!(is_random_id(&i.id));
    assert_eq!(i.status, "pending");
    assert_eq!(i.stage, "info");
    assert_eq!(i.progress, 0);
    assert_eq!(i.mode, "audio");
    assert_eq!(i.quality, "mp3");
    assert_eq!(i.url, "u");
    assert_eq!(i.save_dir, "/d");
    assert!(i.media_id.is_none() && i.title.is_none() && i.speed.is_none() && i.error.is_none());
    assert_eq!(ids(&get_queue(&s)), vec!["one".to_string(), i.id.clone()]);
    let j = start_download(
        &mut s,
        "u".to_string(),
        "audio".to_string(),
        "mp3".to_string(),
        "/d".to_string(),
    );
    assert_ne!(i.id, j.id);
}

#[test]
fn lines_move_a_download_forward() {
    let mut s = initial_state();
    add(&mut s, "a");
    add(&mut s, "b");
    let shown = handle_line(&mut s, "b", "[download] 50% of x at 1MiB/s ETA 2", Some(5000));
    assert_eq!(shown.len(), 1);
    assert_eq!(shown[0].progress, 5000);
    assert_eq!(shown[0].stage, "downloading");
    assert_eq!(shown[0].speed, Some("1MiB/s".to_string()));
    assert_eq!(item(&s, "a").progress, 0);
    let shown = handle_line(&mut s, "b", "[Merger] Merging formats", None);
    assert_eq!(shown.len(), 2);
    assert_eq!(shown[0].stage, "merging");
    assert_eq!(shown[0].title, None);
    assert_eq!(shown[1].title, Some("Merging formats".to_string()));
    assert_eq!(item(&s, "b").progress, FULL);
    handle_line(&mut s, "b", "[download] Download completed", None);
    assert_eq!(item(&s, "b").status, "done");
    assert_eq!(item(&s, "b").stage, "done");
    assert!(s.last_line.is_none());
}

#[test]
fn information_lines_are_remembered() {
    let mut s = initial_state();
    add(&mut s, "a");
    let line = "[info] Writing video metadata as JSON to: /m/dQw4w9WgXcQ.info.json";
    let shown = handle_line(&mut s, "a", line, None);
    assert_eq!(shown.len(), 2);
    assert_eq!(item(&s, "a").media_id, Some("dQw4w9WgXcQ".to_string()));
    assert_eq!(s.last_line, Some(line.to_string()));
    handle_line(&mut s, "a", "[info] Other: x", None);
    assert_eq!(
        item(&s, "a").title,
        Some("Writing video metadata as JSON to".to_string())
    );
    assert_eq!(s.last_line, Some("[info] Other: x".to_string()));
}

#[test]
fn lines_for_unknown_downloads_show_nothing() {
    let mut s = initial_state();
    add(&mut s, "a");
    assert_eq!(handle_line(&mut s, "x", "[info] T: y", None).len(), 0);
    assert_eq!(s.last_line, Some("[info] T: y".to_string()));
    assert!(item(&s, "a").title.is_none());
}

#[test]
fn finished_downloads_stay_finished() {
    let mut s = initial_state();
    add(&mut s, "a");
    handle_line(&mut s, "a", "[download] Download completed", None);
    handle_line(&mut s, "a", "ERROR: late", None);
    cancel_download(&mut s, "a", true);
    settle_item(&mut s, "a", false);
    let i = item(&s, "a");
    assert_eq!(i.status, "done");
    assert_eq!(i.error, None);
}

#[test]
fn first_error_is_kept() {
    let mut s = initial_state();
    add(&mut s, "a");
    handle_line(&mut s, "a", "ERROR: first", None);
    handle_line(&mut s, "a", "[error] second", None);
    assert_eq!(item(&s, "a").status, "error");
    assert_eq!(item(&s, "a").error, Some("first".to_string()));
}

#[test]
fn successful_exit_completes() {
    let mut s = initial_state();
    add(&mut s, "a");
    let (ok, shown) = wait_and_finalize(&mut s, "a", Some(true));
    assert!(ok);
    let i = shown.unwrap();
    assert_eq!((i.status.as_str(), i.stage.as_str(), i.progress), ("done", "done", FULL));
}

#[test]
fn failed_exit_takes_the_last_line() {
    let mut s = initial_state();
    add(&mut s, "a");
    add(&mut s, "b");
    handle_line(&mut s, "a", "[info] Bot check", None);
    let (ok, shown) = wait_and_finalize(&mut s, "a", Some(false));
    assert!(!ok);
    assert_eq!(shown.unwrap().error, Some("[info] Bot check".to_string()));
    assert!(s.last_line.is_none());
    let (_, shown) = wait_and_finalize(&mut s, "b", None);
    let i = shown.unwrap();
    assert_eq!(i.status, "error");
    assert_eq!(i.error, Some("yt-dlp exited with an error".to_string()));
}

#[test]
fn exit_without_need_leaves_the_last_line() {
    let mut s = initial_state();
    add(&mut s, "a");
    handle_line(&mut s, "a", "[info] x", None);
    handle_line(&mut s, "a", "ERROR: reason", None);
    wait_and_finalize(&mut s, "a", Some(false));
    assert_eq!(item(&s, "a").error, Some("reason".to_string()));
    assert_eq!(s.last_line, Some("[info] x".to_string()));
    let (ok, shown) = wait_and_finalize(&mut s, "nobody", Some(true));
    assert!(ok);
    assert!(shown.is_none());
}

#[test]
fn cancelled_download_keeps_its_message() {
    let mut s = initial_state();
    add(&mut s, "a");
    add(&mut s, "b");
    let shown = cancel_download(&mut s, "a", true).unwrap();
    assert_eq!(shown.status, "error");
    assert_eq!(shown.error, Some("Скасування завантаження".to_string()));
    wait_and_finalize(&mut s, "a", Some(false));
    handle_line(&mut s, "a", "ERROR: killed", None);
    assert_eq!(item(&s, "a").error, Some("Скасування завантаження".to_string()));
    let shown = cancel_download(&mut s, "b", false).unwrap();
    assert_eq!(shown.error, Some("Очікує скасування".to_string()));
    assert!(cancel_download(&mut s, "nobody", true).is_none());
}

#[test]
fn polls_are_judged() {
    assert_eq!(wait_child(ChildState::Exited { success: true }), Some(true));
    assert_eq!(wait_child(ChildState::Exited { success: false }), Some(false));
    assert_eq!(wait_child(ChildState::Running), None);
    assert_eq!(wait_child(ChildState::Unknown), Some(false));
    assert_eq!(wait_child(ChildState::Gone), Some(false));
}

#[test]
fn metadata_and_start_failure_are_recorded() {
    let mut s = initial_state();
    add(&mut s, "a");
    assert!(record_metadata(&mut s, "a", None).is_none());
    let shown =
        record_metadata(&mut s, "a", Some(("vid123".to_string(), "T".to_string()))).unwrap();
    assert_eq!(shown.media_id, Some("vid123".to_string()));
    assert_eq!(shown.title, Some("T".to_string()));
    record_metadata(&mut s, "a", Some(("vid456".to_string(), "U".to_string())));
    assert_eq!(item(&s, "a").media_id, Some("vid456".to_string()));
    assert_eq!(item(&s, "a").title, Some("T".to_string()));
    let shown = record_start_failure(&mut s, "a", "/bin/yt-dlp", "not found").unwrap();
    assert_eq!(shown.status, "error");
    assert_eq!(shown.error, Some("Cannot start yt-dlp (/bin/yt-dlp): not found.".to_string()));
}

#[test]
fn removal_takes_all_of_an_id_and_nothing_else() {
    let mut s = initial_state();
    add(&mut s, "a");
    add(&mut s, "b");
    add(&mut s, "a");
    add(&mut s, "c");
    handle_line(&mut s, "a", "[download] 1% of", Some(100));
    let target = remove_item(&mut s, "a").unwrap();
    assert_eq!(target.progress, 100);
    assert_eq!(ids(&s.queue), vec!["b".to_string(), "c".to_string()]);
    assert!(remove_item(&mut s, "a").is_none());
    assert_eq!(ids(&s.queue), vec!["b".to_string(), "c".to_string()]);
}

#[test]
fn queue_is_cleared_and_restored() {
    let mut s = initial_state();
    add(&mut s, "a");
    let old = get_queue(&s);
    clear_queue(&mut s);
    assert!(s.queue.is_empty());
    add(&mut s, "b");
    assert!(restore_history(&mut s, Vec::new()).is_none());
    let shown = restore_history(&mut s, old).unwrap();
    assert_eq!(ids(&shown), vec!["b".to_string(), "a".to_string()]);
    assert_eq!(ids(&s.queue), ids(&shown));
}

#[test]
fn automatic_check_is_switched() {
    let mut s = initial_state();
    assert!(s.auto_check_ytdlp);
    assert_eq!(s.ytdlp_version, "");
    set_auto_check(&mut s, false);
    assert!(!s.auto_check_ytdlp);
}

#[test]
fn what_is_known_survives_all_lines() {
    let mut s = initial_state();
    add(&mut s, "a");
    record_metadata(&mut s, "a", Some(("vid123".to_string(), "T".to_string())));
    handle_line(&mut s, "a", "ERROR: first", None);
    for line in [
        "[info] Other: x",
        "[info] Writing video metadata as JSON to: /m/dQw4w9WgXcQ.info.json",
        "[Merger] Third: y",
        "[error] second",
        "[download] Download completed",
    ] {
        handle_line(&mut s, "a", line, None);
        let i = item(&s, "a");
        assert_eq!(i.title, Some("T".to_string()));
        assert_eq!(i.media_id, Some("vid123".to_string()));
        assert_eq!(i.error, Some("first".to_string()));
    }
}

#[test]
fn ids_in_the_queue_stay_distinct() {
    let mut s = initial_state();
    for _ in 0..50 {
        let url = "u".to_string();
        start_download(&mut s, url, "video".to_string(), "best".to_string(), "/d".to_string());
    }
    let gone = s.queue[7].id.clone();
    remove_item(&mut s, &gone);
    let first = s.queue[0].id.clone();
    handle_line(&mut s, &first, "[download] Download completed", None);
    let mut all = ids(&s.queue);
    all.sort();
    all.dedup();
    assert_eq!(all.len(), 49);
}
