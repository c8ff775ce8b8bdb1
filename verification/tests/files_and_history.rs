use videograb::history::{
    asks_for_listing, cancel_disposal, cleanup_media, load_history, output_files,
    removal_disposal, remove_partial_files_for, removed_files, DirEntry, Disposal, StoredEntry,
};
use videograb::item::DownloadItem;
use videograb::media::{first_existing, thumbnail_for, thumbnail_names};

fn file(name: &str) -> DirEntry {
    DirEntry { name: name.to_string(), is_file: true }
}

fn dir(name: &str) -> DirEntry {
    DirEntry { name: name.to_string(), is_file: false }
}

fn entry(id: &str, status: &str, media_id: Option<&str>) -> DownloadItem {
    DownloadItem {
        id: id.to_string(),
        url: "u".to_string(),
        mode: "video".to_string(),
        quality: "best".to_string(),
        save_dir: "/v".to_string(),
        status: status.to_string(),
        stage: "done".to_string(),
        media_id: media_id.map(|m| m.to_string()),
        title: None,
        progress: 0,
        speed: None,
        error: None,
    }
}

fn stored(item: DownloadItem, listing: Option<Vec<DirEntry>>) -> StoredEntry {
    StoredEntry { item, listing }
}

#[test]
fn files_of_a_video_are_recognized_by_the_bracketed_id() {
    let listing = vec![
        file("Title: <odd> [dQw4w9WgXcQ].mp4"),
        file("Title [dQw4w9WgXcQ].f137.webm.part"),
        dir("backup [dQw4w9WgXcQ]"),
        file("dQw4w9WgXcQ.mp4"),
        file("Other [abcdefghijk].mp4"),
    ];
    assert_eq!(
        output_files(&listing, "dQw4w9WgXcQ"),
        vec!["Title: <odd> [dQw4w9WgXcQ].mp4", "Title [dQw4w9WgXcQ].f137.webm.part"]
    );
    assert_eq!(output_files(&Vec::new(), "x"), Vec::<String>::new());
}

#[test]
fn media_files_begin_with_the_id() {
    let listing = vec![
        file("abcdef.jpg"),
        file("abcdef.info.json"),
        file("abcdefg.jpg"),
        dir("abcdef.d"),
        file("x abcdef.jpg"),
    ];
    assert_eq!(cleanup_media(&listing, "abcdef"), vec!["abcdef.jpg", "abcdef.info.json"]);
}

#[test]
fn every_thumbnail_is_a_media_file() {
    for name in thumbnail_names("abcdef") {
        assert_eq!(cleanup_media(&vec![file(&name)], "abcdef"), vec![name]);
    }
}

#[test]
fn thumbnails_are_tried_in_order() {
    assert_eq!(thumbnail_names("id"), vec!["id.jpg", "id.jpeg", "id.png", "id.webp"]);
    assert_eq!(thumbnail_for("id", &vec![false, false, true, true]), Ok("id.png".to_string()));
    assert_eq!(
        thumbnail_for("id", &vec![false, false, false, false]),
        Err("no thumbnail".to_string())
    );
    assert_eq!(first_existing(&vec![false, true, true]), Some(1));
    assert_eq!(first_existing(&Vec::new()), None);
}

#[test]
fn cancelling_disposes_of_known_videos() {
    let d = cancel_disposal(&entry("a", "running", Some("vid"))).unwrap();
    assert_eq!((d.save_dir.as_str(), d.media_id.as_str()), ("/v", "vid"));
    assert!(cancel_disposal(&entry("a", "running", None)).is_none());
    let listing = Some(vec![file("t [vid].part"), file("t.mp4")]);
    assert_eq!(remove_partial_files_for(&listing, Some("vid")), vec!["t [vid].part"]);
    assert_eq!(remove_partial_files_for(&listing, None), Vec::<String>::new());
    assert_eq!(remove_partial_files_for(&None, Some("vid")), Vec::<String>::new());
}

#[test]
fn removing_disposes_of_finished_videos() {
    assert!(removal_disposal(&entry("a", "error", Some("vid"))).is_none());
    assert!(removal_disposal(&entry("a", "done", None)).is_none());
    let d = removal_disposal(&entry("a", "done", Some("vid"))).unwrap();
    assert_eq!(
        removed_files(&Some(vec![file("t [vid].mp4"), file("o.mp4")]), &d),
        Some(vec!["t [vid].mp4".to_string()])
    );
    let d = Disposal { save_dir: "/v".to_string(), media_id: "vid".to_string() };
    assert_eq!(removed_files(&None, &d), None);
}

#[test]
fn history_keeps_what_is_still_there() {
    let history = vec![
        stored(entry("there", "done", Some("v1")), Some(vec![dir("x [v1]"), file("t [v1].mp4")])),
        stored(entry("gone", "done", Some("v2")), Some(vec![file("t [v1].mp4")])),
        stored(entry("nodir", "done", Some("v3")), None),
        stored(entry("noid", "done", None), None),
        stored(entry("failed", "error", Some("v4")), None),
        stored(entry("waiting", "pending", None), None),
        stored(entry("working", "running", Some("v5")), None),
        stored(entry("odd", "cancelled", None), None),
    ];
    let r = load_history(&history);
    let kept: Vec<&str> = r.kept.iter().map(|i| i.id.as_str()).collect();
    assert_eq!(kept, vec!["there", "failed", "odd"]);
    assert_eq!(r.orphans, vec!["v2", "v3"]);
    assert!(r.changed);
}

#[test]
fn loading_again_keeps_everything() {
    let history = vec![
        stored(entry("there", "done", Some("v1")), Some(vec![file("t [v1].mp4")])),
        stored(entry("failed", "error", None), None),
    ];
    let r = load_history(&history);
    assert_eq!(r.kept.len(), 2);
    assert!(r.orphans.is_empty());
    assert!(!r.changed);
    assert!(!load_history(&Vec::new()).changed);
}

#[test]
fn only_finished_videos_need_a_look() {
    assert!(asks_for_listing(&entry("a", "done", Some("v"))));
    assert!(!asks_for_listing(&entry("a", "done", None)));
    assert!(!asks_for_listing(&entry("a", "error", Some("v"))));
}

#[test]
fn finished_videos_are_kept_until_their_files_go() {
    let names = ["t [v1].mp4", "t [v1].part", "o [v2].mp4"];
    let listing: Vec<DirEntry> = names.iter().map(|n| file(n)).collect();
    let gone = output_files(&listing, "v1");
    assert_eq!(gone, vec!["t [v1].mp4", "t [v1].part"]);
    let left: Vec<DirEntry> =
        names.iter().filter(|n| !gone.contains(&n.to_string())).map(|n| file(n)).collect();
    let before = load_history(&vec![stored(entry("a", "done", Some("v1")), Some(listing))]);
    assert_eq!(before.kept.len(), 1);
    let after = load_history(&vec![stored(entry("a", "done", Some("v1")), Some(left))]);
    assert_eq!(after.kept.len(), 0);
    assert_eq!(after.orphans, vec!["v1"]);
}
