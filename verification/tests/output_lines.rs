use videograb::item::ItemUpdate;
use videograb::output::{
    fetch_metadata, line_changes, media_id_of_stem, parse_media_id_line, parse_metadata,
    parse_progress_line, parse_title_line, percent_text,
};

fn hundredths(text: Option<&str>) -> Option<i64> {
    let p: f64 = text?.parse().ok()?;
    Some((p * 100.0).round() as i64)
}

fn progress(line: &str) -> Option<(u32, Option<String>)> {
    parse_progress_line(line, hundredths(percent_text(line)))
}

fn kinds(line: &str) -> Vec<String> {
    let changes = line_changes(line, hundredths(percent_text(line)), parse_media_id_line(line));
    changes
        .into_iter()
        .map(|u| match u {
            ItemUpdate::Metadata { media_id, title } => format!("metadata {} {}", media_id, title),
            ItemUpdate::StartFailed { error } => format!("start failed {}", error),
            ItemUpdate::Progress { progress, speed } => {
                format!("progress {} {}", progress, speed.unwrap_or("-".to_string()))
            }
            ItemUpdate::Completed => "completed".to_string(),
            ItemUpdate::Title { title } => format!("title {}", title),
            ItemUpdate::MediaId { media_id } => format!("id {}", media_id),
            ItemUpdate::Merging => "merging".to_string(),
            ItemUpdate::Failed { message } => format!("failed {}", message),
            ItemUpdate::Cancelled { was_running } => format!("cancelled {}", was_running),
            ItemUpdate::Settled { ok, .. } => format!("settled {}", ok),
        })
        .collect()
}

#[test]
fn progress_line_gives_percent_and_speed() {
    let line = "[download]  52.8% of  967.79KiB at  232.51KiB/s ETA 00:01";
    assert_eq!(percent_text(line), Some("52.8"));
    assert_eq!(progress(line), Some((5280, Some("232.51KiB/s".to_string()))));
}

#[test]
fn progress_line_without_eta_or_speed() {
    assert_eq!(
        progress("  [download] 100% of 3.00MiB in 00:01 at 2.5MiB/s  "),
        Some((10000, Some("2.5MiB/s".to_string())))
    );
    assert_eq!(progress("[download] 7% of 3.00MiB"), Some((700, None)));
    assert_eq!(progress("[download] 12.345"), Some((1235, None)));
}

#[test]
fn progress_is_clamped() {
    assert_eq!(progress("[download] 250% of x"), Some((10000, None)));
    assert_eq!(progress("[download] -3% of x"), Some((0, None)));
    assert_eq!(progress("[download] inf% of x"), Some((10000, None)));
    assert_eq!(progress("[download] NaN% of x"), Some((0, None)));
}

#[test]
fn other_lines_have_no_progress() {
    assert_eq!(progress("[download] Destination: a.mp4"), None);
    assert_eq!(progress("[info] 5% of"), None);
    assert_eq!(percent_text("[info] 5% of"), None);
    assert_eq!(percent_text("[download] Destination: 5%"), Some("Destination: 5"));
}

#[test]
fn title_line_gives_the_title() {
    assert_eq!(
        parse_title_line("[info] Title Here: Downloading 1 format(s)"),
        Some("Title Here".to_string())
    );
    assert_eq!(parse_title_line("[info] no colon "), Some("no colon".to_string()));
    assert_eq!(parse_title_line("[Merger] Name: joining"), Some("Name".to_string()));
    assert_eq!(parse_title_line("[info]  : x"), None);
    assert_eq!(parse_title_line("[info]"), None);
    assert_eq!(parse_title_line("[download] Title: x"), None);
    assert_eq!(parse_title_line(" [info] Title: x"), None);
}

#[test]
fn media_id_line_gives_the_id() {
    assert_eq!(
        parse_media_id_line(
            "[info] Writing video metadata as JSON to: /path/media/dQw4w9WgXcQ.info.json"
        ),
        Some("dQw4w9WgXcQ".to_string())
    );
    assert_eq!(
        parse_media_id_line("[info] Writing video metadata as JSON to: abcdef.json"),
        Some("abcdef".to_string())
    );
}

#[test]
fn media_id_has_the_length_of_one() {
    let mark = "[info] Writing video metadata as JSON to:";
    let read = |name: &str| parse_media_id_line(&format!("{} /m/{}.info.json", mark, name));
    assert_eq!(read("abcde"), None);
    assert_eq!(read("abcdef"), Some("abcdef".to_string()));
    assert_eq!(read("abcdefghijklmno"), Some("abcdefghijklmno".to_string()));
    assert_eq!(read("abcdefghijklmnop"), None);
    assert_eq!(parse_media_id_line(mark), None);
    assert_eq!(parse_media_id_line("[info] something else"), None);
    assert_eq!(media_id_of_stem(Some("dQw4w9WgXcQ.info")), Some("dQw4w9WgXcQ".to_string()));
    assert_eq!(media_id_of_stem(None), None);
}

#[test]
fn media_id_stands_in_its_line() {
    let mark = "[info] Writing video metadata as JSON to:";
    for path in ["//srv/share/abcdef.info.json", "/m/abcdef/", "/m/abcdef/.", "a/b/..", "/", "..abcdef"] {
        let line = format!("{} {}", mark, path);
        if let Some(id) = parse_media_id_line(&line) {
            assert!(line.contains(&id) && id.len() > 5 && id.len() < 16 && !id.contains('/'));
        }
    }
    assert_eq!(parse_media_id_line(&format!("{} /m/abcdef/", mark)), Some("abcdef".to_string()));
}

#[test]
fn download_lines_change_the_progress() {
    assert_eq!(kinds("[download] 10.5% of x at 1MiB/s ETA 1"), vec!["progress 1050 1MiB/s"]);
    assert_eq!(kinds("[download] 100% of 1MiB"), vec!["progress 10000 -"]);
    assert_eq!(kinds("[download] Destination: 100%.mp4"), Vec::<String>::new());
    assert_eq!(kinds("[download] Download completed"), vec!["completed"]);
    assert_eq!(kinds("[download] got 100% of it"), vec!["completed"]);
    assert_eq!(kinds("[download] Resuming"), Vec::<String>::new());
}

#[test]
fn information_lines_bring_title_and_id() {
    assert_eq!(kinds("[info] A Title: Downloading"), vec!["title A Title"]);
    assert_eq!(
        kinds("[info] Writing video metadata as JSON to: /m/dQw4w9WgXcQ.info.json"),
        vec!["title Writing video metadata as JSON to", "id dQw4w9WgXcQ"]
    );
    assert_eq!(kinds("[Merger] Merging"), vec!["merging", "title Merging"]);
    assert_eq!(kinds("[Merger]"), vec!["merging"]);
}

#[test]
fn error_lines_bring_a_message() {
    assert_eq!(kinds("[error]  no network "), vec!["failed no network"]);
    assert_eq!(kinds("ERROR: [youtube] x: Private video"), vec!["failed [youtube] x: Private video"]);
    assert_eq!(kinds("WARNING: x"), Vec::<String>::new());
    assert_eq!(kinds(""), Vec::<String>::new());
}

#[test]
fn look_up_gives_id_and_title() {
    assert_eq!(
        parse_metadata(" dQw4w9WgXcQ\tA\tTitle \n"),
        Some(("dQw4w9WgXcQ".to_string(), "A\tTitle".to_string()))
    );
    assert_eq!(parse_metadata("abcd\tTitle"), None);
    assert_eq!(parse_metadata("no tab here"), None);
    assert_eq!(
        fetch_metadata(true, b"dQw4w9WgXcQ\tTitle\n"),
        Some(("dQw4w9WgXcQ".to_string(), "Title".to_string()))
    );
    assert_eq!(fetch_metadata(false, b"dQw4w9WgXcQ\tTitle\n"), None);
}

#[test]
fn look_up_replaces_broken_bytes() {
    assert_eq!(
        fetch_metadata(true, b"abcdef\ta\xffb"),
        Some(("abcdef".to_string(), "a\u{fffd}b".to_string()))
    );
}
