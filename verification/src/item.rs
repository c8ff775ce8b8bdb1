//! One entry of the download queue and the changes it can go through.
use crate::text::{same, text_opt};
use vstd::prelude::*;

verus! {

/// A finished download, in the unit of `DownloadItem::progress`.
pub const FULL: u32 = 10000;

/// One entry of the download queue.
///
/// `mode` is "video" or "audio". `quality` is "best", "1080", "720" or "480"
/// for video, "mp3" or "m4a" for audio. `status` starts as "pending" and ends
/// as "done" or "error". `stage` goes from "info" over "downloading" and
/// "merging" to "done". `progress` counts hundredths of a percent, from 0 to
/// 100 %.
#[derive(Debug)]
pub struct DownloadItem {
    pub id: String,
    pub url: String,
    pub mode: String,
    pub quality: String,
    pub save_dir: String,
    pub status: String,
    pub stage: String,
    pub media_id: Option<String>,
    pub title: Option<String>,
    pub progress: u32,
    pub speed: Option<String>,
    pub error: Option<String>,
}

/// What a `DownloadItem` holds.
#[verifier::ext_equal]
pub struct ItemView {
    pub id: Seq<char>,
    pub url: Seq<char>,
    pub mode: Seq<char>,
    pub quality: Seq<char>,
    pub save_dir: Seq<char>,
    pub status: Seq<char>,
    pub stage: Seq<char>,
    pub media_id: Option<Seq<char>>,
    pub title: Option<Seq<char>>,
    pub progress: int,
    pub speed: Option<Seq<char>>,
    pub error: Option<Seq<char>>,
}

impl View for DownloadItem {
    type V = ItemView;

    open spec fn view(&self) -> ItemView {
        ItemView {
            id: self.id@,
            url: self.url@,
            mode: self.mode@,
            quality: self.quality@,
            save_dir: self.save_dir@,
            status: self.status@,
            stage: self.stage@,
            media_id: text_opt(self.media_id),
            title: text_opt(self.title),
            progress: self.progress as int,
            speed: text_opt(self.speed),
            error: text_opt(self.error),
        }
    }
}

/// A change to one entry.
pub enum ItemUpdate {
    /// The video was looked up before its download.
    Metadata { media_id: String, title: String },
    /// The download process could not be started.
    StartFailed { error: String },
    /// The download reported how far it is.
    Progress { progress: u32, speed: Option<String> },
    /// The download reported that it is complete.
    Completed,
    /// A title was read from the output.
    Title { title: String },
    /// The id of the video was read from the output.
    MediaId { media_id: String },
    /// The streams are being joined into one file.
    Merging,
    /// The download reported an error.
    Failed { message: String },
    /// The user cancelled the entry.
    Cancelled { was_running: bool },
    /// The download process ended.
    Settled { ok: bool, detail: Option<String> },
}

/// What an `ItemUpdate` holds.
#[verifier::ext_equal]
pub enum UpdateView {
    Metadata { media_id: Seq<char>, title: Seq<char> },
    StartFailed { error: Seq<char> },
    Progress { progress: int, speed: Option<Seq<char>> },
    Completed,
    Title { title: Seq<char> },
    MediaId { media_id: Seq<char> },
    Merging,
    Failed { message: Seq<char> },
    Cancelled { was_running: bool },
    Settled { ok: bool, detail: Option<Seq<char>> },
}

impl View for ItemUpdate {
    type V = UpdateView;

    open spec fn view(&self) -> UpdateView {
        match *self {
            ItemUpdate::Metadata { media_id, title } => UpdateView::Metadata {
                media_id: media_id@,
                title: title@,
            },
            ItemUpdate::StartFailed { error } => UpdateView::StartFailed { error: error@ },
            ItemUpdate::Progress { progress, speed } => UpdateView::Progress {
                progress: progress as int,
                speed: text_opt(speed),
            },
            ItemUpdate::Completed => UpdateView::Completed,
            ItemUpdate::Title { title } => UpdateView::Title { title: title@ },
            ItemUpdate::MediaId { media_id } => UpdateView::MediaId { media_id: media_id@ },
            ItemUpdate::Merging => UpdateView::Merging,
            ItemUpdate::Failed { message } => UpdateView::Failed { message: message@ },
            ItemUpdate::Cancelled { was_running } => UpdateView::Cancelled { was_running },
            ItemUpdate::Settled { ok, detail } => UpdateView::Settled {
                ok,
                detail: text_opt(detail),
            },
        }
    }
}

/// `new` where nothing was there before.
pub open spec fn kept_or(before: Option<Seq<char>>, new: Seq<char>) -> Option<Seq<char>> {
    match before {
        Some(s) => Some(s),
        None => Some(new),
    }
}

/// The entry has reached its end and the exit of its process changes nothing.
pub open spec fn ended(i: ItemView) -> bool {
    i.status == "done"@ || i.status == "error"@ || i.status == "cancelled"@
}

/// The message of an entry that was cancelled.
pub open spec fn cancel_message(was_running: bool) -> Seq<char> {
    if was_running {
        "Скасування завантаження"@
    } else {
        "Очікує скасування"@
    }
}

/// The entry as it is marked when its download is complete.
pub open spec fn completed(i: ItemView) -> ItemView {
    ItemView { status: "done"@, progress: FULL as int, stage: "done"@, ..i }
}

/// The entry `i` after the change `u`.
pub open spec fn updated(i: ItemView, u: UpdateView) -> ItemView {
    match u {
        UpdateView::Metadata { media_id, title } => ItemView {
            media_id: Some(media_id),
            title: kept_or(i.title, title),
            ..i
        },
        UpdateView::StartFailed { error } => ItemView {
            status: "error"@,
            error: Some(error),
            ..i
        },
        UpdateView::Progress { progress, speed } => ItemView {
            progress,
            speed,
            stage: if i.stage == "info"@ {
                "downloading"@
            } else {
                i.stage
            },
            ..i
        },
        UpdateView::Completed => completed(i),
        UpdateView::Title { title } => ItemView { title: kept_or(i.title, title), ..i },
        UpdateView::MediaId { media_id } => ItemView {
            media_id: kept_or(i.media_id, media_id),
            ..i
        },
        UpdateView::Merging => ItemView { stage: "merging"@, progress: FULL as int, ..i },
        UpdateView::Failed { message } => if i.status == "done"@ {
            i
        } else {
            ItemView { status: "error"@, error: kept_or(i.error, message), ..i }
        },
        UpdateView::Cancelled { was_running } => if i.status == "pending"@ || i.status
            == "running"@ {
            ItemView { status: "error"@, error: Some(cancel_message(was_running)), ..i }
        } else {
            i
        },
        UpdateView::Settled { ok, detail } => if ended(i) {
            i
        } else if ok {
            completed(i)
        } else if i.error is None {
            ItemView {
                status: "error"@,
                error: Some(
                    match detail {
                        Some(d) => d,
                        None => "yt-dlp exited with an error"@,
                    },
                ),
                ..i
            }
        } else {
            i
        },
    }
}

/// Copies an optional string.
pub fn copy_opt(o: &Option<String>) -> (r: Option<String>)
    ensures
        text_opt(r) == text_opt(*o),
{
    match o {
        Some(s) => Some(s.clone()),
        None => None,
    }
}

impl Clone for DownloadItem {
    fn clone(&self) -> (r: Self)
        ensures
            r@ == self@,
    {
        DownloadItem {
            id: self.id.clone(),
            url: self.url.clone(),
            mode: self.mode.clone(),
            quality: self.quality.clone(),
            save_dir: self.save_dir.clone(),
            status: self.status.clone(),
            stage: self.stage.clone(),
            media_id: copy_opt(&self.media_id),
            title: copy_opt(&self.title),
            progress: self.progress,
            speed: copy_opt(&self.speed),
            error: copy_opt(&self.error),
        }
    }
}

/// Tests whether the exit of the process changes nothing in the entry.
pub fn has_ended(item: &DownloadItem) -> (r: bool)
    ensures
        r == ended(item@),
{
    same(item.status.as_str(), "done") || same(item.status.as_str(), "error") || same(
        item.status.as_str(),
        "cancelled",
    )
}

/// Marks an entry as complete.
fn complete(item: &mut DownloadItem)
    ensures
        final(item)@ == completed(old(item)@),
{
    item.status = "done".to_owned();
    item.progress = FULL;
    item.stage = "done".to_owned();
}

/// Carries out one change on an entry.
pub fn apply(item: &mut DownloadItem, update: ItemUpdate)
    ensures
        final(item)@ == updated(old(item)@, update@),
{
    match update {
        ItemUpdate::Metadata { media_id, title } => {
            item.media_id = Some(media_id);
            if item.title.is_none() {
                item.title = Some(title);
            }
        },
        ItemUpdate::StartFailed { error } => {
            item.status = "error".to_owned();
            item.error = Some(error);
        },
        ItemUpdate::Progress { progress, speed } => {
            item.progress = progress;
            item.speed = speed;
            if same(item.stage.as_str(), "info") {
                item.stage = "downloading".to_owned();
            }
        },
        ItemUpdate::Completed => {
            complete(item);
        },
        ItemUpdate::Title { title } => {
            if item.title.is_none() {
                item.title = Some(title);
            }
        },
        ItemUpdate::MediaId { media_id } => {
            if item.media_id.is_none() {
                item.media_id = Some(media_id);
            }
        },
        ItemUpdate::Merging => {
            item.stage = "merging".to_owned();
            item.progress = FULL;
        },
        ItemUpdate::Failed { message } => {
            if !same(item.status.as_str(), "done") {
                item.status = "error".to_owned();
                if item.error.is_none() {
                    item.error = Some(message);
                }
            }
        },
        ItemUpdate::Cancelled { was_running } => {
            if same(item.status.as_str(), "pending") || same(item.status.as_str(), "running") {
                item.status = "error".to_owned();
                item.error = Some(
                    if was_running {
                        "Скасування завантаження".to_owned()
                    } else {
                        "Очікує скасування".to_owned()
                    },
                );
            }
        },
        ItemUpdate::Settled { ok, detail } => {
            if !has_ended(item) {
                if ok {
                    complete(item);
                } else if item.error.is_none() {
                    item.status = "error".to_owned();
                    item.error = Some(
                        match detail {
                            Some(d) => d,
                            None => "yt-dlp exited with an error".to_owned(),
                        },
                    );
                }
            }
        },
    }
}

/// The progress of the entry lies between nothing and all.
pub open spec fn in_range(i: ItemView) -> bool {
    0 <= i.progress <= FULL
}

/// The change sets no progress outside the range.
pub open spec fn change_in_range(u: UpdateView) -> bool {
    u matches UpdateView::Progress { progress, .. } ==> 0 <= progress <= FULL
}

/// No change touches what the user asked for.
pub proof fn change_keeps_request(i: ItemView, u: UpdateView)
    ensures
        updated(i, u).id == i.id,
        updated(i, u).url == i.url,
        updated(i, u).mode == i.mode,
        updated(i, u).quality == i.quality,
        updated(i, u).save_dir == i.save_dir,
{
}

/// Progress stays between nothing and all.
pub proof fn progress_stays_in_range(i: ItemView, u: UpdateView)
    requires
        in_range(i),
        change_in_range(u),
    ensures
        in_range(updated(i, u)),
{
}

/// A finished entry stays finished, whatever is reported of it afterwards.
pub proof fn done_stays_done(i: ItemView, u: UpdateView)
    requires
        i.status == "done"@,
        !(u is StartFailed),
    ensures
        updated(i, u).status == "done"@,
{
    reveal_strlit("done");
    reveal_strlit("pending");
    reveal_strlit("running");
    assert("done"@.len() != "pending"@.len());
    assert("done"@.len() != "running"@.len());
}

/// A title that is known is never replaced.
pub proof fn title_is_kept(i: ItemView, u: UpdateView)
    requires
        i.title is Some,
    ensures
        updated(i, u).title == i.title,
{
}

/// A video id that is known is replaced by a look-up only.
pub proof fn media_id_is_kept(i: ItemView, u: UpdateView)
    requires
        i.media_id is Some,
        !(u is Metadata),
    ensures
        updated(i, u).media_id == i.media_id,
{
}

/// An error that is known is replaced only where the user cancels the entry or
/// its process cannot be started.
pub proof fn error_is_kept(i: ItemView, u: UpdateView)
    requires
        i.error is Some,
        !(u is StartFailed),
        !(u is Cancelled),
    ensures
        updated(i, u).error == i.error,
{
}

/// The message of a cancelled entry is overwritten neither by the end of its
/// process nor by an error that the process reports.
pub proof fn cancel_message_is_kept(i: ItemView, was_running: bool, later: UpdateView)
    requires
        i.status == "pending"@ || i.status == "running"@,
        later is Settled || later is Failed || later is Cancelled,
    ensures
        ({
            let c = updated(i, UpdateView::Cancelled { was_running });
            &&& c.status == "error"@
            &&& c.error == Some(cancel_message(was_running))
            &&& updated(c, later) == c
        }),
{
    reveal_strlit("done");
    reveal_strlit("error");
    reveal_strlit("pending");
    reveal_strlit("running");
    assert("error"@.len() != "pending"@.len());
    assert("error"@.len() != "running"@.len());
    assert("error"@.len() != "done"@.len());
}

/// The end of a process is told once: told again it changes nothing, if the
/// entry had no message when it was first told.
pub proof fn settling_is_final(i: ItemView, ok: bool, detail: Option<Seq<char>>, again: UpdateView)
    requires
        ended(i) || ok || i.error is None,
        again is Settled,
    ensures
        ({
            let s = updated(i, UpdateView::Settled { ok, detail });
            ended(s) && updated(s, again) == s
        }),
{
}

/// A progress report sets progress and speed, moves the stage on from "info" to
/// "downloading", and leaves everything else, the status above all, however
/// far the download is.
pub proof fn progress_report_leaves_the_rest(
    i: ItemView,
    progress: int,
    speed: Option<Seq<char>>,
)
    ensures
        ({
            let r = updated(i, UpdateView::Progress { progress, speed });
            &&& r.progress == progress
            &&& r.speed == speed
            &&& i.stage == "info"@ ==> r.stage == "downloading"@
            &&& i.stage != "info"@ ==> r.stage == i.stage
            &&& r.status == i.status
            &&& r.error == i.error
            &&& r.title == i.title
            &&& r.media_id == i.media_id
            &&& r.id == i.id && r.url == i.url && r.mode == i.mode
            &&& r.quality == i.quality && r.save_dir == i.save_dir
        }),
{
}

/// An error that comes after any number of progress reports is told: the entry
/// that was not done is in error, with the message if it had none.
pub proof fn errors_are_told_after_progress(
    i: ItemView,
    progress: int,
    speed: Option<Seq<char>>,
    message: Seq<char>,
)
    requires
        i.status != "done"@,
    ensures
        ({
            let r = updated(
                updated(i, UpdateView::Progress { progress, speed }),
                UpdateView::Failed { message },
            );
            &&& r.status == "error"@
            &&& i.error is None ==> r.error == Some(message)
            &&& i.error is Some ==> r.error == i.error
        }),
{
}

/// A look-up sets the video id, and the title where there is none, and leaves
/// everything else.
pub proof fn look_up_tells_id_and_title(i: ItemView, media_id: Seq<char>, title: Seq<char>)
    ensures
        ({
            let r = updated(i, UpdateView::Metadata { media_id, title });
            &&& r.media_id == Some(media_id)
            &&& i.title is None ==> r.title == Some(title)
            &&& i.title is Some ==> r.title == i.title
            &&& r == (ItemView { media_id: r.media_id, title: r.title, ..i })
        }),
{
}

/// A title or a video id that is read is taken where there is none yet, and
/// changes nothing else.
pub proof fn read_title_and_id_are_taken_once(i: ItemView, text: Seq<char>)
    ensures
        i.title is None ==> updated(i, UpdateView::Title { title: text }) == (ItemView {
            title: Some(text),
            ..i
        }),
        i.title is Some ==> updated(i, UpdateView::Title { title: text }) == i,
        i.media_id is None ==> updated(i, UpdateView::MediaId { media_id: text }) == (ItemView {
            media_id: Some(text),
            ..i
        }),
        i.media_id is Some ==> updated(i, UpdateView::MediaId { media_id: text }) == i,
{
}

/// A failed start puts the entry in error with its message, whatever it was,
/// and leaves everything else.
pub proof fn failed_start_is_told(i: ItemView, error: Seq<char>)
    ensures
        updated(i, UpdateView::StartFailed { error }).status == "error"@,
        updated(i, UpdateView::StartFailed { error }).error == Some(error),
        updated(i, UpdateView::StartFailed { error }) == (ItemView {
            status: "error"@,
            error: Some(error),
            ..i
        }),
{
}

/// A completed download is done, in status and stage, and at one hundred
/// percent; nothing else changes. Joining streams is a stage at one hundred
/// percent that is not the end.
pub proof fn completion_and_merging(i: ItemView)
    ensures
        updated(i, UpdateView::Completed) == (ItemView {
            status: "done"@,
            stage: "done"@,
            progress: 10000,
            ..i
        }),
        updated(i, UpdateView::Merging) == (ItemView {
            stage: "merging"@,
            progress: 10000,
            ..i
        }),
        updated(i, UpdateView::Merging).status == i.status,
{
}

/// An error line puts any entry but a finished one in error; the first message
/// stays, and nothing else changes.
pub proof fn first_error_stays(i: ItemView, first: Seq<char>, second: Seq<char>)
    ensures
        i.status == "done"@ ==> updated(i, UpdateView::Failed { message: first }) == i,
        i.status != "done"@ ==> updated(i, UpdateView::Failed { message: first }) == (ItemView {
            status: "error"@,
            error: if i.error is Some {
                i.error
            } else {
                Some(first)
            },
            ..i
        }),
        updated(
            updated(i, UpdateView::Failed { message: first }),
            UpdateView::Failed { message: second },
        ) == updated(i, UpdateView::Failed { message: first }),
{
    reveal_strlit("done");
    reveal_strlit("error");
    assert("error"@.len() != "done"@.len());
}

/// Cancelling puts an entry that waits or is at work in error, with the message
/// for its case, and changes nothing else of it; any other entry it leaves.
pub proof fn cancelling_tells_which(i: ItemView, was_running: bool)
    ensures
        ({
            let r = updated(i, UpdateView::Cancelled { was_running });
            &&& (i.status == "pending"@ || i.status == "running"@) ==> {
                &&& r.status == "error"@
                &&& was_running ==> r.error == Some("Скасування завантаження"@)
                &&& !was_running ==> r.error == Some("Очікує скасування"@)
                &&& r == (ItemView { status: r.status, error: r.error, ..i })
            }
            &&& (i.status != "pending"@ && i.status != "running"@) ==> r == i
        }),
{
}

/// The end of a process decides what is not decided yet: an entry that is done,
/// in error or cancelled stays as it is; any other is done after a success and
/// otherwise, unless it has a message, in error with the reason that is known,
/// or a general one.
pub proof fn exit_decides_what_is_open(i: ItemView, ok: bool, detail: Option<Seq<char>>)
    ensures
        ({
            let r = updated(i, UpdateView::Settled { ok, detail });
            &&& (i.status == "done"@ || i.status == "error"@ || i.status == "cancelled"@) ==> r
                == i
            &&& (i.status != "done"@ && i.status != "error"@ && i.status != "cancelled"@) ==> {
                &&& ok ==> r == (ItemView {
                    status: "done"@,
                    stage: "done"@,
                    progress: 10000,
                    ..i
                })
                &&& !ok && i.error is Some ==> r == i
                &&& !ok && i.error is None ==> {
                    &&& r.status == "error"@
                    &&& detail is Some ==> r.error == detail
                    &&& detail is None ==> r.error == Some("yt-dlp exited with an error"@)
                    &&& r == (ItemView { status: r.status, error: r.error, ..i })
                }
            }
        }),
{
}

} // verus!
