//! The course of one download, from the queue to its end.
use crate::command::{build_args, download_args, look_up_args, metadata_args, start_message};
use crate::item::{change_in_range, DownloadItem, ItemView, UpdateView};
use crate::output::{fetch_metadata, metadata_in};
use crate::platform::Platform;
use crate::queue::{
    change_keeps_range, change_touches_one_entry, ended_well, entry, item_opt, queue_in_range,
    record_metadata, record_start_failure, settled_state, settlement, slot_from_is_first,
    wait_and_finalize, with_change, AppState, StateView,
};
use crate::text::{lossy_utf8, texts};
use vstd::prelude::*;

verus! {

/// What has happened to a download.
pub enum DownloadEvent {
    /// It was put into the queue.
    Queued,
    /// The look-up of its video ran, with success or without, and printed this.
    LookedUp { success: bool, stdout: Vec<u8> },
    /// The look-up of its video could not be run.
    NotLookedUp,
    /// Its process, the given program, could not be started for a reason.
    NotStarted { program: String, reason: String },
    /// Its process was started.
    Started,
    /// Its process was found to be cancelled before it was watched.
    Gone,
    /// Its process was watched to its end, or for as long as it was waited for.
    Watched { waited: Option<bool> },
}

/// What is to be done next for a download.
pub enum DownloadAction {
    /// Run yt-dlp with these arguments and keep what it prints.
    LookUp { args: Vec<String> },
    /// Start yt-dlp with these arguments.
    Start { args: Vec<String> },
    /// Read the lines of the process and wait for its end.
    Watch,
    /// Store the queue; the download is over.
    Store,
    /// Nothing; the download is over.
    Stop,
}

/// What a `DownloadAction` holds.
#[verifier::ext_equal]
pub enum ActionView {
    LookUp { args: Seq<Seq<char>> },
    Start { args: Seq<Seq<char>> },
    Watch,
    Store,
    Stop,
}

impl View for DownloadAction {
    type V = ActionView;

    open spec fn view(&self) -> ActionView {
        match *self {
            DownloadAction::LookUp { args } => ActionView::LookUp { args: texts(args@) },
            DownloadAction::Start { args } => ActionView::Start { args: texts(args@) },
            DownloadAction::Watch => ActionView::Watch,
            DownloadAction::Store => ActionView::Store,
            DownloadAction::Stop => ActionView::Stop,
        }
    }
}

/// What a look-up found out, if it was one.
pub open spec fn found_by(event: DownloadEvent) -> Option<(Seq<char>, Seq<char>)> {
    match event {
        DownloadEvent::LookedUp { success, stdout } => if success {
            metadata_in(lossy_utf8(stdout@))
        } else {
            None
        },
        _ => None,
    }
}

/// The change that an event brings to the entry `id`, if it brings one.
pub open spec fn change_by(s: StateView, id: Seq<char>, event: DownloadEvent) -> Option<
    UpdateView,
> {
    match event {
        DownloadEvent::LookedUp { .. } => match found_by(event) {
            Some((media_id, title)) => Some(UpdateView::Metadata { media_id, title }),
            None => None,
        },
        DownloadEvent::NotStarted { program, reason } => Some(
            UpdateView::StartFailed { error: start_message(program@, reason@) },
        ),
        DownloadEvent::Watched { waited } => Some(settlement(s, id, ended_well(waited))),
        _ => None,
    }
}

/// The state after an event of the download `id`.
pub open spec fn state_after(s: StateView, id: Seq<char>, event: DownloadEvent) -> StateView {
    match event {
        DownloadEvent::Watched { waited } => settled_state(s, id, ended_well(waited)),
        _ => match change_by(s, id, event) {
            Some(u) => StateView { queue: with_change(s.queue, id, u), ..s },
            None => s,
        },
    }
}

/// What is to be done after an event of the download of `item`.
pub open spec fn action_after(
    p: Platform,
    item: ItemView,
    thumb_dir: Seq<char>,
    event: DownloadEvent,
) -> ActionView {
    match event {
        DownloadEvent::Queued => ActionView::LookUp { args: look_up_args(item.url) },
        DownloadEvent::LookedUp { .. } => ActionView::Start {
            args: download_args(p, item, thumb_dir),
        },
        DownloadEvent::NotLookedUp => ActionView::Start {
            args: download_args(p, item, thumb_dir),
        },
        DownloadEvent::NotStarted { .. } => ActionView::Stop,
        DownloadEvent::Started => ActionView::Watch,
        DownloadEvent::Gone => ActionView::Stop,
        DownloadEvent::Watched { .. } => ActionView::Store,
    }
}

/// What follows from an event of a download.
pub struct DownloadStep {
    /// What is to be done next.
    pub action: DownloadAction,
    /// The entry as it is now, to be shown, if it was changed.
    pub shown: Option<DownloadItem>,
}

/// Notes an event of the download of `item`, which is the entry as it was put
/// into the queue, and decides what is to be done next. `thumb_dir` is the
/// directory for thumbnails and metadata.
pub fn next_step(
    p: Platform,
    state: &mut AppState,
    item: &DownloadItem,
    thumb_dir: &str,
    event: DownloadEvent,
) -> (r: DownloadStep)
    ensures
        final(state)@ == state_after(old(state)@, item@.id, event),
        r.action@ == action_after(p, item@, thumb_dir@, event),
        item_opt(r.shown) == if change_by(old(state)@, item@.id, event) is Some {
            entry(final(state)@.queue, item@.id)
        } else {
            None
        },
{
    match event {
        DownloadEvent::Queued => DownloadStep {
            action: DownloadAction::LookUp { args: metadata_args(item.url.as_str()) },
            shown: None,
        },
        DownloadEvent::LookedUp { success, stdout } => {
            let found = fetch_metadata(success, stdout.as_slice());
            let shown = record_metadata(state, item.id.as_str(), found);
            let args = build_args(p, item, thumb_dir);
            DownloadStep { action: DownloadAction::Start { args }, shown }
        },
        DownloadEvent::NotLookedUp => DownloadStep {
            action: DownloadAction::Start { args: build_args(p, item, thumb_dir) },
            shown: None,
        },
        DownloadEvent::NotStarted { program, reason } => {
            let shown = record_start_failure(
                state,
                item.id.as_str(),
                program.as_str(),
                reason.as_str(),
            );
            DownloadStep { action: DownloadAction::Stop, shown }
        },
        DownloadEvent::Started => DownloadStep { action: DownloadAction::Watch, shown: None },
        DownloadEvent::Gone => DownloadStep { action: DownloadAction::Stop, shown: None },
        DownloadEvent::Watched { waited } => {
            let (_, shown) = wait_and_finalize(state, item.id.as_str(), waited);
            DownloadStep { action: DownloadAction::Store, shown }
        },
    }
}

/// An event that can come of an action.
pub open spec fn comes_of(event: DownloadEvent, action: ActionView) -> bool {
    match action {
        ActionView::LookUp { .. } => event is LookedUp || event is NotLookedUp,
        ActionView::Start { .. } => event is Started || event is NotStarted,
        ActionView::Watch => event is Watched || event is Gone,
        ActionView::Store => false,
        ActionView::Stop => false,
    }
}

/// How many events can still come after an event.
pub open spec fn events_left(event: DownloadEvent) -> nat {
    match event {
        DownloadEvent::Queued => 3,
        DownloadEvent::LookedUp { .. } => 2,
        DownloadEvent::NotLookedUp => 2,
        DownloadEvent::NotStarted { .. } => 0,
        DownloadEvent::Started => 1,
        DownloadEvent::Gone => 0,
        DownloadEvent::Watched { .. } => 0,
    }
}

/// Every download comes to its end: each event that comes of an action leaves
/// fewer to come, and where none is left nothing but storing is to be done.
pub proof fn downloads_come_to_an_end(
    p: Platform,
    item: ItemView,
    thumb_dir: Seq<char>,
    event: DownloadEvent,
    later: DownloadEvent,
)
    ensures
        comes_of(later, action_after(p, item, thumb_dir, event)) ==> events_left(later)
            < events_left(event),
        events_left(event) == 0 <==> (action_after(p, item, thumb_dir, event) is Store
            || action_after(p, item, thumb_dir, event) is Stop),
{
}

/// An event of one download touches no entry of another one, adds none and
/// removes none, and keeps all progress in range.
pub proof fn events_leave_other_downloads(s: StateView, id: Seq<char>, event: DownloadEvent)
    ensures
        state_after(s, id, event).queue.len() == s.queue.len(),
        forall|j: int|
            0 <= j < s.queue.len() && s.queue[j].id != id ==> (#[trigger] state_after(
                s,
                id,
                event,
            ).queue[j]) == s.queue[j],
        queue_in_range(s.queue) ==> queue_in_range(state_after(s, id, event).queue),
{
    match change_by(s, id, event) {
        Some(u) => {
            assert(change_in_range(u));
            assert(state_after(s, id, event).queue == with_change(s.queue, id, u));
            change_touches_one_entry(s.queue, id, u);
            slot_from_is_first(s.queue, id, 0);
            if queue_in_range(s.queue) {
                change_keeps_range(s.queue, id, u);
            }
        },
        None => {},
    }
}

/// What an event is worth to its entry: a look-up that succeeded and found
/// something tells id and title, a failed start its message, and the end of
/// watching settles the entry, as a success exactly if it was seen to end well.
/// No other event changes anything.
pub proof fn events_tell_their_entry(
    s: StateView,
    id: Seq<char>,
    stdout: Vec<u8>,
    program: String,
    reason: String,
    waited: Option<bool>,
)
    ensures
        state_after(s, id, DownloadEvent::Queued) == s,
        state_after(s, id, DownloadEvent::NotLookedUp) == s,
        state_after(s, id, DownloadEvent::Started) == s,
        state_after(s, id, DownloadEvent::Gone) == s,
        state_after(s, id, DownloadEvent::LookedUp { success: false, stdout }) == s,
        metadata_in(lossy_utf8(stdout@)) is None ==> state_after(
            s,
            id,
            DownloadEvent::LookedUp { success: true, stdout },
        ) == s,
        metadata_in(lossy_utf8(stdout@)) matches Some((media_id, title)) ==> state_after(
            s,
            id,
            DownloadEvent::LookedUp { success: true, stdout },
        ) == (StateView {
            queue: with_change(s.queue, id, UpdateView::Metadata { media_id, title }),
            ..s
        }),
        state_after(s, id, DownloadEvent::NotStarted { program, reason }) == (StateView {
            queue: with_change(
                s.queue,
                id,
                UpdateView::StartFailed {
                    error: "Cannot start yt-dlp ("@ + program@ + "): "@ + reason@ + "."@,
                },
            ),
            ..s
        }),
        state_after(s, id, DownloadEvent::Watched { waited: Some(true) }) == settled_state(
            s,
            id,
            true,
        ),
        waited != Some(true) ==> state_after(s, id, DownloadEvent::Watched { waited })
            == settled_state(s, id, false),
{
}

/// What is shown: the entry after an event that told it something, and nothing
/// after any other.
pub proof fn changes_are_shown(
    s: StateView,
    id: Seq<char>,
    stdout: Vec<u8>,
    success: bool,
    program: String,
    reason: String,
    waited: Option<bool>,
)
    ensures
        change_by(s, id, DownloadEvent::Queued) is None,
        change_by(s, id, DownloadEvent::NotLookedUp) is None,
        change_by(s, id, DownloadEvent::Started) is None,
        change_by(s, id, DownloadEvent::Gone) is None,
        change_by(s, id, DownloadEvent::LookedUp { success, stdout }) is Some <==> success
            && metadata_in(lossy_utf8(stdout@)) is Some,
        change_by(s, id, DownloadEvent::NotStarted { program, reason }) is Some,
        change_by(s, id, DownloadEvent::Watched { waited }) is Some,
{
}

/// The order of a download: it is looked up, then started with its command
/// line whether or not the look-up told anything, then watched, and stored when
/// it has ended; it stops where it cannot be started or is gone.
pub proof fn downloads_go_in_this_order(
    p: Platform,
    item: ItemView,
    thumb_dir: Seq<char>,
    event: DownloadEvent,
)
    ensures
        ({
            let next = action_after(p, item, thumb_dir, event);
            &&& event is Queued ==> next == (ActionView::LookUp {
                args: seq!["--no-download"@, "--print"@, "%(id)s\t%(title)s"@, item.url],
            })
            &&& event is LookedUp || event is NotLookedUp ==> next == (ActionView::Start {
                args: download_args(p, item, thumb_dir),
            })
            &&& event is Started ==> next == ActionView::Watch
            &&& event is NotStarted || event is Gone ==> next == ActionView::Stop
            &&& event is Watched ==> next == ActionView::Store
        }),
{
}

} // verus!
