//! The download queue and the state around it.
use crate::command::{start_error, start_message};
use crate::identity::{fresh_id, random_id};
use crate::item::{
    apply, cancelling_tells_which, change_in_range, done_stays_done, ended, error_is_kept, exit_decides_what_is_open,
    has_ended, in_range,
    media_id_is_kept, progress_stays_in_range, title_is_kept, updated, DownloadItem, ItemUpdate,
    ItemView, UpdateView,
};
use crate::output::{
    changes_of, line_changes, line_changes_are_reports, media_id_allowed, pair_opt,
    parse_media_id_line, progress_of, update_views,
};
use crate::text::{has_part, same, starts_with, text_opt};
use vstd::prelude::*;

verus! {

/// The state that all commands share.
pub struct AppState {
    pub queue: Vec<DownloadItem>,
    pub auto_check_ytdlp: bool,
    pub ytdlp_version: String,
    pub last_line: Option<String>,
}

/// What an `AppState` holds.
#[verifier::ext_equal]
pub struct StateView {
    pub queue: Seq<ItemView>,
    pub auto_check_ytdlp: bool,
    pub ytdlp_version: Seq<char>,
    pub last_line: Option<Seq<char>>,
}

/// The entries of a list.
pub open spec fn items(q: Seq<DownloadItem>) -> Seq<ItemView> {
    q.map_values(|i: DownloadItem| i@)
}

impl View for AppState {
    type V = StateView;

    open spec fn view(&self) -> StateView {
        StateView {
            queue: items(self.queue@),
            auto_check_ytdlp: self.auto_check_ytdlp,
            ytdlp_version: self.ytdlp_version@,
            last_line: text_opt(self.last_line),
        }
    }
}

/// The first position from `i` on of an entry with the given id.
pub open spec fn slot_from(q: Seq<ItemView>, id: Seq<char>, i: int) -> Option<int>
    decreases q.len() - i,
{
    if i < 0 || i >= q.len() {
        None
    } else if q[i].id == id {
        Some(i)
    } else {
        slot_from(q, id, i + 1)
    }
}

/// The position of the first entry with the given id.
pub open spec fn slot(q: Seq<ItemView>, id: Seq<char>) -> Option<int> {
    slot_from(q, id, 0)
}

/// The queue after the change `u` to the entry `id`.
pub open spec fn with_change(q: Seq<ItemView>, id: Seq<char>, u: UpdateView) -> Seq<ItemView> {
    match slot(q, id) {
        Some(k) => q.update(k, updated(q[k], u)),
        None => q,
    }
}

/// The entry `id` of a queue, if it is there.
pub open spec fn entry(q: Seq<ItemView>, id: Seq<char>) -> Option<ItemView> {
    match slot(q, id) {
        Some(k) => Some(q[k]),
        None => None,
    }
}

/// The contents of an optional entry.
pub open spec fn item_opt(o: Option<DownloadItem>) -> Option<ItemView> {
    match o {
        Some(i) => Some(i@),
        None => None,
    }
}

/// The slot that is found is the first one with the id, and one is found
/// wherever there is one.
pub proof fn slot_from_is_first(q: Seq<ItemView>, id: Seq<char>, i: int)
    requires
        0 <= i,
    ensures
        match slot_from(q, id, i) {
            Some(k) => i <= k < q.len() && q[k].id == id && forall|j: int|
                i <= j < k ==> (#[trigger] q[j]).id != id,
            None => forall|j: int| i <= j < q.len() ==> (#[trigger] q[j]).id != id,
        },
    decreases q.len() - i,
{
    if i < q.len() && q[i].id != id {
        slot_from_is_first(q, id, i + 1);
    }
}

/// Looks for the first entry with the given id.
pub fn find_item(queue: &Vec<DownloadItem>, id: &str) -> (r: Option<usize>)
    ensures
        match r {
            Some(k) => k < queue@.len() && slot(items(queue@), id@) == Some(k as int),
            None => slot(items(queue@), id@) is None,
        },
{
    let mut i: usize = 0;
    while i < queue.len()
        invariant
            i <= queue@.len(),
            slot(items(queue@), id@) == slot_from(items(queue@), id@, i as int),
        decreases queue@.len() - i,
    {
        if same(queue[i].id.as_str(), id) {
            return Some(i);
        }
        i += 1;
    }
    None
}

/// Changes the entry `id` and hands back a copy of it as it is now; where
/// there is no such entry nothing changes.
pub fn update_item(queue: &mut Vec<DownloadItem>, id: &str, update: ItemUpdate) -> (r: Option<
    DownloadItem,
>)
    ensures
        items(final(queue)@) == with_change(items(old(queue)@), id@, update@),
        item_opt(r) == match slot(items(old(queue)@), id@) {
            Some(k) => Some(updated(items(old(queue)@)[k], update@)),
            None => None,
        },
{
    match find_item(queue, id) {
        Some(k) => {
            apply(&mut queue[k], update);
            assert(items(queue@) =~= with_change(items(old(queue)@), id@, update@));
            Some(queue[k].clone())
        },
        None => None,
    }
}

/// The queue after all the changes `us` to the entry `id`, one after the other.
pub open spec fn with_changes(q: Seq<ItemView>, id: Seq<char>, us: Seq<UpdateView>) -> Seq<
    ItemView,
>
    decreases us.len(),
{
    if us.len() == 0 {
        q
    } else {
        with_change(with_changes(q, id, us.drop_last()), id, us.last())
    }
}

/// The entry `id` as it is after each of the changes `us`, where it is in the
/// queue at all.
pub open spec fn snapshots(q: Seq<ItemView>, id: Seq<char>, us: Seq<UpdateView>) -> Seq<ItemView>
    decreases us.len(),
{
    if us.len() == 0 {
        seq![]
    } else {
        snapshots(q, id, us.drop_last()) + match entry(with_changes(q, id, us), id) {
            Some(i) => seq![i],
            None => seq![],
        }
    }
}

/// The state after the line of a download has been read.
pub open spec fn after_line(
    s: StateView,
    id: Seq<char>,
    line: Seq<char>,
    changes: Seq<UpdateView>,
) -> StateView {
    StateView {
        queue: with_changes(s.queue, id, changes),
        last_line: if "[info]"@.is_prefix_of(line) {
            Some(line)
        } else {
            s.last_line
        },
        ..s
    }
}

/// The exit of the process leaves the entry without a reason for its failure.
pub open spec fn lacks_reason(i: ItemView, ok: bool) -> bool {
    !ended(i) && !ok && i.error is None
}

/// The entry `id` takes the last remembered line as the reason of its failure.
pub open spec fn takes_reason(s: StateView, id: Seq<char>, ok: bool) -> bool {
    match entry(s.queue, id) {
        Some(i) => lacks_reason(i, ok),
        None => false,
    }
}

/// How the end of a process is told to the entry `id`.
pub open spec fn settlement(s: StateView, id: Seq<char>, ok: bool) -> UpdateView {
    UpdateView::Settled {
        ok,
        detail: if takes_reason(s, id, ok) {
            s.last_line
        } else {
            None
        },
    }
}

/// The state after the entry `id` has been told that its process ended.
pub open spec fn settled_state(s: StateView, id: Seq<char>, ok: bool) -> StateView {
    StateView {
        queue: with_change(s.queue, id, settlement(s, id, ok)),
        last_line: if takes_reason(s, id, ok) {
            None
        } else {
            s.last_line
        },
        ..s
    }
}

/// A change never moves an entry to another id, so the same slot is found
/// before and after.
pub proof fn change_keeps_slots(q: Seq<ItemView>, id: Seq<char>, u: UpdateView, other: Seq<char>)
    ensures
        slot(with_change(q, id, u), other) == slot(q, other),
{
    slot_from_is_first(q, id, 0);
    same_ids_same_slot(q, with_change(q, id, u), other, 0);
}

proof fn same_ids_same_slot(a: Seq<ItemView>, b: Seq<ItemView>, id: Seq<char>, i: int)
    requires
        a.len() == b.len(),
        forall|j: int| 0 <= j < a.len() ==> (#[trigger] a[j]).id == b[j].id,
        0 <= i,
    ensures
        slot_from(a, id, i) == slot_from(b, id, i),
    decreases a.len() - i,
{
    if i < a.len() {
        assert(a[i].id == b[i].id);
        same_ids_same_slot(a, b, id, i + 1);
    }
}

/// Copies a list of entries.
pub fn copy_items(v: &Vec<DownloadItem>) -> (r: Vec<DownloadItem>)
    ensures
        items(r@) == items(v@),
{
    let mut r: Vec<DownloadItem> = Vec::new();
    for i in 0..v.len()
        invariant
            items(r@) == items(v@).take(i as int),
    {
        let ghost before = r@;
        r.push(v[i].clone());
        assert(items(r@) =~= items(before).push(items(v@)[i as int]));
        assert(items(v@).take(i + 1) =~= items(v@).take(i as int).push(items(v@)[i as int]));
    }
    assert(items(v@).take(v@.len() as int) =~= items(v@));
    r
}

/// Reads one line that the download of the entry `id` printed. Hands back the
/// entry as it was after each change, to be shown. `percent` is what the
/// percentage in the line reads as (see `parse_progress_line`).
pub fn handle_line(state: &mut AppState, id: &str, line: &str, percent: Option<i64>) -> (r: Vec<
    DownloadItem,
>)
    ensures
        exists|media_id: Option<Seq<char>>| #[trigger]
            media_id_allowed(line@, media_id) && final(state)@ == after_line(
                old(state)@,
                id@,
                line@,
                changes_of(line@, percent, media_id),
            ) && items(r@) == snapshots(
                old(state)@.queue,
                id@,
                changes_of(line@, percent, media_id),
            ),
{
    let media_id = parse_media_id_line(line);
    let ghost vid = text_opt(media_id);
    let changes = line_changes(line, percent, media_id);
    let r = apply_changes(&mut state.queue, id, changes);
    if starts_with(line, "[info]") {
        state.last_line = Some(line.to_owned());
    }
    assert(media_id_allowed(line@, vid));
    r
}

/// Carries out a list of changes on the entry `id`. Hands back the entry as it
/// was after each of them.
pub fn apply_changes(queue: &mut Vec<DownloadItem>, id: &str, changes: Vec<ItemUpdate>) -> (r: Vec<
    DownloadItem,
>)
    ensures
        items(final(queue)@) == with_changes(items(old(queue)@), id@, update_views(changes@)),
        items(r@) == snapshots(items(old(queue)@), id@, update_views(changes@)),
{
    let mut r: Vec<DownloadItem> = Vec::new();
    let ghost q0 = items(queue@);
    let ghost us = update_views(changes@);
    assert(us.take(0) =~= seq![]);
    assert(items(r@) =~= seq![]);
    for u in it: changes
        invariant
            us == update_views(it.seq()),
            items(queue@) == with_changes(q0, id@, us.take(it.index() as int)),
            items(r@) == snapshots(q0, id@, us.take(it.index() as int)),
    {
        let ghost k = it.index() as int;
        let ghost q = items(queue@);
        let ghost before = r@;
        assert(us.take(k + 1).drop_last() =~= us.take(k));
        assert(us.take(k + 1).last() == u@);
        proof {
            change_keeps_slots(q, id@, u@, id@);
            slot_from_is_first(q, id@, 0);
        }
        match update_item(queue, id, u) {
            Some(i) => {
                r.push(i);
                assert(items(r@) =~= items(before) + seq![i@]);
            },
            None => {
                assert(items(r@) =~= items(before) + seq![]);
            },
        }
    }
    assert(us.take(us.len() as int) =~= us);
    r
}

/// Tells the entry `id` that its process has ended, with `ok` for success.
/// A failed entry that has no message yet takes the last remembered line.
/// Hands back the entry as it is now.
pub fn settle_item(state: &mut AppState, id: &str, ok: bool) -> (r: Option<DownloadItem>)
    ensures
        final(state)@ == settled_state(old(state)@, id@, ok),
        item_opt(r) == entry(final(state)@.queue, id@),
{
    proof {
        change_keeps_slots(state@.queue, id@, settlement(state@, id@, ok), id@);
        slot_from_is_first(state@.queue, id@, 0);
    }
    let mut detail: Option<String> = None;
    match find_item(&state.queue, id) {
        Some(k) => {
            let item = &state.queue[k];
            if !has_ended(item) && !ok && item.error.is_none() {
                detail = state.last_line.take();
            }
        },
        None => {},
    }
    update_item(&mut state.queue, id, ItemUpdate::Settled { ok, detail })
}

/// The process was seen to end, and to end well.
pub open spec fn ended_well(waited: Option<bool>) -> bool {
    waited == Some(true)
}

/// Decides how a download process ended and tells the entry `id`. `waited` is
/// what the polls of `wait_child` came to, if they came to an end in time; a
/// process that did not end counts as failed. Hands back whether the download
/// completed, and the entry as it is now.
pub fn wait_and_finalize(state: &mut AppState, id: &str, waited: Option<bool>) -> (r: (
    bool,
    Option<DownloadItem>,
))
    ensures
        r.0 == ended_well(waited),
        final(state)@ == settled_state(old(state)@, id@, r.0),
        item_opt(r.1) == entry(final(state)@.queue, id@),
{
    let ok = match waited {
        Some(success) => success,
        None => false,
    };
    let shown = settle_item(state, id, ok);
    (ok, shown)
}

/// The state after a look-up for the entry `id` that found something, or not.
pub open spec fn with_metadata(
    s: StateView,
    id: Seq<char>,
    found: Option<(Seq<char>, Seq<char>)>,
) -> StateView {
    match found {
        Some((media_id, title)) => StateView {
            queue: with_change(s.queue, id, UpdateView::Metadata { media_id, title }),
            ..s
        },
        None => s,
    }
}

/// Notes what was found out about the video of the entry `id` before its
/// download, if anything was. Hands back the entry as it is now, if it changed.
pub fn record_metadata(state: &mut AppState, id: &str, found: Option<(String, String)>) -> (r:
    Option<DownloadItem>)
    ensures
        final(state)@ == with_metadata(old(state)@, id@, pair_opt(found)),
        item_opt(r) == if found is Some {
            entry(final(state)@.queue, id@)
        } else {
            None
        },
{
    match found {
        Some((media_id, title)) => {
            let update = ItemUpdate::Metadata { media_id, title };
            proof {
                change_keeps_slots(state@.queue, id@, update@, id@);
                slot_from_is_first(state@.queue, id@, 0);
            }
            update_item(&mut state.queue, id, update)
        },
        None => None,
    }
}

/// The state after the download of the entry `id` could not be started.
pub open spec fn with_start_failure(
    s: StateView,
    id: Seq<char>,
    program: Seq<char>,
    reason: Seq<char>,
) -> StateView {
    let error = start_message(program, reason);
    StateView { queue: with_change(s.queue, id, UpdateView::StartFailed { error }), ..s }
}

/// Notes that the download of the entry `id` could not be started: the program
/// and the reason. Hands back the entry as it is now.
pub fn record_start_failure(state: &mut AppState, id: &str, program: &str, reason: &str) -> (r:
    Option<DownloadItem>)
    ensures
        final(state)@ == with_start_failure(old(state)@, id@, program@, reason@),
        item_opt(r) == entry(final(state)@.queue, id@),
{
    let update = ItemUpdate::StartFailed { error: start_error(program, reason) };
    proof {
        change_keeps_slots(state@.queue, id@, update@, id@);
        slot_from_is_first(state@.queue, id@, 0);
    }
    update_item(&mut state.queue, id, update)
}

/// What a poll of a download process finds.
pub enum ChildState {
    /// The process has ended.
    Exited { success: bool },
    /// The process is still at work.
    Running,
    /// The process could not be asked.
    Unknown,
    /// The process is no longer registered, for it was cancelled.
    Gone,
}

/// What one poll of a download process means.
pub open spec fn verdict(child: ChildState) -> Option<bool> {
    match child {
        ChildState::Exited { success } => Some(success),
        ChildState::Running => None,
        ChildState::Unknown => Some(false),
        ChildState::Gone => Some(false),
    }
}

/// Decides what one poll of a download process means: `Some(true)` that the
/// download completed normally, `Some(false)` that it did not, and `None` that
/// it is to be polled again.
pub fn wait_child(child: ChildState) -> (r: Option<bool>)
    ensures
        r == verdict(child),
{
    match child {
        ChildState::Exited { success } => Some(success),
        ChildState::Running => None,
        ChildState::Unknown => Some(false),
        ChildState::Gone => Some(false),
    }
}

/// A new entry, before anything is known of its video.
pub open spec fn new_entry(
    id: Seq<char>,
    url: Seq<char>,
    mode: Seq<char>,
    quality: Seq<char>,
    save_dir: Seq<char>,
) -> ItemView {
    ItemView {
        id,
        url,
        mode,
        quality,
        save_dir,
        status: "pending"@,
        stage: "info"@,
        media_id: None,
        title: None,
        progress: 0,
        speed: None,
        error: None,
    }
}

/// Puts a new entry with the given id at the end of the queue and hands back a
/// copy of it.
pub fn enqueue(
    state: &mut AppState,
    id: String,
    url: String,
    mode: String,
    quality: String,
    save_dir: String,
) -> (r: DownloadItem)
    ensures
        r@ == new_entry(id@, url@, mode@, quality@, save_dir@),
        final(state)@ == with_queue(old(state)@, old(state)@.queue.push(r@)),
{
    let item = DownloadItem {
        id,
        url,
        mode,
        quality,
        save_dir,
        status: "pending".to_owned(),
        stage: "info".to_owned(),
        media_id: None,
        title: None,
        progress: 0,
        speed: None,
        error: None,
    };
    let r = item.clone();
    state.queue.push(item);
    assert(items(state.queue@) =~= items(old(state).queue@).push(r@));
    r
}

/// Puts a new entry with a fresh random id at the end of the queue and hands
/// back a copy of it.
pub fn start_download(
    state: &mut AppState,
    url: String,
    mode: String,
    quality: String,
    save_dir: String,
) -> (r: DownloadItem)
    ensures
        random_id(r@.id),
        r@ == new_entry(r@.id, url@, mode@, quality@, save_dir@),
        final(state)@ == with_queue(old(state)@, old(state)@.queue.push(r@)),
{
    enqueue(state, fresh_id(), url, mode, quality, save_dir)
}

/// Copies the entry `id` out of the queue.
pub fn lookup(state: &AppState, id: &str) -> (r: Option<DownloadItem>)
    ensures
        item_opt(r) == entry(state@.queue, id@),
{
    match find_item(&state.queue, id) {
        Some(k) => Some(state.queue[k].clone()),
        None => None,
    }
}

/// The state after the entry `id` has been cancelled.
pub open spec fn with_cancellation(s: StateView, id: Seq<char>, was_running: bool) -> StateView {
    StateView { queue: with_change(s.queue, id, UpdateView::Cancelled { was_running }), ..s }
}

/// Marks the entry `id` as cancelled, if it has not ended yet; `was_running`
/// tells whether its process had to be stopped. Hands back the entry as it is
/// now.
pub fn cancel_download(state: &mut AppState, id: &str, was_running: bool) -> (r: Option<
    DownloadItem,
>)
    ensures
        final(state)@ == with_cancellation(old(state)@, id@, was_running),
        item_opt(r) == entry(final(state)@.queue, id@),
{
    proof {
        change_keeps_slots(state@.queue, id@, UpdateView::Cancelled { was_running }, id@);
        slot_from_is_first(state@.queue, id@, 0);
    }
    update_item(&mut state.queue, id, ItemUpdate::Cancelled { was_running })
}

/// Copies the queue.
pub fn get_queue(state: &AppState) -> (r: Vec<DownloadItem>)
    ensures
        items(r@) == state@.queue,
{
    copy_items(&state.queue)
}

/// The state with another queue.
pub open spec fn with_queue(s: StateView, queue: Seq<ItemView>) -> StateView {
    StateView { queue, ..s }
}

/// Empties the queue.
pub fn clear_queue(state: &mut AppState)
    ensures
        final(state)@ == with_queue(old(state)@, seq![]),
{
    state.queue.clear();
    assert(items(state.queue@) =~= seq![]);
}

/// The queue without the entries `id`.
pub open spec fn without_id(q: Seq<ItemView>, id: Seq<char>) -> Seq<ItemView> {
    q.filter(|i: ItemView| i.id != id)
}

/// Takes the entry `id` out of the queue and hands back what it was.
pub fn remove_item(state: &mut AppState, id: &str) -> (r: Option<DownloadItem>)
    ensures
        item_opt(r) == entry(old(state)@.queue, id@),
        final(state)@ == with_queue(old(state)@, without_id(old(state)@.queue, id@)),
{
    let target = lookup(state, id);
    let mut kept: Vec<DownloadItem> = Vec::new();
    let ghost q = items(state.queue@);
    let ghost other = |i: ItemView| i.id != id@;
    assert(q.take(0).filter(other) =~= seq![]) by {
        reveal(Seq::filter);
    }
    for i in 0..state.queue.len()
        invariant
            q == items(state.queue@),
            other == (|i: ItemView| i.id != id@),
            items(kept@) == q.take(i as int).filter(other),
    {
        let ghost before = kept@;
        assert(q.take(i + 1).drop_last() =~= q.take(i as int));
        assert(q.take(i + 1).last() == q[i as int]);
        if !same(state.queue[i].id.as_str(), id) {
            kept.push(state.queue[i].clone());
            assert(items(kept@) =~= items(before).push(q[i as int]));
        }
        reveal(Seq::filter);
    }
    assert(q.take(q.len() as int) =~= q);
    state.queue = kept;
    target
}

/// The state with the check for updates at startup on or off.
pub open spec fn with_auto_check(s: StateView, enabled: bool) -> StateView {
    StateView { auto_check_ytdlp: enabled, ..s }
}

/// Turns the check for updates at startup on or off.
pub fn set_auto_check(state: &mut AppState, enabled: bool)
    ensures
        final(state)@ == with_auto_check(old(state)@, enabled),
{
    state.auto_check_ytdlp = enabled;
}

/// Puts the entries of an earlier session behind those of the queue. Hands
/// back the whole queue, to be shown, unless nothing was added.
pub fn restore_history(state: &mut AppState, history: Vec<DownloadItem>) -> (r: Option<
    Vec<DownloadItem>,
>)
    ensures
        final(state)@ == with_queue(old(state)@, old(state)@.queue + items(history@)),
        match r {
            Some(shown) => history@.len() > 0 && items(shown@) == final(state)@.queue,
            None => history@.len() == 0,
        },
{
    if history.is_empty() {
        assert(items(state.queue@) + items(history@) =~= items(state.queue@));
        return None;
    }
    let mut history = history;
    let ghost old_queue = state.queue@;
    let ghost added = history@;
    state.queue.append(&mut history);
    assert(items(state.queue@) =~= items(old_queue) + items(added));
    Some(copy_items(&state.queue))
}

/// The state in which the program starts.
pub open spec fn first_state() -> StateView {
    StateView {
        queue: seq![],
        auto_check_ytdlp: true,
        ytdlp_version: seq![],
        last_line: None,
    }
}

/// The state in which the program starts.
pub fn initial_state() -> (r: AppState)
    ensures
        r@ == first_state(),
{
    let r = AppState {
        queue: Vec::new(),
        auto_check_ytdlp: true,
        ytdlp_version: String::new(),
        last_line: None,
    };
    assert(items(r.queue@) =~= seq![]);
    r
}

/// A change touches the first entry with the id and no other one, and leaves
/// the number of entries and their order.
pub proof fn change_touches_one_entry(q: Seq<ItemView>, id: Seq<char>, u: UpdateView)
    ensures
        with_change(q, id, u).len() == q.len(),
        forall|j: int|
            0 <= j < q.len() && slot(q, id) != Some(j) ==> (#[trigger] with_change(q, id, u)[j])
                == q[j],
{
    slot_from_is_first(q, id, 0);
}

/// Changes to one entry touch no entry of another id.
pub proof fn changes_leave_others(q: Seq<ItemView>, id: Seq<char>, us: Seq<UpdateView>)
    ensures
        with_changes(q, id, us).len() == q.len(),
        forall|j: int|
            0 <= j < q.len() ==> (#[trigger] with_changes(q, id, us)[j]).id == q[j].id,
        forall|j: int|
            0 <= j < q.len() && q[j].id != id ==> (#[trigger] with_changes(q, id, us)[j]) == q[j],
    decreases us.len(),
{
    if us.len() > 0 {
        let p = with_changes(q, id, us.drop_last());
        changes_leave_others(q, id, us.drop_last());
        change_touches_one_entry(p, id, us.last());
        slot_from_is_first(p, id, 0);
    }
}

/// All progress in the queue lies between nothing and all.
pub open spec fn queue_in_range(q: Seq<ItemView>) -> bool {
    forall|j: int| 0 <= j < q.len() ==> in_range(#[trigger] q[j])
}

/// One change keeps all progress in range.
pub proof fn change_keeps_range(q: Seq<ItemView>, id: Seq<char>, u: UpdateView)
    requires
        queue_in_range(q),
        change_in_range(u),
    ensures
        queue_in_range(with_change(q, id, u)),
{
    slot_from_is_first(q, id, 0);
    match slot(q, id) {
        Some(k) => {
            progress_stays_in_range(q[k], u);
        },
        None => {},
    }
}

/// Whatever lines a download prints, all progress stays in range.
pub proof fn lines_keep_range(
    q: Seq<ItemView>,
    id: Seq<char>,
    line: Seq<char>,
    percent: Option<i64>,
    media_id: Option<Seq<char>>,
)
    requires
        queue_in_range(q),
    ensures
        queue_in_range(with_changes(q, id, changes_of(line, percent, media_id))),
{
    let us = changes_of(line, percent, media_id);
    assert forall|k: int| 0 <= k < us.len() implies change_in_range(#[trigger] us[k]) by {
        line_changes_are_reports(line, percent, media_id, k);
    }
    changes_keep_range(q, id, us);
}

proof fn changes_keep_range(q: Seq<ItemView>, id: Seq<char>, us: Seq<UpdateView>)
    requires
        queue_in_range(q),
        forall|k: int| 0 <= k < us.len() ==> change_in_range(#[trigger] us[k]),
    ensures
        queue_in_range(with_changes(q, id, us)),
    decreases us.len(),
{
    if us.len() > 0 {
        assert forall|k: int| 0 <= k < us.drop_last().len() implies change_in_range(
            #[trigger] us.drop_last()[k],
        ) by {
            assert(change_in_range(us[k]));
        }
        changes_keep_range(q, id, us.drop_last());
        assert(change_in_range(us[us.len() - 1]));
        change_keeps_range(with_changes(q, id, us.drop_last()), id, us.last());
    }
}

/// A finished download stays finished, whatever lines come after.
pub proof fn lines_keep_done(
    q: Seq<ItemView>,
    id: Seq<char>,
    line: Seq<char>,
    percent: Option<i64>,
    media_id: Option<Seq<char>>,
    j: int,
)
    requires
        0 <= j < q.len(),
        q[j].status == "done"@,
    ensures
        with_changes(q, id, changes_of(line, percent, media_id))[j].status == "done"@,
{
    let us = changes_of(line, percent, media_id);
    assert forall|k: int| 0 <= k < us.len() implies !((#[trigger] us[k]) is StartFailed) by {
        line_changes_are_reports(line, percent, media_id, k);
    }
    changes_keep_done(q, id, us, j);
}

proof fn changes_keep_done(q: Seq<ItemView>, id: Seq<char>, us: Seq<UpdateView>, j: int)
    requires
        0 <= j < q.len(),
        q[j].status == "done"@,
        forall|k: int| 0 <= k < us.len() ==> !((#[trigger] us[k]) is StartFailed),
    ensures
        with_changes(q, id, us)[j].status == "done"@,
    decreases us.len(),
{
    if us.len() > 0 {
        let earlier = us.drop_last();
        assert forall|k: int| 0 <= k < earlier.len() implies !(
        (#[trigger] earlier[k]) is StartFailed) by {
            assert(!(us[k] is StartFailed));
        }
        changes_keep_done(q, id, earlier, j);
        changes_leave_others(q, id, earlier);
        assert(!(us[us.len() - 1] is StartFailed));
        let p = with_changes(q, id, earlier);
        slot_from_is_first(p, id, 0);
        done_stays_done(p[j], us.last());
    }
}

/// What is known of an entry in `before` is the same in `after`: its title, its
/// video id and its error.
pub open spec fn known_kept(before: ItemView, after: ItemView) -> bool {
    &&& before.title is Some ==> after.title == before.title
    &&& before.media_id is Some ==> after.media_id == before.media_id
    &&& before.error is Some ==> after.error == before.error
}

/// Title, video id and error of a download, once known, survive whatever lines
/// come after.
pub proof fn lines_keep_what_is_known(
    q: Seq<ItemView>,
    id: Seq<char>,
    line: Seq<char>,
    percent: Option<i64>,
    media_id: Option<Seq<char>>,
    j: int,
)
    requires
        0 <= j < q.len(),
    ensures
        known_kept(q[j], with_changes(q, id, changes_of(line, percent, media_id))[j]),
{
    let us = changes_of(line, percent, media_id);
    assert forall|k: int| 0 <= k < us.len() implies keeps_known(#[trigger] us[k]) by {
        line_changes_are_reports(line, percent, media_id, k);
    }
    changes_keep_what_is_known(q, id, us, j);
}

/// The change replaces nothing that is known of an entry.
pub open spec fn keeps_known(u: UpdateView) -> bool {
    !(u is Metadata) && !(u is StartFailed) && !(u is Cancelled)
}

proof fn changes_keep_what_is_known(
    q: Seq<ItemView>,
    id: Seq<char>,
    us: Seq<UpdateView>,
    j: int,
)
    requires
        0 <= j < q.len(),
        forall|k: int| 0 <= k < us.len() ==> keeps_known(#[trigger] us[k]),
    ensures
        known_kept(q[j], with_changes(q, id, us)[j]),
    decreases us.len(),
{
    if us.len() > 0 {
        let earlier = us.drop_last();
        assert forall|k: int| 0 <= k < earlier.len() implies keeps_known(#[trigger] earlier[k]) by {
            assert(keeps_known(us[k]));
        }
        changes_keep_what_is_known(q, id, earlier, j);
        changes_leave_others(q, id, earlier);
        let p = with_changes(q, id, earlier);
        let u = us.last();
        assert(keeps_known(us[us.len() - 1]));
        slot_from_is_first(p, id, 0);
        if p[j].title is Some {
            title_is_kept(p[j], u);
        }
        if p[j].media_id is Some {
            media_id_is_kept(p[j], u);
        }
        if p[j].error is Some {
            error_is_kept(p[j], u);
        }
    }
}

/// No two entries of the queue have the same id.
pub open spec fn distinct_ids(q: Seq<ItemView>) -> bool {
    forall|i: int, j: int|
        0 <= i < j < q.len() ==> (#[trigger] q[i]).id != (#[trigger] q[j]).id
}

/// Ids that are distinct stay so: after changes, after a removal, and after a
/// new entry whose id is not in the queue yet.
pub proof fn ids_stay_distinct(
    q: Seq<ItemView>,
    id: Seq<char>,
    us: Seq<UpdateView>,
    new: ItemView,
)
    requires
        distinct_ids(q),
    ensures
        distinct_ids(with_changes(q, id, us)),
        distinct_ids(without_id(q, id)),
        entry(q, new.id) is None ==> distinct_ids(q.push(new)),
{
    changes_leave_others(q, id, us);
    let p = with_changes(q, id, us);
    assert forall|i: int, j: int| 0 <= i < j < p.len() implies (#[trigger] p[i]).id != (
    #[trigger] p[j]).id by {
        assert(q[i].id != q[j].id);
    }
    removal_keeps_distinct(q, id);
    slot_from_is_first(q, new.id, 0);
}

proof fn removal_keeps_distinct(q: Seq<ItemView>, id: Seq<char>)
    requires
        distinct_ids(q),
    ensures
        distinct_ids(without_id(q, id)),
    decreases q.len(),
{
    reveal(Seq::filter);
    if q.len() > 0 {
        let before = q.drop_last();
        assert forall|i: int, j: int| 0 <= i < j < before.len() implies (#[trigger] before[i]).id
            != (#[trigger] before[j]).id by {
            assert(q[i].id != q[j].id);
        }
        removal_keeps_distinct(before, id);
        let kept = without_id(before, id);
        if q.last().id != id {
            let last = q.last().id;
            slot_from_is_first(before, last, 0);
            assert(entry(before, last) is None) by {
                if slot(before, last) is Some {
                    let k = slot(before, last)->0;
                    assert(q[k].id != q[q.len() - 1].id);
                }
            }
            removal_keeps_entry(before, id, last);
            slot_from_is_first(kept, last, 0);
        }
    }
}

/// A new entry whose id is not in the queue is found there afterwards.
pub proof fn new_entry_is_found(q: Seq<ItemView>, i: ItemView)
    requires
        entry(q, i.id) is None,
    ensures
        entry(q.push(i), i.id) == Some(i),
{
    slot_from_is_first(q, i.id, 0);
    slot_from_is_first(q.push(i), i.id, 0);
    let r = slot(q.push(i), i.id);
    assert(q.push(i)[q.len() as int] == i);
    assert forall|j: int| 0 <= j < q.len() implies (#[trigger] q.push(i)[j]).id != i.id by {
        assert(q.push(i)[j] == q[j]);
    }
    assert(r == Some(q.len() as int));
}

/// What is removed is no longer there, all else is, and removing it once more
/// changes nothing.
pub proof fn removal_removes(q: Seq<ItemView>, id: Seq<char>)
    ensures
        entry(without_id(q, id), id) is None,
        without_id(without_id(q, id), id) == without_id(q, id),
        forall|other: Seq<char>|
            other != id ==> #[trigger] entry(without_id(q, id), other) == entry(q, other),
{
    let kept = without_id(q, id);
    removal_filters(q, id);
    slot_from_is_first(kept, id, 0);
    nothing_to_remove(kept, id);
    assert forall|other: Seq<char>| other != id implies #[trigger] entry(kept, other) == entry(
        q,
        other,
    ) by {
        removal_keeps_entry(q, id, other);
    }
}

proof fn removal_filters(q: Seq<ItemView>, id: Seq<char>)
    ensures
        forall|j: int|
            0 <= j < without_id(q, id).len() ==> (#[trigger] without_id(q, id)[j]).id != id,
    decreases q.len(),
{
    reveal(Seq::filter);
    if q.len() > 0 {
        removal_filters(q.drop_last(), id);
    }
}

proof fn nothing_to_remove(q: Seq<ItemView>, id: Seq<char>)
    requires
        forall|j: int| 0 <= j < q.len() ==> (#[trigger] q[j]).id != id,
    ensures
        without_id(q, id) == q,
    decreases q.len(),
{
    reveal(Seq::filter);
    if q.len() > 0 {
        assert(q[q.len() - 1].id != id);
        assert forall|j: int| 0 <= j < q.drop_last().len() implies (
        #[trigger] q.drop_last()[j]).id != id by {
            assert(q[j].id != id);
        }
        nothing_to_remove(q.drop_last(), id);
        assert(q.drop_last().push(q.last()) =~= q);
    } else {
        assert(q =~= seq![]);
    }
}

proof fn push_and_entry(q: Seq<ItemView>, i: ItemView, id: Seq<char>)
    ensures
        entry(q.push(i), id) == match entry(q, id) {
            Some(e) => Some(e),
            None => if i.id == id {
                Some(i)
            } else {
                None
            },
        },
{
    let p = q.push(i);
    slot_from_is_first(q, id, 0);
    slot_from_is_first(p, id, 0);
    assert(p[q.len() as int] == i);
    assert forall|j: int| 0 <= j < q.len() implies #[trigger] p[j] == q[j] by {}
    match slot(q, id) {
        Some(k) => {
            assert(p[k].id == id);
            assert(slot(p, id) is Some);
            let m = slot(p, id)->0;
            if m < k {
                assert(q[m].id != id);
                assert(p[m] == q[m]);
            }
            assert(m == k);
        },
        None => {
            match slot(p, id) {
                Some(m) => {
                    if m < q.len() {
                        assert(p[m] == q[m]);
                        assert(q[m].id != id);
                    }
                },
                None => {
                    assert(p[q.len() as int].id != id);
                },
            }
        },
    }
}

proof fn removal_keeps_entry(q: Seq<ItemView>, id: Seq<char>, other: Seq<char>)
    requires
        other != id,
    ensures
        entry(without_id(q, id), other) == entry(q, other),
    decreases q.len(),
{
    reveal(Seq::filter);
    if q.len() > 0 {
        let before = q.drop_last();
        removal_keeps_entry(before, id, other);
        push_and_entry(before, q.last(), other);
        push_and_entry(without_id(before, id), q.last(), other);
        assert(before.push(q.last()) =~= q);
    }
}

/// A change is made to the first entry with the id, as the change says, and to
/// nothing else; where there is no such entry nothing changes.
pub proof fn change_is_made_where_it_belongs(
    q: Seq<ItemView>,
    id: Seq<char>,
    u: UpdateView,
    k: int,
)
    ensures
        0 <= k < q.len() && q[k].id == id && (forall|j: int|
            0 <= j < k ==> (#[trigger] q[j]).id != id) ==> {
            &&& with_change(q, id, u) == q.update(k, updated(q[k], u))
            &&& slot(q, id) == Some(k)
            &&& entry(q, id) == Some(q[k])
            &&& entry(with_change(q, id, u), id) == Some(updated(q[k], u))
        },
        (forall|j: int| 0 <= j < q.len() ==> (#[trigger] q[j]).id != id) ==> {
            &&& with_change(q, id, u) == q
            &&& slot(q, id) is None
            &&& entry(q, id) is None
        },
{
    slot_from_is_first(q, id, 0);
    change_keeps_slots(q, id, u, id);
}

/// Changes are made one after the other, and the entry is shown after each of
/// them.
pub proof fn changes_are_made_in_order(
    q: Seq<ItemView>,
    id: Seq<char>,
    us: Seq<UpdateView>,
    u: UpdateView,
)
    ensures
        with_changes(q, id, seq![]) == q,
        with_changes(q, id, us.push(u)) == with_change(with_changes(q, id, us), id, u),
        snapshots(q, id, seq![]) == Seq::<ItemView>::empty(),
        entry(q, id) is Some ==> snapshots(q, id, us.push(u)) == snapshots(q, id, us).push(
            entry(with_changes(q, id, us.push(u)), id)->0,
        ),
        entry(q, id) is None ==> with_changes(q, id, us) == q && snapshots(q, id, us) == Seq::<
            ItemView,
        >::empty(),
{
    let more = us.push(u);
    assert(more.drop_last() =~= us);
    changes_keep_entry(q, id, more);
    if entry(q, id) is Some {
        let shown = entry(with_changes(q, id, more), id)->0;
        assert(snapshots(q, id, us) + seq![shown] =~= snapshots(q, id, us).push(shown));
    } else {
        nothing_changes_elsewhere(q, id, us);
    }
}

proof fn changes_keep_entry(q: Seq<ItemView>, id: Seq<char>, us: Seq<UpdateView>)
    ensures
        slot(with_changes(q, id, us), id) == slot(q, id),
    decreases us.len(),
{
    if us.len() > 0 {
        changes_keep_entry(q, id, us.drop_last());
        change_keeps_slots(with_changes(q, id, us.drop_last()), id, us.last(), id);
    }
}

proof fn nothing_changes_elsewhere(q: Seq<ItemView>, id: Seq<char>, us: Seq<UpdateView>)
    requires
        entry(q, id) is None,
    ensures
        with_changes(q, id, us) == q,
        snapshots(q, id, us) == Seq::<ItemView>::empty(),
    decreases us.len(),
{
    if us.len() > 0 {
        nothing_changes_elsewhere(q, id, us.drop_last());
        assert(snapshots(q, id, us) =~= seq![]);
    }
}

/// Of the lines of a download only information lines are remembered, each until
/// the next, and reading a line touches nothing of the state but the queue.
pub proof fn information_is_remembered(
    s: StateView,
    id: Seq<char>,
    line: Seq<char>,
    changes: Seq<UpdateView>,
)
    ensures
        ({
            let r = after_line(s, id, line, changes);
            &&& "[info]"@.is_prefix_of(line) ==> r.last_line == Some(line)
            &&& !"[info]"@.is_prefix_of(line) ==> r.last_line == s.last_line
            &&& r.queue == with_changes(s.queue, id, changes)
            &&& r.auto_check_ytdlp == s.auto_check_ytdlp
            &&& r.ytdlp_version == s.ytdlp_version
        }),
{
}

/// The end of a process is told to its entry. A failure that has no message yet
/// takes the last remembered line, which is then forgotten; in all other cases
/// the line stays remembered.
pub proof fn failure_takes_the_last_line(s: StateView, id: Seq<char>, ok: bool, i: ItemView)
    requires
        entry(s.queue, id) == Some(i),
    ensures
        ({
            let r = settled_state(s, id, ok);
            let open = i.status != "done"@ && i.status != "error"@ && i.status != "cancelled"@;
            let told = entry(r.queue, id)->0;
            &&& entry(r.queue, id) is Some
            &&& !open ==> told == i && r.last_line == s.last_line
            &&& open && ok ==> told == (ItemView {
                status: "done"@,
                stage: "done"@,
                progress: 10000,
                ..i
            }) && r.last_line == s.last_line
            &&& open && !ok && i.error is Some ==> told == i && r.last_line == s.last_line
            &&& open && !ok && i.error is None ==> {
                &&& told.status == "error"@
                &&& s.last_line is Some ==> told.error == s.last_line
                &&& s.last_line is None ==> told.error == Some("yt-dlp exited with an error"@)
                &&& told == (ItemView { status: told.status, error: told.error, ..i })
                &&& r.last_line is None
            }
            &&& r.auto_check_ytdlp == s.auto_check_ytdlp
            &&& r.ytdlp_version == s.ytdlp_version
            &&& r.queue.len() == s.queue.len()
            &&& forall|j: int|
                0 <= j < s.queue.len() && s.queue[j].id != id ==> (#[trigger] r.queue[j])
                    == s.queue[j]
        }),
{
    let u = settlement(s, id, ok);
    slot_from_is_first(s.queue, id, 0);
    change_keeps_slots(s.queue, id, u, id);
    change_touches_one_entry(s.queue, id, u);
    exit_decides_what_is_open(i, ok, None);
    exit_decides_what_is_open(i, ok, s.last_line);
}

/// A process of an entry that is no longer there changes nothing when it ends.
pub proof fn exits_without_entry_change_nothing(s: StateView, id: Seq<char>, ok: bool)
    requires
        entry(s.queue, id) is None,
    ensures
        settled_state(s, id, ok) == s,
{
}

/// A new entry holds what was asked for and waits; nothing is known of it yet.
pub proof fn new_entries_wait(
    id: Seq<char>,
    url: Seq<char>,
    mode: Seq<char>,
    quality: Seq<char>,
    save_dir: Seq<char>,
)
    ensures
        ({
            let r = new_entry(id, url, mode, quality, save_dir);
            &&& r.id == id && r.url == url && r.mode == mode
            &&& r.quality == quality && r.save_dir == save_dir
            &&& r.status == "pending"@ && r.stage == "info"@
            &&& r.progress == 0
            &&& r.media_id is None && r.title is None && r.speed is None && r.error is None
        }),
{
}

/// Entries with the id go, all others stay in their order.
pub proof fn removal_keeps_the_order(a: Seq<ItemView>, b: Seq<ItemView>, i: ItemView, id: Seq<char>)
    ensures
        without_id(a + b, id) == without_id(a, id) + without_id(b, id),
        without_id(seq![], id) == Seq::<ItemView>::empty(),
        i.id == id ==> without_id(seq![i], id) == Seq::<ItemView>::empty(),
        i.id != id ==> without_id(seq![i], id) == seq![i],
{
    let other = |i: ItemView| i.id != id;
    Seq::filter_distributes_over_add(a, b, other);
    reveal(Seq::filter);
    let one = seq![i];
    assert(one.drop_last() =~= seq![]);
    assert(one.last() == i);
    assert(one.drop_last().filter(other) =~= seq![]);
    assert(Seq::<ItemView>::empty().push(i) =~= one);
    assert(without_id(one, id) =~= if i.id == id {
        seq![]
    } else {
        one
    });
}

/// A download completed exactly if its process was seen to end well; it is to be
/// polled again exactly while it runs, and in every other case it failed.
pub proof fn polls_are_judged()
    ensures
        verdict(ChildState::Exited { success: true }) == Some(true),
        verdict(ChildState::Exited { success: false }) == Some(false),
        verdict(ChildState::Running) is None,
        verdict(ChildState::Unknown) == Some(false),
        verdict(ChildState::Gone) == Some(false),
        ended_well(Some(true)),
        !ended_well(Some(false)),
        !ended_well(None),
{
}

/// The commands change what they are for and nothing else: the queue keeps its
/// other entries, and the rest of the state stays.
pub proof fn commands_change_what_they_are_for(
    s: StateView,
    id: Seq<char>,
    media_id: Seq<char>,
    title: Seq<char>,
    program: Seq<char>,
    reason: Seq<char>,
    was_running: bool,
    enabled: bool,
    queue: Seq<ItemView>,
)
    ensures
        with_metadata(s, id, None) == s,
        with_metadata(s, id, Some((media_id, title))) == (StateView {
            queue: with_change(s.queue, id, UpdateView::Metadata { media_id, title }),
            ..s
        }),
        with_start_failure(s, id, program, reason) == (StateView {
            queue: with_change(
                s.queue,
                id,
                UpdateView::StartFailed {
                    error: "Cannot start yt-dlp ("@ + program + "): "@ + reason + "."@,
                },
            ),
            ..s
        }),
        with_cancellation(s, id, was_running) == (StateView {
            queue: with_change(s.queue, id, UpdateView::Cancelled { was_running }),
            ..s
        }),
        with_queue(s, queue) == (StateView { queue, ..s }),
        with_auto_check(s, enabled) == (StateView { auto_check_ytdlp: enabled, ..s }),
{
}

/// The program starts with an empty queue, looks for updates, and knows neither
/// version nor line yet.
pub proof fn program_starts_empty()
    ensures
        first_state().queue.len() == 0,
        first_state().auto_check_ytdlp,
        first_state().ytdlp_version.len() == 0,
        first_state().last_line is None,
{
}

/// Cancelling an entry that waits or is at work shows it in error with the
/// message for its case.
pub proof fn cancellation_is_shown(s: StateView, id: Seq<char>, was_running: bool, i: ItemView)
    requires
        entry(s.queue, id) == Some(i),
        i.status == "pending"@ || i.status == "running"@,
    ensures
        ({
            let r = entry(with_cancellation(s, id, was_running).queue, id);
            &&& r is Some
            &&& r->0.status == "error"@
            &&& was_running ==> r->0.error == Some("Скасування завантаження"@)
            &&& !was_running ==> r->0.error == Some("Очікує скасування"@)
        }),
{
    let u = UpdateView::Cancelled { was_running };
    slot_from_is_first(s.queue, id, 0);
    change_keeps_slots(s.queue, id, u, id);
    cancelling_tells_which(i, was_running);
}

/// A line changes the status of an entry in two ways only: a download line that
/// says that the download is complete, and has no progress, makes it done, and
/// an error line puts it in error. Progress, at one hundred percent too, titles
/// and joining streams leave the status as it was.
pub proof fn status_changes_by_end_and_error_only(
    q: Seq<ItemView>,
    id: Seq<char>,
    line: Seq<char>,
    percent: Option<i64>,
    media_id: Option<Seq<char>>,
    j: int,
)
    requires
        0 <= j < q.len(),
    ensures
        ({
            let r = with_changes(q, id, changes_of(line, percent, media_id))[j];
            let told_end = "[download]"@.is_prefix_of(line) && progress_of(line, percent) is None
                && (has_part(line, "100%"@) || has_part(line, "Download completed"@));
            let told_error = "[error]"@.is_prefix_of(line) || "ERROR:"@.is_prefix_of(line);
            &&& r.status != q[j].status ==> q[j].id == id
            &&& r.status != q[j].status && told_end ==> r.status == "done"@
            &&& r.status != q[j].status && !told_end ==> told_error && r.status == "error"@
            &&& !told_end && !told_error ==> r.status == q[j].status && r.error == q[j].error
        }),
{
    let us = changes_of(line, percent, media_id);
    changes_leave_others(q, id, us);
    slot_from_is_first(q, id, 0);
    reveal_with_fuel(with_changes, 3);
    if us.len() > 0 {
        let first = us.drop_last();
        changes_keep_entry(q, id, first);
        if us.len() == 2 {
            assert(first =~= seq![us[0]]);
            assert(first.drop_last() =~= seq![]);
        } else {
            assert(first =~= seq![]);
        }
    }
}

} // verus!
