//! The files that downloads leave behind, and the history that is kept of
//! them.
use crate::item::{DownloadItem, ItemView};
use crate::queue::items;
use crate::text::{
    cat, cat3, contains, has_part, joined_has_part, same, starts_with, str_opt, texts,
};
use vstd::prelude::*;

verus! {

/// One entry of a directory.
pub struct DirEntry {
    pub name: String,
    pub is_file: bool,
}

/// What a `DirEntry` holds.
#[verifier::ext_equal]
pub struct EntryView {
    pub name: Seq<char>,
    pub is_file: bool,
}

impl View for DirEntry {
    type V = EntryView;

    open spec fn view(&self) -> EntryView {
        EntryView { name: self.name@, is_file: self.is_file }
    }
}

/// The entries of a directory.
pub open spec fn entries(v: Seq<DirEntry>) -> Seq<EntryView> {
    v.map_values(|e: DirEntry| e@)
}

/// The entries of a directory that could be read.
pub open spec fn entries_opt(v: Option<Vec<DirEntry>>) -> Option<Seq<EntryView>> {
    match v {
        Some(v) => Some(entries(v@)),
        None => None,
    }
}

/// What every file of a video has in its name: the id in brackets.
pub open spec fn bracketed(id: Seq<char>) -> Seq<char> {
    "["@ + id + "]"@
}

/// The name that a download gives its file.
pub open spec fn output_name(title: Seq<char>, id: Seq<char>, ext: Seq<char>) -> Seq<char> {
    title + " ["@ + id + "]."@ + ext
}

/// The file belongs to the video with the given id.
pub open spec fn is_output_of(e: EntryView, id: Seq<char>) -> bool {
    e.is_file && has_part(e.name, bracketed(id))
}

/// The file is a thumbnail or metadata of the video with the given id.
pub open spec fn is_media_of(e: EntryView, id: Seq<char>) -> bool {
    e.is_file && (id + "."@).is_prefix_of(e.name)
}

/// The names of the files of a video in a directory.
pub open spec fn outputs(es: Seq<EntryView>, id: Seq<char>) -> Seq<Seq<char>> {
    es.filter(|e: EntryView| is_output_of(e, id)).map_values(|e: EntryView| e.name)
}

/// The names of the thumbnails and metadata files of a video in a directory.
pub open spec fn media_files(es: Seq<EntryView>, id: Seq<char>) -> Seq<Seq<char>> {
    es.filter(|e: EntryView| is_media_of(e, id)).map_values(|e: EntryView| e.name)
}

/// Whatever the title of a video, the file of its download belongs to it.
pub proof fn output_is_recognized(title: Seq<char>, id: Seq<char>, ext: Seq<char>)
    ensures
        is_output_of(EntryView { name: output_name(title, id, ext), is_file: true }, id),
{
    reveal_strlit(" [");
    reveal_strlit("]");
    reveal_strlit("[");
    reveal_strlit("].");
    let a = title + seq![' '];
    let b = seq!['.'] + ext;
    joined_has_part(a, bracketed(id), b);
    assert(a + bracketed(id) + b =~= output_name(title, id, ext));
}

/// Makes the text that every file of a video has in its name.
pub fn output_pattern(id: &str) -> (r: String)
    ensures
        r@ == bracketed(id@),
{
    cat3("[", id, "]")
}

/// Tests whether a file belongs to a video, by the text that all its files
/// have in their names.
fn matches_pattern(e: &DirEntry, pattern: &str) -> (r: bool)
    ensures
        r == (e@.is_file && has_part(e@.name, pattern@)),
{
    e.is_file && contains(e.name.as_str(), pattern)
}

/// Lists the files of a video in a directory: the finished one as well as what
/// an unfinished download left.
pub fn output_files(listing: &Vec<DirEntry>, id: &str) -> (r: Vec<String>)
    ensures
        texts(r@) == outputs(entries(listing@), id@),
{
    let pattern = output_pattern(id);
    let mut r: Vec<String> = Vec::new();
    let ghost es = entries(listing@);
    let ghost wanted = |e: EntryView| is_output_of(e, id@);
    let ghost name = |e: EntryView| e.name;
    assert(es.take(0).filter(wanted).map_values(name) =~= seq![]) by {
        reveal(Seq::filter);
    }
    assert(texts(r@) =~= seq![]);
    for i in 0..listing.len()
        invariant
            es == entries(listing@),
            pattern@ == bracketed(id@),
            wanted == (|e: EntryView| is_output_of(e, id@)),
            name == (|e: EntryView| e.name),
            texts(r@) == es.take(i as int).filter(wanted).map_values(name),
    {
        let ghost before = r@;
        let ghost kept = es.take(i as int).filter(wanted);
        assert(es.take(i + 1).drop_last() =~= es.take(i as int));
        assert(es.take(i + 1).last() == es[i as int]);
        reveal(Seq::filter);
        if matches_pattern(&listing[i], pattern.as_str()) {
            r.push(listing[i].name.clone());
            assert(texts(r@) =~= texts(before).push(es[i as int].name));
            assert(kept.push(es[i as int]).map_values(name) =~= kept.map_values(name).push(
                es[i as int].name,
            ));
        }
    }
    assert(es.take(es.len() as int) =~= es);
    r
}

/// Lists the thumbnails and metadata files of a video in a directory.
pub fn cleanup_media(listing: &Vec<DirEntry>, id: &str) -> (r: Vec<String>)
    ensures
        texts(r@) == media_files(entries(listing@), id@),
{
    let start = cat(id, ".");
    let mut r: Vec<String> = Vec::new();
    let ghost es = entries(listing@);
    let ghost wanted = |e: EntryView| is_media_of(e, id@);
    let ghost name = |e: EntryView| e.name;
    assert(es.take(0).filter(wanted).map_values(name) =~= seq![]) by {
        reveal(Seq::filter);
    }
    assert(texts(r@) =~= seq![]);
    for i in 0..listing.len()
        invariant
            es == entries(listing@),
            start@ == id@ + "."@,
            wanted == (|e: EntryView| is_media_of(e, id@)),
            name == (|e: EntryView| e.name),
            texts(r@) == es.take(i as int).filter(wanted).map_values(name),
    {
        let ghost before = r@;
        let ghost kept = es.take(i as int).filter(wanted);
        assert(es.take(i + 1).drop_last() =~= es.take(i as int));
        assert(es.take(i + 1).last() == es[i as int]);
        reveal(Seq::filter);
        if listing[i].is_file && starts_with(listing[i].name.as_str(), start.as_str()) {
            r.push(listing[i].name.clone());
            assert(texts(r@) =~= texts(before).push(es[i as int].name));
            assert(kept.push(es[i as int]).map_values(name) =~= kept.map_values(name).push(
                es[i as int].name,
            ));
        }
    }
    assert(es.take(es.len() as int) =~= es);
    r
}

/// The files that are to go with an entry of the queue: those of the video
/// `media_id` in the directory `save_dir`, and its thumbnails and metadata.
pub struct Disposal {
    pub save_dir: String,
    pub media_id: String,
}

/// What a `Disposal` names, if there is one.
pub open spec fn disposal_view(d: Option<Disposal>) -> Option<(Seq<char>, Seq<char>)> {
    match d {
        Some(d) => Some((d.save_dir@, d.media_id@)),
        None => None,
    }
}

/// What is known of where the files of an entry are.
pub open spec fn disposal_of(item: ItemView) -> Option<(Seq<char>, Seq<char>)> {
    match item.media_id {
        Some(id) => Some((item.save_dir, id)),
        None => None,
    }
}

/// Tells which files go with an entry that is cancelled.
pub fn cancel_disposal(item: &DownloadItem) -> (r: Option<Disposal>)
    ensures
        disposal_view(r) == disposal_of(item@),
{
    match &item.media_id {
        Some(id) => Some(Disposal { save_dir: item.save_dir.clone(), media_id: id.clone() }),
        None => None,
    }
}

/// Which files go with an entry that is removed.
pub open spec fn removal_of(item: ItemView) -> Option<(Seq<char>, Seq<char>)> {
    if item.status == "done"@ {
        disposal_of(item)
    } else {
        None
    }
}

/// Tells which files go with an entry that is removed: those of a finished
/// download.
pub fn removal_disposal(item: &DownloadItem) -> (r: Option<Disposal>)
    ensures
        disposal_view(r) == removal_of(item@),
{
    if same(item.status.as_str(), "done") {
        cancel_disposal(item)
    } else {
        None
    }
}

/// What is deleted from the directory of a cancelled download.
pub open spec fn partial_files(
    listing: Option<Seq<EntryView>>,
    media_id: Option<Seq<char>>,
) -> Seq<Seq<char>> {
    match (listing, media_id) {
        (Some(es), Some(id)) => outputs(es, id),
        _ => seq![],
    }
}

/// Lists what is deleted from the directory of a cancelled download: all files
/// of its video, if the video is known and the directory can be read.
pub fn remove_partial_files_for(listing: &Option<Vec<DirEntry>>, media_id: Option<&str>) -> (r: Vec<
    String,
>)
    ensures
        texts(r@) == partial_files(entries_opt(*listing), str_opt(media_id)),
{
    match (listing, media_id) {
        (Some(v), Some(id)) => output_files(v, id),
        _ => {
            let r: Vec<String> = Vec::new();
            assert(texts(r@) =~= seq![]);
            r
        },
    }
}

/// What is deleted from the directory of a removed download, if the directory
/// can be read.
pub open spec fn removed_names(listing: Option<Seq<EntryView>>, id: Seq<char>) -> Option<
    Seq<Seq<char>>,
> {
    match listing {
        Some(es) => Some(outputs(es, id)),
        None => None,
    }
}

/// Lists what is deleted from the directory of a removed download. Where the
/// directory cannot be read nothing is deleted, neither there nor of the
/// thumbnails and metadata: `None`.
pub fn removed_files(listing: &Option<Vec<DirEntry>>, disposal: &Disposal) -> (r: Option<
    Vec<String>,
>)
    ensures
        match r {
            Some(names) => removed_names(entries_opt(*listing), disposal.media_id@) == Some(
                texts(names@),
            ),
            None => removed_names(entries_opt(*listing), disposal.media_id@) is None,
        },
{
    match listing {
        Some(v) => Some(output_files(v, disposal.media_id.as_str())),
        None => None,
    }
}

/// An entry of the stored history, with the directory of its file as it is
/// now. Only for an entry that `asks_for_listing` the directory is looked at;
/// there is none if it could not be read.
pub struct StoredEntry {
    pub item: DownloadItem,
    pub listing: Option<Vec<DirEntry>>,
}

/// What a `StoredEntry` holds.
#[verifier::ext_equal]
pub struct StoredView {
    pub item: ItemView,
    pub listing: Option<Seq<EntryView>>,
}

impl View for StoredEntry {
    type V = StoredView;

    open spec fn view(&self) -> StoredView {
        StoredView { item: self.item@, listing: entries_opt(self.listing) }
    }
}

/// The entries of the stored history.
pub open spec fn stored(v: Seq<StoredEntry>) -> Seq<StoredView> {
    v.map_values(|s: StoredEntry| s@)
}

/// A directory holds a file of the video.
pub open spec fn holds_output(es: Seq<EntryView>, id: Seq<char>) -> bool {
    exists|i: int| 0 <= i < es.len() && is_output_of(#[trigger] es[i], id)
}

/// The file of the video is still in its directory.
pub open spec fn file_there(listing: Option<Seq<EntryView>>, id: Seq<char>) -> bool {
    match listing {
        Some(es) => holds_output(es, id),
        None => false,
    }
}

/// The entry is taken into the next session: a finished one if its file is
/// still there, and any other but those that were waiting or at work.
pub open spec fn survives(s: StoredView) -> bool {
    if s.item.status == "done"@ {
        match s.item.media_id {
            Some(id) => file_there(s.listing, id),
            None => false,
        }
    } else {
        s.item.status != "pending"@ && s.item.status != "running"@
    }
}

/// The video whose thumbnails and metadata go, because its file is gone.
pub open spec fn orphan(s: StoredView) -> Option<Seq<char>> {
    if s.item.status == "done"@ && !survives(s) {
        s.item.media_id
    } else {
        None
    }
}

/// The entries that are taken into the next session, in their order.
pub open spec fn survivors(ss: Seq<StoredView>) -> Seq<ItemView>
    decreases ss.len(),
{
    if ss.len() == 0 {
        seq![]
    } else if survives(ss.last()) {
        survivors(ss.drop_last()).push(ss.last().item)
    } else {
        survivors(ss.drop_last())
    }
}

/// The videos whose thumbnails and metadata go, in their order.
pub open spec fn orphans(ss: Seq<StoredView>) -> Seq<Seq<char>>
    decreases ss.len(),
{
    if ss.len() == 0 {
        seq![]
    } else {
        match orphan(ss.last()) {
            Some(id) => orphans(ss.drop_last()).push(id),
            None => orphans(ss.drop_last()),
        }
    }
}

/// Some entry is not taken into the next session.
pub open spec fn some_dropped(ss: Seq<StoredView>) -> bool {
    survivors(ss).len() != ss.len()
}

/// The history that a session starts with.
pub struct LoadedHistory {
    /// The entries that are taken over.
    pub kept: Vec<DownloadItem>,
    /// The videos whose thumbnails and metadata are to be removed.
    pub orphans: Vec<String>,
    /// Some entry was dropped.
    pub changed: bool,
}

/// The directory of the entry has to be looked at.
pub open spec fn needs_a_look(item: ItemView) -> bool {
    item.status == "done"@ && item.media_id is Some
}

/// Tells whether the directory of an entry has to be looked at to decide
/// whether it survives.
pub fn asks_for_listing(item: &DownloadItem) -> (r: bool)
    ensures
        r == needs_a_look(item@),
{
    same(item.status.as_str(), "done") && item.media_id.is_some()
}

/// Tests whether the file of a video is still in its directory.
fn still_there(listing: &Option<Vec<DirEntry>>, id: &str) -> (r: bool)
    ensures
        r == file_there(entries_opt(*listing), id@),
{
    match listing {
        Some(v) => {
            let pattern = output_pattern(id);
            let ghost es = entries(v@);
            for i in 0..v.len()
                invariant
                    pattern@ == bracketed(id@),
                    es == entries(v@),
                    entries_opt(*listing) == Some(es),
                    forall|j: int| 0 <= j < i ==> !is_output_of(#[trigger] es[j], id@),
            {
                assert(es[i as int] == v@[i as int]@);
                if matches_pattern(&v[i], pattern.as_str()) {
                    assert(holds_output(es, id@));
                    return true;
                }
            }
            false
        },
        None => false,
    }
}

/// Tests whether an entry is taken into the next session.
fn does_survive(s: &StoredEntry) -> (r: bool)
    ensures
        r == survives(s@),
{
    if same(s.item.status.as_str(), "done") {
        match &s.item.media_id {
            Some(id) => still_there(&s.listing, id.as_str()),
            None => false,
        }
    } else {
        !same(s.item.status.as_str(), "pending") && !same(s.item.status.as_str(), "running")
    }
}

/// Takes over the history of an earlier session: finished downloads whose file
/// is still there, and failed ones. A download that was waiting or at work
/// cannot survive a restart.
pub fn load_history(history: &Vec<StoredEntry>) -> (r: LoadedHistory)
    ensures
        items(r.kept@) == survivors(stored(history@)),
        texts(r.orphans@) == orphans(stored(history@)),
        r.changed == some_dropped(stored(history@)),
{
    let mut kept: Vec<DownloadItem> = Vec::new();
    let mut gone: Vec<String> = Vec::new();
    let ghost ss = stored(history@);
    assert(ss.take(0) =~= seq![]);
    assert(items(kept@) =~= seq![]);
    assert(texts(gone@) =~= seq![]);
    for i in 0..history.len()
        invariant
            ss == stored(history@),
            items(kept@) == survivors(ss.take(i as int)),
            texts(gone@) == orphans(ss.take(i as int)),
    {
        let ghost kept_before = kept@;
        let ghost gone_before = gone@;
        assert(ss.take(i + 1).drop_last() =~= ss.take(i as int));
        assert(ss.take(i + 1).last() == ss[i as int]);
        let s = &history[i];
        if does_survive(s) {
            kept.push(s.item.clone());
            assert(items(kept@) =~= items(kept_before).push(s@.item));
        } else if same(s.item.status.as_str(), "done") {
            match &s.item.media_id {
                Some(id) => {
                    gone.push(id.clone());
                    assert(texts(gone@) =~= texts(gone_before).push(id@));
                },
                None => {},
            }
        }
    }
    assert(ss.take(ss.len() as int) =~= ss);
    assert(items(kept@).len() == kept@.len());
    let changed = kept.len() != history.len();
    LoadedHistory { kept, orphans: gone, changed }
}

/// A directory holds a file of a video exactly while there is something in it
/// that goes with the video, and only files of the video go with it.
pub proof fn kept_until_deleted(es: Seq<EntryView>, id: Seq<char>)
    ensures
        holds_output(es, id) <==> outputs(es, id).len() > 0,
        forall|k: int|
            0 <= k < outputs(es, id).len() ==> exists|i: int|
                0 <= i < es.len() && is_output_of(#[trigger] es[i], id) && es[i].name
                    == #[trigger] outputs(es, id)[k],
        forall|i: int|
            0 <= i < es.len() && is_output_of(#[trigger] es[i], id) ==> outputs(es, id).contains(
                es[i].name,
            ),
    decreases es.len(),
{
    reveal(Seq::filter);
    let wanted = |e: EntryView| is_output_of(e, id);
    let name = |e: EntryView| e.name;
    if es.len() > 0 {
        let before = es.drop_last();
        let old_names = outputs(before, id);
        let names = outputs(es, id);
        kept_until_deleted(before, id);
        if is_output_of(es.last(), id) {
            assert(before.filter(wanted).push(es.last()).map_values(name) =~= old_names.push(
                es.last().name,
            ));
            assert(names == old_names.push(es.last().name));
            assert(names[old_names.len() as int] == es[es.len() - 1].name);
        } else {
            assert(names == old_names);
        }
        assert forall|k: int| 0 <= k < names.len() implies exists|i: int|
            0 <= i < es.len() && is_output_of(#[trigger] es[i], id) && es[i].name
                == #[trigger] names[k] by {
            if k < old_names.len() {
                let i = choose|i: int|
                    0 <= i < before.len() && is_output_of(#[trigger] before[i], id)
                        && before[i].name == old_names[k];
                assert(es[i] == before[i]);
            } else {
                assert(is_output_of(es[es.len() - 1], id));
            }
        }
        assert forall|i: int|
            0 <= i < es.len() && is_output_of(#[trigger] es[i], id) implies names.contains(
            es[i].name,
        ) by {
            if i < before.len() {
                assert(before[i] == es[i]);
                assert(old_names.contains(before[i].name));
                let k = choose|k: int| 0 <= k < old_names.len() && old_names[k] == before[i].name;
                assert(names[k] == es[i].name);
            }
        }
    }
}

/// The entries that are taken into the next session, with their directories.
pub open spec fn kept_entries(ss: Seq<StoredView>) -> Seq<StoredView> {
    ss.filter(|s: StoredView| survives(s))
}

/// Loading the history a second time, with the same files in place, takes over
/// every entry and has nothing to clean up.
pub proof fn loading_again_changes_nothing(ss: Seq<StoredView>)
    ensures
        survivors(kept_entries(ss)) == survivors(ss),
        survivors(ss) == kept_entries(ss).map_values(|s: StoredView| s.item),
        orphans(kept_entries(ss)).len() == 0,
    decreases ss.len(),
{
    reveal(Seq::filter);
    let item = |s: StoredView| s.item;
    if ss.len() == 0 {
        assert(kept_entries(ss) =~= seq![]);
        assert(survivors(ss) =~= kept_entries(ss).map_values(item));
    } else {
        let earlier = ss.drop_last();
        loading_again_changes_nothing(earlier);
        if survives(ss.last()) {
            let k = kept_entries(earlier).push(ss.last());
            assert(kept_entries(ss) == k);
            assert(k.drop_last() =~= kept_entries(earlier));
            assert(k.last() == ss.last());
            assert(k.map_values(item) =~= kept_entries(earlier).map_values(item).push(
                ss.last().item,
            ));
        } else {
            assert(kept_entries(ss) == kept_entries(earlier));
        }
    }
}

/// What is taken over was stored: no finished download whose file is gone, none
/// that was waiting or at work.
pub proof fn survivors_were_stored(ss: Seq<StoredView>, j: int)
    requires
        0 <= j < survivors(ss).len(),
    ensures
        exists|k: int|
            0 <= k < ss.len() && survives(#[trigger] ss[k]) && ss[k].item == survivors(ss)[j],
        survivors(ss)[j].status != "pending"@,
        survivors(ss)[j].status != "running"@,
    decreases ss.len(),
{
    let earlier = ss.drop_last();
    reveal_strlit("done");
    reveal_strlit("pending");
    reveal_strlit("running");
    assert("done"@.len() != "pending"@.len());
    assert("done"@.len() != "running"@.len());
    if survives(ss.last()) && j == survivors(earlier).len() {
        assert(survives(ss[ss.len() - 1]));
    } else {
        survivors_were_stored(earlier, j);
        let k = choose|k: int|
            0 <= k < earlier.len() && survives(#[trigger] earlier[k]) && earlier[k].item
                == survivors(earlier)[j];
        assert(ss[k] == earlier[k]);
    }
}

/// Only files of the directory whose name has the id in brackets are listed for
/// deletion, and every such file is.
pub proof fn only_bracketed_files_go(es: Seq<EntryView>, id: Seq<char>)
    ensures
        forall|k: int|
            0 <= k < outputs(es, id).len() ==> has_part(
                #[trigger] outputs(es, id)[k],
                "["@ + id + "]"@,
            ),
        forall|k: int|
            0 <= k < outputs(es, id).len() ==> exists|i: int|
                0 <= i < es.len() && (#[trigger] es[i]).is_file && es[i].name
                    == #[trigger] outputs(es, id)[k],
        forall|i: int|
            0 <= i < es.len() && (#[trigger] es[i]).is_file && has_part(
                es[i].name,
                "["@ + id + "]"@,
            ) ==> outputs(es, id).contains(es[i].name),
{
    kept_until_deleted(es, id);
    assert forall|k: int| 0 <= k < outputs(es, id).len() implies has_part(
        #[trigger] outputs(es, id)[k],
        "["@ + id + "]"@,
    ) && exists|i: int|
        0 <= i < es.len() && (#[trigger] es[i]).is_file && es[i].name == outputs(es, id)[k] by {
        let i = choose|i: int|
            0 <= i < es.len() && is_output_of(#[trigger] es[i], id) && es[i].name == outputs(
                es,
                id,
            )[k];
        assert(es[i].is_file);
    }
    assert forall|i: int|
        0 <= i < es.len() && (#[trigger] es[i]).is_file && has_part(
            es[i].name,
            "["@ + id + "]"@,
        ) implies outputs(es, id).contains(es[i].name) by {
        assert(is_output_of(es[i], id));
    }
}

/// A directory is gone through entry by entry, in its order: the files of two
/// lists of entries are those of the first and then those of the second, and
/// one entry counts exactly if it is a file with the id in brackets in its
/// name, or for thumbnails and metadata, if it is a file whose name begins with
/// the id and a dot.
pub proof fn directories_are_gone_through_in_order(
    a: Seq<EntryView>,
    b: Seq<EntryView>,
    e: EntryView,
    id: Seq<char>,
)
    ensures
        outputs(a + b, id) == outputs(a, id) + outputs(b, id),
        outputs(seq![], id) == Seq::<Seq<char>>::empty(),
        e.is_file && has_part(e.name, "["@ + id + "]"@) ==> outputs(seq![e], id) == seq![e.name],
        !(e.is_file && has_part(e.name, "["@ + id + "]"@)) ==> outputs(seq![e], id) == Seq::<
            Seq<char>,
        >::empty(),
        media_files(a + b, id) == media_files(a, id) + media_files(b, id),
        media_files(seq![], id) == Seq::<Seq<char>>::empty(),
        e.is_file && (id + "."@).is_prefix_of(e.name) ==> media_files(seq![e], id) == seq![e.name],
        !(e.is_file && (id + "."@).is_prefix_of(e.name)) ==> media_files(seq![e], id) == Seq::<
            Seq<char>,
        >::empty(),
{
    let name = |e: EntryView| e.name;
    let wanted = |e: EntryView| is_output_of(e, id);
    let kept = |e: EntryView| is_media_of(e, id);
    Seq::filter_distributes_over_add(a, b, wanted);
    Seq::filter_distributes_over_add(a, b, kept);
    assert((a.filter(wanted) + b.filter(wanted)).map_values(name) =~= a.filter(wanted).map_values(
        name,
    ) + b.filter(wanted).map_values(name));
    assert((a.filter(kept) + b.filter(kept)).map_values(name) =~= a.filter(kept).map_values(name)
        + b.filter(kept).map_values(name));
    let none = Seq::<EntryView>::empty();
    let one = seq![e];
    reveal(Seq::filter);
    assert(none.filter(wanted).map_values(name) =~= seq![]);
    assert(none.filter(kept).map_values(name) =~= seq![]);
    assert(one.drop_last() =~= none);
    assert(one.last() == e);
    assert(outputs(one, id) =~= if is_output_of(e, id) {
        seq![e.name]
    } else {
        seq![]
    });
    assert(media_files(one, id) =~= if is_media_of(e, id) {
        seq![e.name]
    } else {
        seq![]
    });
}

/// What becomes of one stored entry, by what it is: a finished one is taken
/// over exactly if its video is known and its directory could be read and holds
/// a file with the id of the video in brackets; one that was waiting or at work
/// is not; and any other is, a failed one above all, whatever else it holds.
pub proof fn what_is_taken_over(s: StoredView)
    ensures
        s.item.status == "error"@ ==> survives(s),
        s.item.status != "done"@ && s.item.status != "pending"@ && s.item.status != "running"@
            ==> survives(s),
        s.item.status == "pending"@ || s.item.status == "running"@ ==> !survives(s),
        s.item.status == "done"@ ==> (survives(s) <==> {
            &&& s.item.media_id is Some
            &&& s.listing is Some
            &&& exists|i: int|
                0 <= i < s.listing->0.len() && (#[trigger] s.listing->0[i]).is_file && has_part(
                    s.listing->0[i].name,
                    "["@ + s.item.media_id->0 + "]"@,
                )
        }),
{
    reveal_strlit("done");
    reveal_strlit("error");
    reveal_strlit("pending");
    reveal_strlit("running");
    assert("error"@.len() == 5 && "done"@.len() == 4);
    assert("pending"@.len() == 7 && "running"@.len() == 7);
    if s.item.status == "done"@ && s.item.media_id is Some && s.listing is Some {
        let es = s.listing->0;
        let id = s.item.media_id->0;
        if holds_output(es, id) {
            let i = choose|i: int| 0 <= i < es.len() && is_output_of(#[trigger] es[i], id);
            assert(es[i].is_file && has_part(es[i].name, "["@ + id + "]"@));
        }
        if exists|i: int|
            0 <= i < es.len() && (#[trigger] es[i]).is_file && has_part(
                es[i].name,
                "["@ + id + "]"@,
            ) {
            let i = choose|i: int|
                0 <= i < es.len() && (#[trigger] es[i]).is_file && has_part(
                    es[i].name,
                    "["@ + id + "]"@,
                );
            assert(is_output_of(es[i], id));
        }
    }
}

/// Every stored entry in error is taken over, and every finished one whose
/// directory holds a file of its video, wherever it stands in the history.
pub proof fn errors_and_files_are_taken_over(ss: Seq<StoredView>, k: int)
    requires
        0 <= k < ss.len(),
        ss[k].item.status == "error"@ || {
            &&& ss[k].item.status == "done"@
            &&& ss[k].item.media_id is Some
            &&& ss[k].listing is Some
            &&& exists|i: int|
                0 <= i < ss[k].listing->0.len() && (#[trigger] ss[k].listing->0[i]).is_file
                    && has_part(
                    ss[k].listing->0[i].name,
                    "["@ + ss[k].item.media_id->0 + "]"@,
                )
        },
    ensures
        survivors(ss).contains(ss[k].item),
{
    let a = ss.take(k);
    let b = ss.skip(k + 1);
    let s = ss[k];
    what_is_taken_over(s);
    history_goes_in_order(a, seq![s]);
    history_goes_in_order(a + seq![s], b);
    one_entry(s);
    assert(ss =~= a + seq![s] + b);
    let all = survivors(a) + seq![s.item] + survivors(b);
    assert(survivors(ss) == all);
    assert(all[survivors(a).len() as int] == s.item);
}

/// The history is gone through entry by entry, in its order, both for what is
/// taken over and for the videos to clean up after.
pub proof fn history_goes_in_order(a: Seq<StoredView>, b: Seq<StoredView>)
    ensures
        survivors(a + b) == survivors(a) + survivors(b),
        orphans(a + b) == orphans(a) + orphans(b),
        survivors(seq![]) == Seq::<ItemView>::empty(),
        orphans(seq![]) == Seq::<Seq<char>>::empty(),
    decreases b.len(),
{
    if b.len() == 0 {
        assert(a + b =~= a);
        assert(survivors(a) + survivors(b) =~= survivors(a));
        assert(orphans(a) + orphans(b) =~= orphans(a));
    } else {
        let shorter = b.drop_last();
        history_goes_in_order(a, shorter);
        assert((a + b).drop_last() =~= a + shorter);
        assert((a + b).last() == b.last());
        let item = b.last().item;
        assert((survivors(a) + survivors(shorter)).push(item) =~= survivors(a) + survivors(
            shorter,
        ).push(item));
        match orphan(b.last()) {
            Some(id) => {
                assert((orphans(a) + orphans(shorter)).push(id) =~= orphans(a) + orphans(
                    shorter,
                ).push(id));
            },
            None => {},
        }
    }
}

proof fn one_entry(s: StoredView)
    ensures
        survivors(seq![s]) == if survives(s) {
            seq![s.item]
        } else {
            seq![]
        },
        orphans(seq![s]) == match orphan(s) {
            Some(id) => seq![id],
            None => seq![],
        },
{
    let one = seq![s];
    let none = Seq::<StoredView>::empty();
    assert(one.drop_last() =~= none);
    assert(one.last() == s);
    assert(survivors(none) =~= seq![]);
    assert(orphans(none) =~= seq![]);
    assert(survivors(one) =~= if survives(s) {
        seq![s.item]
    } else {
        seq![]
    });
}

/// What one stored entry gives: itself, unchanged, if it is taken over, and its
/// video to clean up after exactly if it is finished, its video is known, and
/// it is not taken over.
pub proof fn one_stored_entry(s: StoredView)
    ensures
        survives(s) ==> survivors(seq![s]) == seq![s.item] && orphans(seq![s]) == Seq::<
            Seq<char>,
        >::empty(),
        !survives(s) ==> survivors(seq![s]) == Seq::<ItemView>::empty(),
        !survives(s) && s.item.status == "done"@ && s.item.media_id is Some ==> orphans(seq![s])
            == seq![s.item.media_id->0],
        s.item.status != "done"@ || s.item.media_id is None ==> orphans(seq![s]) == Seq::<
            Seq<char>,
        >::empty(),
{
    one_entry(s);
}

/// The history has changed exactly if some entry is not taken over.
pub proof fn history_changes_by_dropping(ss: Seq<StoredView>)
    ensures
        survivors(ss).len() <= ss.len(),
        some_dropped(ss) <==> exists|k: int|
            0 <= k < ss.len() && !survives(#[trigger] ss[k]),
    decreases ss.len(),
{
    if ss.len() > 0 {
        let earlier = ss.drop_last();
        history_changes_by_dropping(earlier);
        if survivors(earlier).len() != earlier.len() {
            let k = choose|k: int| 0 <= k < earlier.len() && !survives(#[trigger] earlier[k]);
            assert(!survives(ss[k]));
        }
        if !survives(ss.last()) {
            assert(!survives(ss[ss.len() - 1]));
        }
        if exists|k: int| 0 <= k < ss.len() && !survives(#[trigger] ss[k]) {
            let k = choose|k: int| 0 <= k < ss.len() && !survives(#[trigger] ss[k]);
            if k < earlier.len() {
                assert(!survives(earlier[k]));
            }
        }
    }
}

/// With an entry go the files of its video in its directory, where the video is
/// known; with a removed entry only if it is finished.
pub proof fn files_go_with_known_videos(item: ItemView)
    ensures
        item.media_id matches Some(id) ==> disposal_of(item) == Some((item.save_dir, id)),
        item.media_id is None ==> disposal_of(item) is None,
        item.status == "done"@ ==> removal_of(item) == disposal_of(item),
        item.status != "done"@ ==> removal_of(item) is None,
{
}

/// The file of a download is named as the command line of the download asks:
/// title, id in brackets, ending.
pub proof fn output_is_named_after_title_and_id(
    title: Seq<char>,
    id: Seq<char>,
    ext: Seq<char>,
)
    ensures
        output_name(title, id, ext) == title + " ["@ + id + "]."@ + ext,
        bracketed(id) == "["@ + id + "]"@,
{
}

/// From the directory of a cancelled or removed download all files of its video
/// go, if the directory can be read and the video is known, and otherwise none.
pub proof fn known_videos_alone_are_deleted(es: Seq<EntryView>, id: Seq<char>)
    ensures
        partial_files(Some(es), Some(id)) == outputs(es, id),
        partial_files(None, Some(id)).len() == 0,
        partial_files(Some(es), None).len() == 0,
        partial_files(None, None).len() == 0,
        removed_names(Some(es), id) == Some(outputs(es, id)),
        removed_names(None, id) is None,
{
}

/// Where the directory of an entry is not looked at, what is in it makes no
/// difference.
pub proof fn looks_are_enough(
    item: ItemView,
    one: Option<Seq<EntryView>>,
    other: Option<Seq<EntryView>>,
)
    requires
        !needs_a_look(item),
    ensures
        survives(StoredView { item, listing: one }) == survives(StoredView { item, listing: other }),
        orphan(StoredView { item, listing: one }) == orphan(StoredView { item, listing: other }),
        !(item.status == "done"@ && item.media_id is Some),
{
}

} // verus!
