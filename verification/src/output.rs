//! The lines that yt-dlp prints, and what each of them says about a download.
use crate::item::{change_in_range, ItemUpdate, UpdateView, FULL};
use crate::text::{
    before, before_a_character, blank, byte_len, contains, find, has_part, is_whitespace,
    len_in_bytes, lossy_text, lossy_utf8, occurs_at, part_before, part_of_part, position,
    position_from_is_first, position_iff_part, prefix_and_rest, rest_of_joined, starts_with,
    str_opt, strip_prefix, text_opt, tight, trim, trim_start, trimmed, trimmed_between_blanks,
    trimmed_is_part, trimmed_with_blanks_around, without_prefix,
};
use vstd::prelude::*;
use vstd::string::StrSliceExecFns;

verus! {

/// What follows the tag of a download line.
pub open spec fn download_rest(line: Seq<char>) -> Option<Seq<char>> {
    match without_prefix(trimmed(line), "[download]"@) {
        Some(rest) => Some(trimmed(rest)),
        None => None,
    }
}

/// The text of the percentage in a download line: what stands before the
/// percent sign.
pub open spec fn percent_field(line: Seq<char>) -> Option<Seq<char>> {
    match download_rest(line) {
        Some(rest) => Some(trimmed(before(rest, "%"@))),
        None => None,
    }
}

/// The speed in the rest of a download line: what stands between "at" and
/// "ETA", or after "at" where there is no "ETA".
pub open spec fn speed_field(rest: Seq<char>) -> Option<Seq<char>> {
    match position(rest, "at "@) {
        Some(i) => Some(trimmed(before(trimmed(rest.skip(i + 3)), " ETA"@))),
        None => None,
    }
}

/// `p` brought into the range of a progress value.
pub open spec fn clamped(p: int) -> int {
    if p < 0 {
        0
    } else if p > FULL {
        FULL as int
    } else {
        p
    }
}

/// Progress and speed of a download line whose percentage reads as `percent`.
pub open spec fn progress_of(line: Seq<char>, percent: Option<i64>) -> Option<
    (int, Option<Seq<char>>),
> {
    match (download_rest(line), percent) {
        (Some(rest), Some(p)) => Some((clamped(p as int), speed_field(rest))),
        _ => None,
    }
}

/// The title in an information or merger line: what stands between the tag
/// and the first colon.
pub open spec fn title_of(line: Seq<char>) -> Option<Seq<char>> {
    let rest = match without_prefix(line, "[info]"@) {
        Some(rest) => Some(rest),
        None => without_prefix(line, "[Merger]"@),
    };
    match rest {
        Some(rest) => {
            let title = trimmed(before(trimmed(rest), ":"@));
            if title.len() == 0 {
                None
            } else {
                Some(title)
            }
        },
        None => None,
    }
}

/// What a metadata line says before the path of the file.
pub open spec fn metadata_mark() -> Seq<char> {
    "[info] Writing video metadata as JSON to:"@
}

/// The position after the last `c` in `s`, or 0.
pub open spec fn after_last(s: Seq<char>, c: char) -> int
    decreases s.len(),
{
    if s.len() == 0 {
        0
    } else if s.last() == c {
        s.len() as int
    } else {
        after_last(s.drop_last(), c)
    }
}

/// The part of a path after its last slash.
pub open spec fn file_part(path: Seq<char>) -> Seq<char> {
    path.skip(after_last(path, '/'))
}

/// A file name without its extension: what stands before the last dot, or the
/// whole name where that would be nothing.
pub open spec fn stem_of(name: Seq<char>) -> Seq<char> {
    if after_last(name, '.') <= 1 {
        name
    } else {
        name.take(after_last(name, '.') - 1)
    }
}

/// A character that separates the parts of a path on some system.
pub open spec fn is_separator(c: char) -> bool {
    c == '/' || c == '\\'
}

/// A name that every system takes as the name of one file.
pub open spec fn plain_name(name: Seq<char>) -> bool {
    &&& name.len() > 0
    &&& name != "."@
    &&& name != ".."@
    &&& forall|i: int|
        0 <= i < name.len() ==> !is_separator(#[trigger] name[i]) && name[i] != ':' && name[i]
            != '\0'
}

/// A path that some system may read as naming a server or a device.
pub open spec fn network_path(path: Seq<char>) -> bool {
    path.len() >= 2 && is_separator(path[0]) && is_separator(path[1])
}

/// The part of a path after its last slash or backslash.
pub open spec fn last_part(path: Seq<char>) -> Seq<char> {
    if after_last(path, '/') >= after_last(path, '\\') {
        file_part(path)
    } else {
        path.skip(after_last(path, '\\'))
    }
}

/// A path in which some system takes slashes as a part of names: one that
/// begins with the mark of a verbatim path.
pub open spec fn verbatim_path(path: Seq<char>) -> bool {
    "\\\\?\\"@.is_prefix_of(path)
}

/// What the stem of a path can be, whatever the system: a part of the path that
/// is not empty and has no slash in it, and where the path ends with a plain
/// name, that of the part after the last slash, or where backslashes separate
/// too, that of the part after the last of either.
pub open spec fn stem_allowed(path: Seq<char>, stem: Option<Seq<char>>) -> bool {
    &&& path.len() == 0 ==> stem is None
    &&& stem matches Some(s) ==> s.len() > 0 && has_part(path, s)
    &&& stem matches Some(s) ==> !verbatim_path(path) ==> !s.contains('/')
    &&& !network_path(path) && plain_name(last_part(path)) ==> stem == Some(
        stem_of(file_part(path)),
    ) || stem == Some(stem_of(last_part(path)))
}

/// The video id in the stem of a metadata file `{id}.info.json`, if it is of
/// the length of an id.
pub open spec fn id_of_stem(stem: Option<Seq<char>>) -> Option<Seq<char>> {
    match stem {
        Some(s) => {
            let id = if ".info"@.is_suffix_of(s) {
                s.take(s.len() - ".info"@.len())
            } else {
                s
            };
            if 5 < byte_len(id) < 16 {
                Some(id)
            } else {
                None
            }
        },
        None => None,
    }
}

/// What the video id in the path of a metadata file can be, whatever the
/// system.
pub open spec fn path_id_allowed(path: Seq<char>, id: Option<Seq<char>>) -> bool {
    exists|stem: Option<Seq<char>>| #[trigger]
        stem_allowed(path, stem) && id == id_of_stem(stem)
}

/// What the video id of a line can be, whatever the system.
pub open spec fn media_id_allowed(line: Seq<char>, id: Option<Seq<char>>) -> bool {
    match without_prefix(line, metadata_mark()) {
        Some(rest) => path_id_allowed(trimmed(rest), id),
        None => id is None,
    }
}

/// The text of the percentage in a download line such as
/// `[download]  52.8% of  967.79KiB at  232.51KiB/s ETA 00:01`.
pub fn percent_text(line: &str) -> (r: Option<&str>)
    ensures
        match r {
            Some(t) => percent_field(line@) == Some(t@),
            None => percent_field(line@) is None,
        },
{
    match strip_prefix(trim(line), "[download]") {
        Some(rest) => Some(trim(part_before(trim(rest), "%"))),
        None => None,
    }
}

/// Reads progress and speed from a download line. `percent` is the number
/// that `percent_text` of the line stands for, in hundredths and rounded, if
/// it is a number.
pub fn parse_progress_line(line: &str, percent: Option<i64>) -> (r: Option<(u32, Option<String>)>)
    ensures
        match r {
            Some((p, speed)) => progress_of(line@, percent) == Some((p as int, text_opt(speed))),
            None => progress_of(line@, percent) is None,
        },
{
    let after = match strip_prefix(trim(line), "[download]") {
        Some(after) => after,
        None => {
            return None;
        },
    };
    let rest = trim(after);
    let p: i64 = match percent {
        Some(p) => p,
        None => {
            return None;
        },
    };
    let progress: u32 = if p < 0 {
        0
    } else if p > FULL as i64 {
        FULL
    } else {
        p as u32
    };
    let speed = match find(rest, "at ") {
        Some(i) => {
            proof {
                position_from_is_first(rest@, "at "@, 0);
                reveal_strlit("at ");
            }
            let n: usize = rest.unicode_len();
            assert(rest@.subrange(i + 3, n as int) == rest@.skip(i + 3));
            let tail = trim(rest.substring_char(i + 3, n));
            Some(trim(part_before(tail, " ETA")).to_owned())
        },
        None => None,
    };
    Some((progress, speed))
}

/// Reads the title from a line such as
/// `[info] Title Here: Downloading 1 format(s)`.
pub fn parse_title_line(line: &str) -> (r: Option<String>)
    ensures
        text_opt(r) == title_of(line@),
{
    let rest = match strip_prefix(line, "[info]") {
        Some(rest) => rest,
        None => match strip_prefix(line, "[Merger]") {
            Some(rest) => rest,
            None => {
                return None;
            },
        },
    };
    let title = trim(part_before(trim(rest), ":"));
    if title.is_empty() {
        None
    } else {
        Some(title.to_owned())
    }
}

/// `Path::file_stem`: the name of the file without its extension. Slashes
/// separate the parts of a path everywhere and backslashes on some systems, so
/// only what holds on all of them is claimed: an empty path has no stem, a stem
/// is a part of the path that is not empty and, unless the path begins with
/// the mark `\\?\` of a verbatim path, has no slash in it, and the name of the file is what
/// stands after the last slash, or after the last separator of either kind, if
/// a plain name stands there and the path does not begin with two separators.
#[verifier::external_body]
fn file_stem(path: &str) -> (r: Option<String>)
    ensures
        stem_allowed(path@, text_opt(r)),
{
    std::path::Path::new(path).file_stem().map(|s| s.to_string_lossy().to_string())
}

/// Takes the video id from the stem of a metadata file.
pub fn media_id_of_stem(stem: Option<&str>) -> (r: Option<String>)
    ensures
        text_opt(r) == id_of_stem(str_opt(stem)),
{
    let s = match stem {
        Some(s) => s,
        None => {
            return None;
        },
    };
    let n = s.unicode_len();
    proof {
        reveal_strlit(".info");
    }
    let mut id = s;
    if n >= 5 {
        assert(s@.subrange(n - 5, n as int) == s@.skip(n - 5));
        assert(s@.subrange(0, n - 5) == s@.take(n - 5));
        if crate::text::same(s.substring_char(n - 5, n), ".info") {
            id = s.substring_char(0, n - 5);
        }
    }
    let len = len_in_bytes(id);
    if len > 5 && len < 16 {
        Some(id.to_owned())
    } else {
        None
    }
}

/// The id is of the length of one, stands in the metadata line and, unless the
/// path in the line begins with the mark of a verbatim path, has no slash in it.
pub open spec fn id_in_line(line: Seq<char>, id: Seq<char>) -> bool {
    &&& metadata_mark().is_prefix_of(line)
    &&& 5 < byte_len(id) < 16
    &&& has_part(line, id)
    &&& !verbatim_path(trimmed(line.skip(metadata_mark().len() as int))) ==> !id.contains('/')
}

/// On every system a video id stands in the metadata line that it is read from.
pub proof fn media_id_stands_in_line(line: Seq<char>, id: Seq<char>)
    requires
        media_id_allowed(line, Some(id)),
    ensures
        id_in_line(line, id),
{
    let rest = line.skip(metadata_mark().len() as int);
    let path = trimmed(rest);
    let stem = choose|stem: Option<Seq<char>>| #[trigger]
        stem_allowed(path, stem) && Some(id) == id_of_stem(stem);
    let s = stem->0;
    assert(s.subrange(0, id.len() as int) =~= id);
    assert(occurs_at(s, id, 0));
    assert(line.subrange(metadata_mark().len() as int, line.len() as int) =~= rest);
    assert(occurs_at(line, rest, metadata_mark().len() as int));
    trimmed_is_part(rest);
    part_of_part(line, rest, path);
    part_of_part(line, path, s);
    part_of_part(line, s, id);
    if !verbatim_path(path) && id.contains('/') {
        let i = choose|i: int| 0 <= i < id.len() && id[i] == '/';
        assert(s[i] == '/');
    }
}

/// Reads the video id from a line such as
/// `[info] Writing video metadata as JSON to: /path/media/dQw4w9WgXcQ.info.json`.
pub fn parse_media_id_line(line: &str) -> (r: Option<String>)
    ensures
        media_id_allowed(line@, text_opt(r)),
        text_opt(r) matches Some(id) ==> id_in_line(line@, id),
{
    match strip_prefix(line, "[info] Writing video metadata as JSON to:") {
        Some(rest) => {
            let stem = file_stem(trim(rest));
            let ghost allowed = text_opt(stem);
            assert(stem_allowed(trimmed(rest@), allowed));
            let id = match stem {
                Some(s) => media_id_of_stem(Some(s.as_str())),
                None => media_id_of_stem(None),
            };
            assert(text_opt(id) == id_of_stem(allowed));
            assert(path_id_allowed(trimmed(rest@), text_opt(id)));
            proof {
                if id is Some {
                    media_id_stands_in_line(line@, id->0@);
                }
            }
            id
        },
        None => None,
    }
}

/// The changes in a list of updates.
pub open spec fn update_views(v: Seq<ItemUpdate>) -> Seq<UpdateView> {
    v.map_values(|u: ItemUpdate| u@)
}

/// The change that a title brings, if there is one.
pub open spec fn title_change(title: Option<Seq<char>>) -> Seq<UpdateView> {
    match title {
        Some(title) => seq![UpdateView::Title { title }],
        None => seq![],
    }
}

/// The change that a video id brings, if there is one.
pub open spec fn id_change(media_id: Option<Seq<char>>) -> Seq<UpdateView> {
    match media_id {
        Some(media_id) => seq![UpdateView::MediaId { media_id }],
        None => seq![],
    }
}

/// The message of an error line.
pub open spec fn error_message(line: Seq<char>) -> Seq<char> {
    match without_prefix(line, "[error]"@) {
        Some(rest) => trimmed(rest),
        None => match without_prefix(line, "ERROR:"@) {
            Some(rest) => trimmed(rest),
            None => trimmed(line),
        },
    }
}

/// The changes that one line brings to its download, in their order, where
/// `percent` is the number in the line and `media_id` the video id in it.
pub open spec fn changes_of(
    line: Seq<char>,
    percent: Option<i64>,
    media_id: Option<Seq<char>>,
) -> Seq<UpdateView> {
    if "[download]"@.is_prefix_of(line) {
        match progress_of(line, percent) {
            Some((progress, speed)) => seq![UpdateView::Progress { progress, speed }],
            None => if has_part(line, "Destination:"@) {
                seq![]
            } else if has_part(line, "100%"@) || has_part(line, "Download completed"@) {
                seq![UpdateView::Completed]
            } else {
                seq![]
            },
        }
    } else if "[info]"@.is_prefix_of(line) {
        title_change(title_of(line)) + id_change(media_id)
    } else if "[Merger]"@.is_prefix_of(line) {
        seq![UpdateView::Merging] + title_change(title_of(line))
    } else if "[error]"@.is_prefix_of(line) || "ERROR:"@.is_prefix_of(line) {
        seq![UpdateView::Failed { message: error_message(line) }]
    } else {
        seq![]
    }
}

/// Takes the message out of an error line.
fn error_text(line: &str) -> (r: String)
    ensures
        r@ == error_message(line@),
{
    let rest = match strip_prefix(line, "[error]") {
        Some(rest) => rest,
        None => match strip_prefix(line, "ERROR:") {
            Some(rest) => rest,
            None => line,
        },
    };
    trim(rest).to_owned()
}

/// Lists the changes that one line brings to its download. `percent` is what
/// the percentage of the line reads as (see `parse_progress_line`) and
/// `media_id` what `parse_media_id_line` makes of the line.
pub fn line_changes(line: &str, percent: Option<i64>, media_id: Option<String>) -> (r: Vec<
    ItemUpdate,
>)
    ensures
        update_views(r@) == changes_of(line@, percent, text_opt(media_id)),
{
    let mut r: Vec<ItemUpdate> = Vec::new();
    if starts_with(line, "[download]") {
        match parse_progress_line(line, percent) {
            Some((progress, speed)) => {
                r.push(ItemUpdate::Progress { progress, speed });
            },
            None => {
                if contains(line, "Destination:") {
                } else if contains(line, "100%") || contains(line, "Download completed") {
                    r.push(ItemUpdate::Completed);
                }
            },
        }
    } else if starts_with(line, "[info]") {
        match parse_title_line(line) {
            Some(title) => {
                r.push(ItemUpdate::Title { title });
            },
            None => {},
        }
        match media_id {
            Some(media_id) => {
                r.push(ItemUpdate::MediaId { media_id });
            },
            None => {},
        }
    } else if starts_with(line, "[Merger]") {
        r.push(ItemUpdate::Merging);
        match parse_title_line(line) {
            Some(title) => {
                r.push(ItemUpdate::Title { title });
            },
            None => {},
        }
    } else if starts_with(line, "[error]") || starts_with(line, "ERROR:") {
        r.push(ItemUpdate::Failed { message: error_text(line) });
    }
    assert(update_views(r@) =~= changes_of(line@, percent, text_opt(media_id)));
    r
}

/// Id and title of a video, in the text that a look-up printed: the id, a tab
/// and the title. An id of less than five bytes is none.
pub open spec fn metadata_in(text: Seq<char>) -> Option<(Seq<char>, Seq<char>)> {
    let t = trimmed(text);
    match position(t, "\t"@) {
        Some(i) => if byte_len(t.take(i)) < 5 {
            None
        } else {
            Some((t.take(i), t.skip(i + 1)))
        },
        None => None,
    }
}

/// The contents of a pair of strings.
pub open spec fn pair_opt(o: Option<(String, String)>) -> Option<(Seq<char>, Seq<char>)> {
    match o {
        Some((a, b)) => Some((a@, b@)),
        None => None,
    }
}

/// Reads id and title of a video from the text that a look-up printed.
pub fn parse_metadata(text: &str) -> (r: Option<(String, String)>)
    ensures
        pair_opt(r) == metadata_in(text@),
{
    let t = trim(text);
    match find(t, "\t") {
        Some(i) => {
            proof {
                position_from_is_first(t@, "\t"@, 0);
                reveal_strlit("\t");
            }
            let n: usize = t.unicode_len();
            assert(t@.subrange(0, i as int) == t@.take(i as int));
            assert(t@.subrange(i + 1, n as int) == t@.skip(i + 1));
            let first = t.substring_char(0, i);
            if len_in_bytes(first) < 5 {
                None
            } else {
                Some((first.to_owned(), t.substring_char(i + 1, n).to_owned()))
            }
        },
        None => None,
    }
}

/// What a look-up that printed a text tells; a failed one tells nothing.
pub open spec fn look_up_result(success: bool, text: Seq<char>) -> Option<
    (Seq<char>, Seq<char>),
> {
    if success {
        metadata_in(text)
    } else {
        None
    }
}

/// Reads id and title of a video from what a look-up printed; a failed look-up
/// tells nothing.
pub fn fetch_metadata(success: bool, stdout: &[u8]) -> (r: Option<(String, String)>)
    ensures
        pair_opt(r) == look_up_result(success, lossy_utf8(stdout@)),
{
    if success {
        let text = lossy_text(stdout);
        parse_metadata(text.as_str())
    } else {
        None
    }
}

/// No line sets a progress outside the range, marks a start as failed, cancels,
/// settles or looks up a download.
pub proof fn line_changes_are_reports(
    line: Seq<char>,
    percent: Option<i64>,
    media_id: Option<Seq<char>>,
    k: int,
)
    requires
        0 <= k < changes_of(line, percent, media_id).len(),
    ensures
        ({
            let u = changes_of(line, percent, media_id)[k];
            &&& change_in_range(u)
            &&& u is Progress || u is Completed || u is Title || u is MediaId || u is Merging
                || u is Failed
        }),
{
}

/// A line that does not begin with one of the known tags changes nothing.
pub proof fn other_lines_change_nothing(
    line: Seq<char>,
    percent: Option<i64>,
    media_id: Option<Seq<char>>,
)
    requires
        !"[download]"@.is_prefix_of(line),
        !"[info]"@.is_prefix_of(line),
        !"[Merger]"@.is_prefix_of(line),
        !"[error]"@.is_prefix_of(line),
        !"ERROR:"@.is_prefix_of(line),
    ensures
        changes_of(line, percent, media_id).len() == 0,
{
}

/// On every system the metadata file `{id}.info.json` in the directory `dir`
/// gives the id, if the id has the length of one and is fit for the name of a
/// file.
pub proof fn media_id_is_read(line: Seq<char>, dir: Seq<char>, id: Seq<char>, r: Option<Seq<char>>)
    requires
        line == metadata_mark() + " "@ + dir + "/"@ + id + ".info.json"@,
        !is_whitespace((dir + "/"@).first()),
        !network_path(dir + "/"@),
        5 < byte_len(id) < 16,
        forall|i: int|
            0 <= i < id.len() ==> !is_separator(#[trigger] id[i]) && id[i] != ':' && id[i]
                != '\0',
        media_id_allowed(line, r),
    ensures
        r == Some(id),
{
    reveal_strlit(" ");
    reveal_strlit("/");
    reveal_strlit(".info");
    reveal_strlit(".info.json");
    let name = id + ".info.json"@;
    let path = dir + "/"@ + name;
    let rest = " "@ + path;
    assert(line =~= metadata_mark() + rest);
    assert(line.take(metadata_mark().len() as int) =~= metadata_mark());
    assert(metadata_mark().is_prefix_of(line));
    assert(line.skip(metadata_mark().len() as int) =~= rest);
    assert(trimmed(rest) == path) by {
        assert(rest.first() == ' ');
        assert(rest.drop_first() =~= path);
        assert(path.first() == (dir + "/"@).first());
        assert(trim_start(rest) == trim_start(path));
        assert(trim_start(path) == path);
        assert(path.last() == 'n');
    }
    assert(file_part(path) == name && last_part(path) == name) by {
        after_last_of_join(dir, '/', name);
        assert(path =~= dir.push('/') + name);
        assert(path.skip((dir.len() + 1) as int) =~= name);
        after_last_in_front(dir.push('/'), '\\', name);
    }
    assert(stem_of(name) == id + ".info"@) by {
        let a = id + seq!['.', 'i', 'n', 'f', 'o'];
        let b = seq!['j', 's', 'o', 'n'];
        after_last_of_join(a, '.', b);
        assert(name =~= a.push('.') + b);
        assert(name.take(a.len() as int) =~= id + ".info"@);
    }
    assert(plain_name(name)) by {
        reveal_strlit(".");
        reveal_strlit("..");
        assert(name.len() >= 10);
    }
    assert(!network_path(path)) by {
        if dir.len() == 0 {
            assert(path[1] == name[0]);
        } else {
            assert((dir + "/"@)[0] == path[0]);
            assert((dir + "/"@)[1] == path[1]);
        }
    }
    assert(id_of_stem(Some(id + ".info"@)) == Some(id)) by {
        let s = id + ".info"@;
        assert(s.skip(s.len() - 5) =~= ".info"@);
        assert(s.subrange(s.len() - 5, s.len() as int) =~= ".info"@);
        assert(".info"@.is_suffix_of(s));
        assert(s.take(s.len() - 5) =~= id);
    }
}

proof fn after_last_of_join(a: Seq<char>, c: char, b: Seq<char>)
    requires
        forall|i: int| 0 <= i < b.len() ==> #[trigger] b[i] != c,
    ensures
        after_last(a.push(c) + b, c) == a.len() + 1,
    decreases b.len(),
{
    let s = a.push(c) + b;
    if b.len() == 0 {
        assert(s =~= a.push(c));
    } else {
        assert(s.drop_last() =~= a.push(c) + b.drop_last());
        after_last_of_join(a, c, b.drop_last());
    }
}

/// Where a character is not in the second of two joined texts, the position
/// after its last occurrence lies in the first.
pub proof fn after_last_in_front(a: Seq<char>, c: char, b: Seq<char>)
    requires
        forall|i: int| 0 <= i < b.len() ==> #[trigger] b[i] != c,
    ensures
        after_last(a + b, c) <= a.len(),
    decreases a.len() + b.len(),
{
    let s = a + b;
    if b.len() > 0 {
        assert(s.drop_last() =~= a + b.drop_last());
        after_last_in_front(a, c, b.drop_last());
    } else if a.len() > 0 {
        assert(s =~= a);
        assert(s.drop_last() =~= a.drop_last() + b);
        after_last_in_front(a.drop_last(), c, b);
    }
}

/// The position after the last occurrence of a character is one in the text.
pub proof fn after_last_is_not_negative(s: Seq<char>, c: char)
    ensures
        0 <= after_last(s, c) <= s.len(),
    decreases s.len(),
{
    if s.len() > 0 {
        after_last_is_not_negative(s.drop_last(), c);
    }
}

/// What follows the tag of a download line is read without the whitespace
/// around it, whatever whitespace is around the line.
pub proof fn download_line_is_read(a: Seq<char>, gap: Seq<char>, rest: Seq<char>, b: Seq<char>)
    requires
        blank(a),
        blank(gap),
        blank(b),
        tight(rest),
    ensures
        download_rest(a + "[download]"@ + gap + rest + b) == Some(rest),
{
    let tag = "[download]"@;
    let none = Seq::<char>::empty();
    let line = a + tag + gap + rest + b;
    reveal_strlit("[download]");
    if rest.len() > 0 {
        let t = tag + gap + rest;
        assert(line =~= a + t + b);
        trimmed_between_blanks(a, t, b);
        assert(t =~= tag + (gap + rest));
        rest_of_joined(tag, gap + rest);
        assert(gap + rest =~= gap + rest + none);
        trimmed_between_blanks(gap, rest, none);
    } else {
        let w = gap + b;
        assert(blank(w)) by {
            assert forall|i: int| 0 <= i < w.len() implies is_whitespace(#[trigger] w[i]) by {
                if i < gap.len() {
                    assert(w[i] == gap[i]);
                } else {
                    assert(w[i] == b[i - gap.len()]);
                }
            }
        }
        assert(line =~= a + tag + w);
        trimmed_between_blanks(a, tag, w);
        assert(tag =~= tag + none);
        rest_of_joined(tag, none);
        trimmed_between_blanks(none, none, none);
        assert(none + none + none =~= none);
        assert(rest =~= none);
    }
}

/// The percentage of a download line is what stands before the percent sign,
/// and its progress is the number that it reads as, brought between nothing and
/// one hundred percent; without a number there is no progress.
pub proof fn percentage_is_read(
    a: Seq<char>,
    gap: Seq<char>,
    pct: Seq<char>,
    more: Seq<char>,
    b: Seq<char>,
    p: i64,
)
    requires
        blank(a),
        blank(gap),
        blank(b),
        tight(pct + "%"@ + more),
        !pct.contains('%'),
    ensures
        ({
            let line = a + "[download]"@ + gap + (pct + "%"@ + more) + b;
            let read = progress_of(line, Some(p));
            &&& percent_field(line) == Some(trimmed(pct))
            &&& progress_of(line, None) is None
            &&& read is Some
            &&& 0 <= p <= 10000 ==> (read->0).0 == p
            &&& p < 0 ==> (read->0).0 == 0
            &&& p > 10000 ==> (read->0).0 == 10000
            &&& (read->0).1 == speed_field(pct + "%"@ + more)
        }),
{
    download_line_is_read(a, gap, pct + "%"@ + more, b);
    reveal_strlit("%");
    assert("%"@ =~= seq!['%']);
    before_a_character(pct, '%', more);
}

/// A line that is no download line, apart from whitespace around it, has neither
/// percentage nor progress.
pub proof fn other_lines_have_no_progress(line: Seq<char>, percent: Option<i64>)
    requires
        forall|rest: Seq<char>| trimmed(line) != #[trigger] ("[download]"@ + rest),
    ensures
        percent_field(line) is None,
        progress_of(line, percent) is None,
{
    prefix_and_rest(trimmed(line), "[download]"@);
}

/// The speed of a download stands between the first "at" and the first "ETA"
/// behind it.
pub proof fn speed_is_read_before_eta(
    head: Seq<char>,
    gap: Seq<char>,
    speed: Seq<char>,
    gap2: Seq<char>,
    more: Seq<char>,
)
    requires
        blank(gap),
        blank(gap2),
        tight(speed),
        speed.len() > 0,
        tight(head + "at "@ + (gap + (speed + gap2 + " ETA"@ + more))),
        forall|i: int|
            0 <= i < head.len() ==> !occurs_at(
                head + "at "@ + (gap + (speed + gap2 + " ETA"@ + more)),
                "at "@,
                i,
            ),
        forall|i: int|
            0 <= i < speed.len() + gap2.len() ==> !occurs_at(
                speed + gap2 + " ETA"@ + more,
                " ETA"@,
                i,
            ),
    ensures
        speed_field(head + "at "@ + (gap + (speed + gap2 + " ETA"@ + more))) == Some(speed),
{
    let t = speed + gap2 + " ETA"@ + more;
    let rest = head + "at "@ + (gap + t);
    speed_behind_mark(head, gap + t);
    assert(!is_whitespace(t.last())) by {
        reveal_strlit(" ETA");
        assert(t.last() == rest.last());
    }
    text_before_eta(gap, speed, gap2, more);
}

proof fn speed_behind_mark(head: Seq<char>, tail: Seq<char>)
    requires
        forall|i: int| 0 <= i < head.len() ==> !occurs_at(head + "at "@ + tail, "at "@, i),
    ensures
        speed_field(head + "at "@ + tail) == Some(
            trimmed(before(trimmed(tail), " ETA"@)),
        ),
{
    let rest = head + "at "@ + tail;
    first_is_found(head, "at "@, tail);
    assert(rest.skip(head.len() as int + 3) =~= tail) by {
        reveal_strlit("at ");
    }
}

proof fn text_before_eta(gap: Seq<char>, speed: Seq<char>, gap2: Seq<char>, more: Seq<char>)
    requires
        blank(gap),
        blank(gap2),
        tight(speed),
        speed.len() > 0,
        !is_whitespace((speed + gap2 + " ETA"@ + more).last()),
        forall|i: int|
            0 <= i < speed.len() + gap2.len() ==> !occurs_at(
                speed + gap2 + " ETA"@ + more,
                " ETA"@,
                i,
            ),
    ensures
        trimmed(before(trimmed(gap + (speed + gap2 + " ETA"@ + more)), " ETA"@)) == speed,
{
    let none = Seq::<char>::empty();
    let front = speed + gap2;
    let t = front + " ETA"@ + more;
    assert(t.first() == speed.first());
    assert(gap + t =~= gap + t + none);
    trimmed_between_blanks(gap, t, none);
    first_is_found(front, " ETA"@, more);
    assert(t.take(front.len() as int) =~= front);
    assert(front =~= none + speed + gap2);
    trimmed_between_blanks(none, speed, gap2);
}

/// Without an "ETA" the speed is all that stands behind the first "at".
pub proof fn speed_is_read_to_the_end(head: Seq<char>, gap: Seq<char>, speed: Seq<char>)
    requires
        blank(gap),
        tight(speed),
        forall|i: int|
            0 <= i < head.len() ==> !occurs_at(head + "at "@ + (gap + speed), "at "@, i),
        !has_part(speed, " ETA"@),
    ensures
        speed_field(head + "at "@ + (gap + speed)) == Some(speed),
{
    let none = Seq::<char>::empty();
    speed_behind_mark(head, gap + speed);
    assert(gap + speed =~= gap + speed + none);
    trimmed_between_blanks(gap, speed, none);
    position_iff_part(speed, " ETA"@);
    assert(speed =~= none + speed + none);
    trimmed_between_blanks(none, speed, none);
}

/// Without an "at" there is no speed.
pub proof fn speed_needs_its_mark(rest: Seq<char>)
    requires
        !has_part(rest, "at "@),
    ensures
        speed_field(rest) is None,
{
    position_iff_part(rest, "at "@);
}

proof fn first_is_found(head: Seq<char>, p: Seq<char>, tail: Seq<char>)
    requires
        forall|i: int| 0 <= i < head.len() ==> !occurs_at(head + p + tail, p, i),
    ensures
        position(head + p + tail, p) == Some(head.len() as int),
{
    let s = head + p + tail;
    position_from_is_first(s, p, 0);
    assert(s.subrange(head.len() as int, (head.len() + p.len()) as int) =~= p);
    assert(occurs_at(s, p, head.len() as int));
}

/// The title of an information or merger line is what stands between the tag
/// and the first colon, or the end, without the whitespace around it; where
/// nothing stands there, there is none.
pub proof fn title_is_read(
    tag: Seq<char>,
    a: Seq<char>,
    title: Seq<char>,
    b: Seq<char>,
    more: Seq<char>,
)
    requires
        tag == "[info]"@ || tag == "[Merger]"@,
        blank(a),
        blank(b),
        tight(title),
        !title.contains(':'),
    ensures
        title.len() > 0 ==> title_of(tag + (a + title + b + ":"@ + more)) == Some(title),
        title.len() > 0 ==> title_of(tag + (a + title + b)) == Some(title),
        title.len() == 0 ==> title_of(tag + (a + title + b + ":"@ + more)) is None,
        title.len() == 0 ==> title_of(tag + (a + title + b)) is None,
{
    reveal_strlit(":");
    assert(":"@ =~= seq![':']);
    let none = Seq::<char>::empty();
    let w = if title.len() > 0 {
        a
    } else {
        a + b
    };
    let front = if title.len() > 0 {
        title + b
    } else {
        none
    };
    assert(blank(w)) by {
        assert forall|i: int| 0 <= i < w.len() implies is_whitespace(#[trigger] w[i]) by {
            if i < a.len() {
                assert(w[i] == a[i]);
            } else {
                assert(w[i] == b[i - a.len()]);
            }
        }
    }
    assert(!front.contains(':')) by {
        if front.contains(':') {
            let i = choose|i: int| 0 <= i < front.len() && front[i] == ':';
            if i < title.len() {
                assert(title[i] == ':');
            } else {
                assert(b[i - title.len()] == ':');
            }
        }
    }
    assert(trimmed(front) == title) by {
        assert(title.len() == 0 ==> title =~= none);
        if title.len() > 0 {
            assert(front =~= none + title + b);
            trimmed_between_blanks(none, title, b);
        } else {
            assert(front =~= none + none + none);
            trimmed_between_blanks(none, none, none);
        }
    }
    let with_colon = a + title + b + ":"@ + more;
    let without = a + title + b;
    tag_is_cut_off(tag, with_colon);
    tag_is_cut_off(tag, without);
    let core = front + ":"@;
    assert(with_colon =~= w + core + more);
    trimmed_front(w, core, more);
    let kept = choose|kept: Seq<char>| trimmed(w + core + more) == #[trigger] (core + kept);
    assert(trimmed(with_colon) == front + seq![':'] + kept);
    before_a_character(front, ':', kept);
    assert(trimmed(without) == title) by {
        trimmed_between_blanks(a, title, b);
    }
    before_a_character(title, ':', none);
    assert(title =~= none + title + none);
    trimmed_between_blanks(none, title, none);
}

proof fn tag_is_cut_off(tag: Seq<char>, rest: Seq<char>)
    requires
        tag == "[info]"@ || tag == "[Merger]"@,
    ensures
        title_of(tag + rest) == ({
            let title = trimmed(before(trimmed(rest), ":"@));
            if title.len() == 0 {
                None
            } else {
                Some(title)
            }
        }),
{
    rest_of_joined(tag, rest);
    reveal_strlit("[info]");
    reveal_strlit("[Merger]");
    if tag == "[Merger]"@ {
        assert((tag + rest)[1] == 'M');
        assert(!"[info]"@.is_prefix_of(tag + rest)) by {
            if "[info]"@.is_prefix_of(tag + rest) {
                assert((tag + rest).subrange(0, 6)[1] == "[info]"@[1]);
            }
        }
    }
}

/// Trimming cuts nothing off text that begins and ends without whitespace, but
/// for what comes before it and at the end of what comes after.
proof fn trimmed_front(a: Seq<char>, core: Seq<char>, more: Seq<char>)
    requires
        blank(a),
        core.len() > 0,
        !is_whitespace(core.first()),
        !is_whitespace(core.last()),
    ensures
        exists|kept: Seq<char>| trimmed(a + core + more) == #[trigger] (core + kept),
{
    let none = Seq::<char>::empty();
    trimmed_with_blanks_around(more);
    let (x, y) = choose|x: Seq<char>, y: Seq<char>|
        more == #[trigger] (x + trimmed(more) + y) && blank(x) && blank(y);
    let m = trimmed(more);
    if m.len() > 0 {
        let t = core + (x + m);
        assert(a + core + more =~= a + t + y);
        trimmed_between_blanks(a, t, y);
    } else {
        assert(blank(more)) by {
            assert forall|i: int| 0 <= i < more.len() implies is_whitespace(#[trigger] more[i]) by {
                if i < x.len() {
                    assert(more[i] == x[i]);
                } else {
                    assert(more[i] == y[i - x.len()]);
                }
            }
        }
        trimmed_between_blanks(a, core, more);
        assert(core =~= core + none);
    }
}

/// A line that begins with neither tag has no title.
pub proof fn other_lines_have_no_title(line: Seq<char>)
    requires
        forall|rest: Seq<char>| line != #[trigger] ("[info]"@ + rest),
        forall|rest: Seq<char>| line != #[trigger] ("[Merger]"@ + rest),
    ensures
        title_of(line) is None,
{
    prefix_and_rest(line, "[info]"@);
    prefix_and_rest(line, "[Merger]"@);
}

/// A download line with a progress reports just that. One without reports the
/// end of the download if it says so and names no destination, and nothing
/// otherwise.
pub proof fn download_lines_report_progress(
    rest: Seq<char>,
    percent: Option<i64>,
    media_id: Option<Seq<char>>,
)
    ensures
        ({
            let line = "[download]"@ + rest;
            let us = changes_of(line, percent, media_id);
            let ended = has_part(line, "100%"@) || has_part(line, "Download completed"@);
            &&& progress_of(line, percent) matches Some((progress, speed)) ==> us == seq![
                UpdateView::Progress { progress, speed },
            ]
            &&& progress_of(line, percent) is None ==> {
                &&& has_part(line, "Destination:"@) ==> us.len() == 0
                &&& !has_part(line, "Destination:"@) && ended ==> us == seq![
                    UpdateView::Completed,
                ]
                &&& !has_part(line, "Destination:"@) && !ended ==> us.len() == 0
            }
        }),
{
    rest_of_joined("[download]"@, rest);
}

/// An information line reports the title and then the video id, a merger line
/// that the streams are joined and then the title, each where it has one, and
/// nothing else.
pub proof fn tagged_lines_report_titles(
    rest: Seq<char>,
    percent: Option<i64>,
    media_id: Option<Seq<char>>,
)
    ensures
        ({
            let line = "[info]"@ + rest;
            let us = changes_of(line, percent, media_id);
            &&& title_of(line) matches Some(title) ==> (media_id matches Some(media_id) ==> us
                == seq![UpdateView::Title { title }, UpdateView::MediaId { media_id }])
            &&& title_of(line) matches Some(title) ==> (media_id is None ==> us == seq![
                UpdateView::Title { title },
            ])
            &&& title_of(line) is None ==> (media_id matches Some(media_id) ==> us == seq![
                UpdateView::MediaId { media_id },
            ])
            &&& title_of(line) is None && media_id is None ==> us.len() == 0
        }),
        ({
            let line = "[Merger]"@ + rest;
            let us = changes_of(line, percent, media_id);
            &&& title_of(line) matches Some(title) ==> us == seq![
                UpdateView::Merging,
                UpdateView::Title { title },
            ]
            &&& title_of(line) is None ==> us == seq![UpdateView::Merging]
        }),
{
    rest_of_joined("[info]"@, rest);
    rest_of_joined("[Merger]"@, rest);
    tags_differ("[info]"@, rest);
    tags_differ("[Merger]"@, rest);
    let i = "[info]"@ + rest;
    let m = "[Merger]"@ + rest;
    match (title_of(i), media_id) {
        (Some(title), Some(media_id)) => {
            assert(changes_of(i, percent, Some(media_id)) =~= seq![
                UpdateView::Title { title },
                UpdateView::MediaId { media_id },
            ]);
        },
        (Some(title), None) => {
            assert(changes_of(i, percent, media_id) =~= seq![UpdateView::Title { title }]);
        },
        (None, Some(media_id)) => {
            assert(changes_of(i, percent, Some(media_id)) =~= seq![
                UpdateView::MediaId { media_id },
            ]);
        },
        (None, None) => {},
    }
    match title_of(m) {
        Some(title) => {
            assert(changes_of(m, percent, media_id) =~= seq![
                UpdateView::Merging,
                UpdateView::Title { title },
            ]);
        },
        None => {
            assert(changes_of(m, percent, media_id) =~= seq![UpdateView::Merging]);
        },
    }
}

/// An error line reports an error, with what follows its tag, without the
/// whitespace around it, as the message.
pub proof fn error_lines_report_their_message(
    a: Seq<char>,
    message: Seq<char>,
    b: Seq<char>,
    percent: Option<i64>,
    media_id: Option<Seq<char>>,
)
    requires
        blank(a),
        tight(message),
        blank(b),
    ensures
        changes_of("ERROR:"@ + (a + message + b), percent, media_id) == seq![
            UpdateView::Failed { message },
        ],
        changes_of("[error]"@ + (a + message + b), percent, media_id) == seq![
            UpdateView::Failed { message },
        ],
{
    let rest = a + message + b;
    trimmed_between_blanks(a, message, b);
    rest_of_joined("ERROR:"@, rest);
    rest_of_joined("[error]"@, rest);
    tags_differ("ERROR:"@, rest);
    tags_differ("[error]"@, rest);
}

proof fn tags_differ(tag: Seq<char>, rest: Seq<char>)
    requires
        tag == "[info]"@ || tag == "[Merger]"@ || tag == "[error]"@ || tag == "ERROR:"@,
    ensures
        "[info]"@ != "[Merger]"@ && "[info]"@ != "[error]"@ && "[info]"@ != "ERROR:"@,
        "[Merger]"@ != "[error]"@ && "[Merger]"@ != "ERROR:"@ && "[error]"@ != "ERROR:"@,
        !"[download]"@.is_prefix_of(tag + rest),
        tag != "[info]"@ ==> !"[info]"@.is_prefix_of(tag + rest),
        tag != "[Merger]"@ ==> !"[Merger]"@.is_prefix_of(tag + rest),
        tag != "[error]"@ ==> !"[error]"@.is_prefix_of(tag + rest),
{
    reveal_strlit("[download]");
    reveal_strlit("[info]");
    reveal_strlit("[Merger]");
    reveal_strlit("[error]");
    reveal_strlit("ERROR:");
    assert("[info]"@[1] == 'i' && "[Merger]"@[1] == 'M' && "[error]"@[1] == 'e' && "ERROR:"@[1]
        == 'R');
    let line = tag + rest;
    assert(line[0] == tag[0] && line[1] == tag[1]);
    if "[download]"@.is_prefix_of(line) {
        assert(line.subrange(0, 10)[1] == "[download]"@[1]);
    }
    if "[info]"@.is_prefix_of(line) {
        assert(line.subrange(0, 6)[1] == "[info]"@[1]);
    }
    if "[Merger]"@.is_prefix_of(line) {
        assert(line.subrange(0, 8)[1] == "[Merger]"@[1]);
    }
    if "[error]"@.is_prefix_of(line) {
        assert(line.subrange(0, 7)[1] == "[error]"@[1]);
    }
}

/// A look-up that prints an id of at least five bytes, a tab and a title, with
/// any whitespace around them, gives exactly that id and that title, whatever
/// stands in the title; one with a shorter id, or without a tab, gives nothing.
pub proof fn looked_up_id_and_title_are_read(
    a: Seq<char>,
    id: Seq<char>,
    title: Seq<char>,
    b: Seq<char>,
)
    requires
        blank(a),
        blank(b),
        !id.contains('\t'),
    ensures
        tight(id + "\t"@ + title) && byte_len(id) >= 5 ==> metadata_in(
            a + (id + "\t"@ + title) + b,
        ) == Some((id, title)),
        tight(id + "\t"@ + title) && byte_len(id) < 5 ==> metadata_in(
            a + (id + "\t"@ + title) + b,
        ) is None,
        tight(id) ==> metadata_in(a + id + b) is None,
{
    let t = id + "\t"@ + title;
    reveal_strlit("\t");
    assert("\t"@ =~= seq!['\t']);
    before_a_character(id, '\t', title);
    assert(t.take(id.len() as int) =~= id);
    assert(t.skip(id.len() as int + 1) =~= title);
    if tight(t) {
        trimmed_between_blanks(a, t, b);
    }
    if tight(id) {
        trimmed_between_blanks(a, id, b);
    }
}

/// The video id is the stem of the metadata file, without the ending ".info"
/// where it has it, if that is of six to fifteen bytes.
pub proof fn id_is_the_stem(id: Seq<char>)
    ensures
        6 <= byte_len(id) <= 15 ==> id_of_stem(Some(id + ".info"@)) == Some(id),
        !(6 <= byte_len(id) <= 15) ==> id_of_stem(Some(id + ".info"@)) is None,
        (forall|x: Seq<char>| id != #[trigger] (x + ".info"@)) ==> {
            &&& 6 <= byte_len(id) <= 15 ==> id_of_stem(Some(id)) == Some(id)
            &&& !(6 <= byte_len(id) <= 15) ==> id_of_stem(Some(id)) is None
        },
        id_of_stem(None) is None,
{
    let s = id + ".info"@;
    let n = ".info"@.len() as int;
    assert(s.subrange(s.len() - n, s.len() as int) =~= ".info"@);
    assert(".info"@.is_suffix_of(s));
    assert(s.take(s.len() - n) =~= id);
    if ".info"@.is_suffix_of(id) {
        assert(id =~= id.take(id.len() - n) + ".info"@);
    }
}

/// A failed look-up tells nothing, whatever it printed; one that succeeded
/// tells what it printed.
pub proof fn failed_look_ups_tell_nothing(text: Seq<char>)
    ensures
        look_up_result(false, text) is None,
        look_up_result(true, text) == metadata_in(text),
{
}

/// Only a line that says where the metadata of a video was written has a video
/// id.
pub proof fn metadata_lines_alone_have_ids(line: Seq<char>, id: Option<Seq<char>>)
    requires
        media_id_allowed(line, id),
        forall|rest: Seq<char>|
            line != #[trigger] ("[info] Writing video metadata as JSON to:"@ + rest),
    ensures
        id is None,
{
    prefix_and_rest(line, "[info] Writing video metadata as JSON to:"@);
}

/// A metadata line has what the path of its file allows, whatever whitespace is
/// around the path.
pub proof fn metadata_lines_have_the_id_of_their_path(
    a: Seq<char>,
    path: Seq<char>,
    b: Seq<char>,
    id: Option<Seq<char>>,
)
    requires
        blank(a),
        tight(path),
        blank(b),
        media_id_allowed("[info] Writing video metadata as JSON to:"@ + (a + path + b), id),
    ensures
        exists|stem: Option<Seq<char>>| #[trigger]
            stem_allowed(path, stem) && id == id_of_stem(stem),
{
    rest_of_joined("[info] Writing video metadata as JSON to:"@, a + path + b);
    trimmed_between_blanks(a, path, b);
}

} // verus!
