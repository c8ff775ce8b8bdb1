//! The thumbnails of videos.
use crate::history::{is_media_of, EntryView};
use crate::text::{cat3, texts};
use vstd::prelude::*;

verus! {

/// The names that the thumbnail of a video can have, in the order in which
/// they are looked for.
pub open spec fn thumbnails_of(id: Seq<char>) -> Seq<Seq<char>> {
    seq![
        id + "."@ + "jpg"@,
        id + "."@ + "jpeg"@,
        id + "."@ + "png"@,
        id + "."@ + "webp"@,
    ]
}

/// The first position at which something was found.
pub open spec fn first_found(found: Seq<bool>, i: int) -> Option<int>
    decreases found.len() - i,
{
    if i < 0 || i >= found.len() {
        None
    } else if found[i] {
        Some(i)
    } else {
        first_found(found, i + 1)
    }
}

/// The first position from `i` on that is found holds something, and none
/// before it does.
pub proof fn first_found_is_first(found: Seq<bool>, i: int)
    requires
        0 <= i,
    ensures
        match first_found(found, i) {
            Some(k) => i <= k < found.len() && found[k] && forall|j: int|
                i <= j < k ==> !(#[trigger] found[j]),
            None => forall|j: int| i <= j < found.len() ==> !(#[trigger] found[j]),
        },
    decreases found.len() - i,
{
    if i < found.len() && !found[i] {
        first_found_is_first(found, i + 1);
    }
}

/// Whatever name the thumbnail of a video has, it counts as its media file,
/// and so is removed with the others.
pub proof fn thumbnails_are_media(id: Seq<char>, k: int)
    requires
        0 <= k < 4,
    ensures
        is_media_of(EntryView { name: thumbnails_of(id)[k], is_file: true }, id),
{
    let name = thumbnails_of(id)[k];
    assert(name.take((id + "."@).len() as int) =~= id + "."@);
    assert((id + "."@).is_prefix_of(name));
}

/// Lists the names that the thumbnail of a video can have, in the order in
/// which they are looked for.
pub fn thumbnail_names(id: &str) -> (r: Vec<String>)
    ensures
        texts(r@) == thumbnails_of(id@),
{
    let mut r: Vec<String> = Vec::new();
    r.push(cat3(id, ".", "jpg"));
    r.push(cat3(id, ".", "jpeg"));
    r.push(cat3(id, ".", "png"));
    r.push(cat3(id, ".", "webp"));
    assert(texts(r@) =~= thumbnails_of(id@));
    r
}

/// Finds the first position at which something was found.
pub fn first_existing(found: &Vec<bool>) -> (r: Option<usize>)
    ensures
        match r {
            Some(k) => first_found(found@, 0) == Some(k as int),
            None => first_found(found@, 0) is None,
        },
{
    let mut i: usize = 0;
    while i < found.len()
        invariant
            i <= found@.len(),
            first_found(found@, 0) == first_found(found@, i as int),
        decreases found@.len() - i,
    {
        if found[i] {
            return Some(i);
        }
        i += 1;
    }
    None
}

/// The file of the thumbnail to show, if there is one.
pub open spec fn chosen_thumbnail(id: Seq<char>, found: Seq<bool>) -> Option<Seq<char>> {
    match first_found(found, 0) {
        Some(k) => Some(thumbnails_of(id)[k]),
        None => None,
    }
}

/// Chooses the file of the thumbnail to show, where `found` tells which of the files of
/// `thumbnail_names` are there.
pub fn thumbnail_for(id: &str, found: &Vec<bool>) -> (r: Result<String, String>)
    requires
        found@.len() == 4,
    ensures
        match r {
            Ok(name) => chosen_thumbnail(id@, found@) == Some(name@),
            Err(e) => chosen_thumbnail(id@, found@) is None && e@ == "no thumbnail"@,
        },
{
    proof {
        first_found_is_first(found@, 0);
    }
    let names = thumbnail_names(id);
    match first_existing(found) {
        Some(k) => {
            assert(texts(names@).len() == 4);
            assert(texts(names@)[k as int] == names@[k as int]@);
            Ok(names[k].clone())
        },
        None => Err("no thumbnail".to_owned()),
    }
}

/// The thumbnail of a video is looked for under its id with four endings, in
/// this order.
pub proof fn thumbnails_have_these_endings(id: Seq<char>)
    ensures
        thumbnails_of(id).len() == 4,
        thumbnails_of(id)[0] == id + ".jpg"@,
        thumbnails_of(id)[1] == id + ".jpeg"@,
        thumbnails_of(id)[2] == id + ".png"@,
        thumbnails_of(id)[3] == id + ".webp"@,
{
    reveal_strlit(".");
    reveal_strlit("jpg");
    reveal_strlit("jpeg");
    reveal_strlit("png");
    reveal_strlit("webp");
    reveal_strlit(".jpg");
    reveal_strlit(".jpeg");
    reveal_strlit(".png");
    reveal_strlit(".webp");
    let t = thumbnails_of(id);
    assert(t[0] =~= id + ".jpg"@);
    assert(t[1] =~= id + ".jpeg"@);
    assert(t[2] =~= id + ".png"@);
    assert(t[3] =~= id + ".webp"@);
}

/// The first thumbnail that is there is shown, and none exactly where none is
/// there.
pub proof fn first_thumbnail_is_shown(id: Seq<char>, found: Seq<bool>, k: int)
    requires
        found.len() == 4,
    ensures
        0 <= k < 4 && found[k] && (forall|j: int| 0 <= j < k ==> !(#[trigger] found[j]))
            ==> chosen_thumbnail(id, found) == Some(thumbnails_of(id)[k]),
        (forall|j: int| 0 <= j < 4 ==> !(#[trigger] found[j])) <==> chosen_thumbnail(id, found) is None,
{
    first_found_is_first(found, 0);
}

} // verus!
