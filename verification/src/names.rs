//! File and directory names that Windows accepts.
use crate::platform::{Os, Platform};
use crate::text::chars_of;
use vstd::prelude::*;

verus! {

/// The characters that Windows forbids in file names.
pub open spec fn forbidden_in_name(c: char) -> bool {
    c == '<' || c == '>' || c == ':' || c == '"' || c == '/' || c == '\\' || c == '|' || c == '?'
        || c == '*'
}

/// A letter that can name a drive.
pub open spec fn drive_letter(c: char) -> bool {
    ('a' <= c <= 'z') || ('A' <= c <= 'Z')
}

/// Windows forbids the character at position `i` of a directory: it is
/// forbidden in names, and is neither a backslash between names nor the colon
/// after a drive letter.
pub open spec fn forbidden_in_dir(dir: Seq<char>, i: int) -> bool {
    forbidden_in_name(dir[i]) && dir[i] != '\\' && !(i == 1 && dir[1] == ':' && drive_letter(
        dir[0],
    ))
}

/// A file name with an underscore in place of each forbidden character.
pub open spec fn safe_name(name: Seq<char>) -> Seq<char> {
    name.map_values(
        |c: char|
            if forbidden_in_name(c) {
                '_'
            } else {
                c
            },
    )
}

/// A directory with an underscore in place of each character that is forbidden
/// where it stands.
pub open spec fn safe_dir(dir: Seq<char>) -> Seq<char> {
    dir.map(
        |i: int, c: char|
            if forbidden_in_dir(dir, i) {
                '_'
            } else {
                c
            },
    )
}

/// The directory in which a platform saves a download.
pub open spec fn save_place(p: Platform, dir: Seq<char>) -> Seq<char> {
    if p.os == Os::Windows {
        safe_dir(dir)
    } else {
        dir
    }
}

fn is_forbidden(c: char) -> (r: bool)
    ensures
        r == forbidden_in_name(c),
{
    c == '<' || c == '>' || c == ':' || c == '"' || c == '/' || c == '\\' || c == '|' || c == '?'
        || c == '*'
}

fn is_drive_letter(c: char) -> (r: bool)
    ensures
        r == drive_letter(c),
{
    ('a' <= c && c <= 'z') || ('A' <= c && c <= 'Z')
}

/// Puts an underscore in place of each character that Windows forbids in file
/// names.
pub fn sanitize_windows_filename(name: &str) -> (r: String)
    ensures
        r@ == safe_name(name@),
{
    let cs = chars_of(name);
    let mut r = String::new();
    for i in 0..cs.len()
        invariant
            cs@ == name@,
            r@ == safe_name(name@).take(i as int),
    {
        if is_forbidden(cs[i]) {
            r.push('_');
        } else {
            r.push(cs[i]);
        }
        assert(safe_name(name@).take(i + 1) =~= safe_name(name@).take(i as int).push(
            safe_name(name@)[i as int],
        ));
    }
    assert(safe_name(name@).take(name@.len() as int) =~= safe_name(name@));
    r
}

/// Makes a directory acceptable to the platform: on Windows with an underscore
/// in place of each character that is forbidden where it stands, elsewhere as
/// it is.
pub fn sanitize_dir(p: Platform, dir: &str) -> (r: String)
    ensures
        r@ == save_place(p, dir@),
{
    if p.os != Os::Windows {
        return dir.to_owned();
    }
    let cs = chars_of(dir);
    let mut r = String::new();
    for i in 0..cs.len()
        invariant
            cs@ == dir@,
            r@ == safe_dir(dir@).take(i as int),
    {
        let c = cs[i];
        if is_forbidden(c) && c != '\\' && !(i == 1 && c == ':' && is_drive_letter(cs[0])) {
            r.push('_');
        } else {
            r.push(c);
        }
        assert(safe_dir(dir@).take(i + 1) =~= safe_dir(dir@).take(i as int).push(
            safe_dir(dir@)[i as int],
        ));
    }
    assert(safe_dir(dir@).take(dir@.len() as int) =~= safe_dir(dir@));
    r
}

/// A sanitized file name has the length of the given one, holds no forbidden
/// character and is not changed by sanitizing it again.
pub proof fn safe_name_is_safe(name: Seq<char>)
    ensures
        safe_name(name).len() == name.len(),
        forall|i: int|
            0 <= i < name.len() ==> !forbidden_in_name(#[trigger] safe_name(name)[i]),
        safe_name(safe_name(name)) == safe_name(name),
{
    assert(safe_name(safe_name(name)) =~= safe_name(name));
}

/// A sanitized directory has the length of the given one, holds no character
/// that is forbidden where it stands and is not changed by sanitizing it
/// again.
pub proof fn safe_dir_is_safe(dir: Seq<char>)
    ensures
        safe_dir(dir).len() == dir.len(),
        forall|i: int|
            0 <= i < dir.len() ==> !#[trigger] forbidden_in_dir(safe_dir(dir), i),
        safe_dir(safe_dir(dir)) == safe_dir(dir),
{
    assert(safe_dir(safe_dir(dir)) =~= safe_dir(dir));
}

/// Each character of a file name stays, unless it is one of those that Windows
/// forbids; then an underscore stands for it.
pub proof fn names_change_character_by_character(name: Seq<char>, i: int)
    requires
        0 <= i < name.len(),
    ensures
        safe_name(name).len() == name.len(),
        "<>:\"/\\|?*"@.contains(name[i]) ==> safe_name(name)[i] == '_',
        !"<>:\"/\\|?*"@.contains(name[i]) ==> safe_name(name)[i] == name[i],
{
    forbidden_are_listed(name[i]);
}

/// Each character of a directory stays, unless it is one of those that Windows
/// forbids in names; the backslashes stay all the same, and so does the colon
/// behind a single letter at the beginning.
pub proof fn dirs_change_character_by_character(dir: Seq<char>, i: int)
    requires
        0 <= i < dir.len(),
    ensures
        safe_dir(dir).len() == dir.len(),
        !"<>:\"/\\|?*"@.contains(dir[i]) ==> safe_dir(dir)[i] == dir[i],
        dir[i] == '\\' ==> safe_dir(dir)[i] == '\\',
        i == 1 && dir[1] == ':' && ('a' <= dir[0] <= 'z' || 'A' <= dir[0] <= 'Z')
            ==> safe_dir(dir)[1] == ':',
        dir[i] == ':' && !(i == 1 && ('a' <= dir[0] <= 'z' || 'A' <= dir[0] <= 'Z')) ==> safe_dir(
            dir,
        )[i] == '_',
        "<>\"/|?*"@.contains(dir[i]) ==> safe_dir(dir)[i] == '_',
{
    forbidden_are_listed(dir[i]);
    let s = "<>\"/|?*"@;
    reveal_strlit("<>\"/|?*");
    if s.contains(dir[i]) {
        let k = choose|k: int| 0 <= k < s.len() && s[k] == dir[i];
        assert(k == 0 || k == 1 || k == 2 || k == 3 || k == 4 || k == 5 || k == 6);
    }
}

proof fn forbidden_are_listed(c: char)
    ensures
        forbidden_in_name(c) <==> "<>:\"/\\|?*"@.contains(c),
{
    let s = "<>:\"/\\|?*"@;
    reveal_strlit("<>:\"/\\|?*");
    assert(s[0] == '<' && s[1] == '>' && s[2] == ':' && s[3] == '"' && s[4] == '/');
    assert(s[5] == '\\' && s[6] == '|' && s[7] == '?' && s[8] == '*');
    if s.contains(c) {
        let k = choose|k: int| 0 <= k < s.len() && s[k] == c;
        assert(k == 0 || k == 1 || k == 2 || k == 3 || k == 4 || k == 5 || k == 6 || k == 7 || k
            == 8);
    }
}

/// Windows alone changes a directory.
pub proof fn other_systems_take_any_dir(p: Platform, dir: Seq<char>)
    ensures
        p.os != Os::Windows ==> save_place(p, dir) == dir,
        p.os == Os::Windows ==> save_place(p, dir) == safe_dir(dir),
{
}

} // verus!
