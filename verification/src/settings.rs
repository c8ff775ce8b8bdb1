//! The settings that outlive a session, kept as a JSON object.
use crate::text::{str_opt, text_opt};
use vstd::prelude::*;

verus! {

/// A JSON value of the crate `serde_json`.
#[verifier::external_type_specification]
#[verifier::external_body]
pub struct ExValue(serde_json::Value);

/// The members of a JSON object by their names, each as compact JSON text; a
/// value that is no object has none.
pub uninterp spec fn members(v: serde_json::Value) -> Map<Seq<char>, Seq<char>>;

/// The members of a JSON object that are strings, by their names, each as the
/// text that it holds.
pub uninterp spec fn string_members(v: serde_json::Value) -> Map<Seq<char>, Seq<char>>;

/// The value is an object.
pub uninterp spec fn is_object(v: serde_json::Value) -> bool;

/// The value is null.
pub uninterp spec fn is_null(v: serde_json::Value) -> bool;

/// The value takes members: it is an object or null.
pub open spec fn takes_members(v: serde_json::Value) -> bool {
    is_object(v) || is_null(v)
}

/// However often the value is printed and parsed again, it keeps its kind, the
/// names of its members and its string members. (A value does not that is
/// nested deeper than the parser allows, that holds a number too large for the
/// parser, or that has an object with the member name that the parser keeps
/// for itself.)
pub uninterp spec fn reads_back(v: serde_json::Value) -> bool;

/// The compact JSON text of a value.
pub uninterp spec fn json_print(v: serde_json::Value) -> Seq<char>;

/// What `serde_json::from_str` makes of a text: whether the value takes
/// members, whether it reads back, its string members and all its members.
pub uninterp spec fn json_text(text: Seq<char>) -> Option<
    (bool, bool, Map<Seq<char>, Seq<char>>, Map<Seq<char>, Seq<char>>),
>;

/// What a value holds, as far as the settings go.
pub open spec fn contents(v: serde_json::Value) -> (
    bool,
    bool,
    Map<Seq<char>, Seq<char>>,
    Map<Seq<char>, Seq<char>>,
) {
    (takes_members(v), reads_back(v), string_members(v), members(v))
}

/// What a value holds, if there is one.
pub open spec fn contents_opt(v: Option<serde_json::Value>) -> Option<
    (bool, bool, Map<Seq<char>, Seq<char>>, Map<Seq<char>, Seq<char>>),
> {
    match v {
        Some(v) => Some(contents(v)),
        None => None,
    }
}

/// No members at all.
pub open spec fn no_members() -> Map<Seq<char>, Seq<char>> {
    Map::empty()
}

/// What an object without members holds.
pub open spec fn no_contents() -> (
    bool,
    bool,
    Map<Seq<char>, Seq<char>>,
    Map<Seq<char>, Seq<char>>,
) {
    (true, true, no_members(), no_members())
}

/// `c` is what an object holds after the string member `name` has been set to
/// `value` where it held `b` before.
pub open spec fn member_set(
    b: (bool, bool, Map<Seq<char>, Seq<char>>, Map<Seq<char>, Seq<char>>),
    c: (bool, bool, Map<Seq<char>, Seq<char>>, Map<Seq<char>, Seq<char>>),
    name: Seq<char>,
    value: Seq<char>,
) -> bool {
    &&& c.0
    &&& c.2 == b.2.insert(name, value)
    &&& c.3.contains_key(name)
    &&& c.3.remove(name) == b.3.remove(name)
}

/// The text of the member `name`.
pub open spec fn member(m: Map<Seq<char>, Seq<char>>, name: Seq<char>) -> Option<Seq<char>> {
    if m.contains_key(name) {
        Some(m[name])
    } else {
        None
    }
}

/// `serde_json::from_str` into a `serde_json::Value`.
#[verifier::external_body]
fn parse_json(text: &str) -> (r: Option<serde_json::Value>)
    ensures
        contents_opt(r) == json_text(text@),
{
    serde_json::from_str::<serde_json::Value>(text).ok()
}

/// `Value::Object` of a new `serde_json::Map`: an object without members.
#[verifier::external_body]
fn empty_object() -> (r: serde_json::Value)
    ensures
        is_object(r),
        reads_back(r),
        string_members(r) == no_members(),
        members(r) == no_members(),
{
    serde_json::Value::Object(serde_json::Map::new())
}

/// `Value::get` with a name, and `Value::as_str`: the member of that name, if
/// it is a string.
#[verifier::external_body]
fn get_string(v: &serde_json::Value, name: &str) -> (r: Option<String>)
    ensures
        text_opt(r) == member(string_members(*v), name@),
{
    v.get(name).and_then(|m| m.as_str()).map(|s| s.to_string())
}

/// `Value::is_object`.
#[verifier::external_body]
fn value_is_object(v: &serde_json::Value) -> (r: bool)
    ensures
        r == is_object(*v),
{
    v.is_object()
}

/// `Value::is_null`.
#[verifier::external_body]
fn value_is_null(v: &serde_json::Value) -> (r: bool)
    ensures
        r == is_null(*v),
{
    v.is_null()
}

/// Tells whether a value can be indexed by a name to set a member.
fn can_take_members(v: &serde_json::Value) -> (r: bool)
    ensures
        r == takes_members(*v),
{
    value_is_object(v) || value_is_null(v)
}

/// Indexing a `Value` by a name to assign a string: null becomes an object
/// first, an object has the member set and keeps the others, and any other
/// value panics. The member name that the parser keeps for itself is
/// `$serde_json::private::RawValue`.
#[verifier::external_body]
fn set_string(v: &mut serde_json::Value, name: &str, value: &str)
    requires
        takes_members(*old(v)),
    ensures
        member_set(contents(*old(v)), contents(*final(v)), name@, value@),
        reads_back(*old(v)) && name@ != "$serde_json::private::RawValue"@ ==> reads_back(
            *final(v),
        ),
{
    v[name] = serde_json::Value::String(value.to_string());
}

/// The text that a `Value` prints. The text of one that reads back is parsed
/// to a value of the same kind, with members of the same names and the same
/// string members, which reads back too. (Of other members the text may
/// change: a fraction need not survive to the last digit.)
#[verifier::external_body]
fn json_to_text(v: &serde_json::Value) -> (r: String)
    ensures
        r@ == json_print(*v),
        reads_back(*v) ==> read_again(contents(*v), json_text(r@)),
{
    v.to_string()
}

/// `again` is what the printed text of a value that holds `c` is parsed to.
pub open spec fn read_again(
    c: (bool, bool, Map<Seq<char>, Seq<char>>, Map<Seq<char>, Seq<char>>),
    again: Option<(bool, bool, Map<Seq<char>, Seq<char>>, Map<Seq<char>, Seq<char>>)>,
) -> bool {
    match again {
        Some(d) => d.0 == c.0 && d.1 && d.2 == c.2 && d.3.dom() == c.3.dom(),
        None => false,
    }
}

/// What the settings in a text hold; those that cannot be read or are no JSON
/// count as an object without members.
pub open spec fn settings_in(text: Option<Seq<char>>) -> (
    bool,
    bool,
    Map<Seq<char>, Seq<char>>,
    Map<Seq<char>, Seq<char>>,
) {
    match text {
        Some(t) => match json_text(t) {
            Some(c) => c,
            None => no_contents(),
        },
        None => no_contents(),
    }
}

/// The directory that settings with the given string members name.
pub open spec fn dir_in(strings: Map<Seq<char>, Seq<char>>) -> Seq<char> {
    match member(strings, "last_dir"@) {
        Some(dir) => dir,
        None => seq![],
    }
}

/// The directory that the settings in a text name; no text stands for settings
/// that could not be read.
pub open spec fn last_dir_in(text: Option<Seq<char>>) -> Seq<char> {
    dir_in(settings_in(text).2)
}

/// Reads the directory of the last download from the settings; `content` is
/// the text of the settings file, if it could be read.
pub fn load_last_dir(content: Option<&str>) -> (r: String)
    ensures
        r@ == last_dir_in(str_opt(content)),
{
    let value = match content {
        Some(text) => parse_json(text),
        None => None,
    };
    let dir = match value {
        Some(v) => get_string(&v, "last_dir"),
        None => None,
    };
    dir_or_none(dir)
}

/// The directory that was found in the settings, or an empty text.
pub fn dir_or_none(found: Option<String>) -> (r: String)
    ensures
        r@ == match text_opt(found) {
            Some(dir) => dir,
            None => seq![],
        },
{
    match found {
        Some(d) => d,
        None => {
            let r = String::new();
            assert(r@ =~= seq![]);
            r
        },
    }
}

/// Sets the directory of the last download in settings that take members.
pub fn put_last_dir(settings: &mut serde_json::Value, dir: &str)
    requires
        takes_members(*old(settings)),
    ensures
        member_set(contents(*old(settings)), contents(*final(settings)), "last_dir"@, dir@),
        reads_back(*old(settings)) ==> reads_back(*final(settings)),
{
    proof {
        reveal_strlit("last_dir");
        reveal_strlit("$serde_json::private::RawValue");
        assert("last_dir"@.len() != "$serde_json::private::RawValue"@.len());
    }
    set_string(settings, "last_dir", dir);
}

/// `text` prints settings that hold what `before` held, with the directory of
/// the last download set.
pub open spec fn prints_with_dir(
    text: Seq<char>,
    before: (bool, bool, Map<Seq<char>, Seq<char>>, Map<Seq<char>, Seq<char>>),
    dir: Seq<char>,
) -> bool {
    exists|v: serde_json::Value|
        text == #[trigger] json_print(v) && member_set(before, contents(v), "last_dir"@, dir)
}

/// What the settings in a text hold that are kept when one of them is set;
/// those that do not take members count as an object without members, too.
pub open spec fn settings_kept(text: Option<Seq<char>>) -> (
    bool,
    bool,
    Map<Seq<char>, Seq<char>>,
    Map<Seq<char>, Seq<char>>,
) {
    if settings_in(text).0 {
        settings_in(text)
    } else {
        no_contents()
    }
}

/// Sets the directory of the last download in the settings and gives the text
/// to be stored; `content` is the text of the settings file, if it could be
/// read. Settings that are JSON but neither an object nor null are written
/// over. Settings that read back do so with the directory, which is then the
/// one that is loaded again, and keep the names of their members.
pub fn save_last_dir(content: Option<&str>, dir: &str) -> (r: String)
    ensures
        prints_with_dir(r@, settings_kept(str_opt(content)), dir@),
        settings_kept(str_opt(content)).1 ==> {
            &&& settings_in(Some(r@)).0
            &&& settings_in(Some(r@)).1
            &&& settings_in(Some(r@)).2 == settings_kept(str_opt(content)).2.insert(
                "last_dir"@,
                dir@,
            )
            &&& settings_in(Some(r@)).3.dom() == settings_kept(str_opt(content)).3.dom().insert(
                "last_dir"@,
            )
            &&& last_dir_in(Some(r@)) == dir@
        },
{
    let parsed = match content {
        Some(text) => parse_json(text),
        None => None,
    };
    let mut value = match parsed {
        Some(v) => v,
        None => empty_object(),
    };
    if !can_take_members(&value) {
        value = empty_object();
    }
    let ghost before = contents(value);
    assert(before == settings_kept(str_opt(content)));
    put_last_dir(&mut value, dir);
    let text = json_to_text(&value);
    assert(prints_with_dir(text@, settings_kept(str_opt(content)), dir@));
    assert(contents(value).3.dom() =~= before.3.dom().insert("last_dir"@)) by {
        let m = contents(value).3;
        assert(m.dom() =~= m.remove("last_dir"@).dom().insert("last_dir"@));
        assert(before.3.dom().insert("last_dir"@) =~= before.3.remove("last_dir"@).dom().insert(
            "last_dir"@,
        ));
    }
    text
}

/// The directory is the string member "last_dir" of the settings, or nothing
/// where there is none; settings that cannot be read, or are no JSON, have no
/// members, and those that are JSON have what is in it.
pub proof fn directory_is_a_member(text: Seq<char>, strings: Map<Seq<char>, Seq<char>>)
    ensures
        strings.contains_key("last_dir"@) ==> dir_in(strings) == strings["last_dir"@],
        !strings.contains_key("last_dir"@) ==> dir_in(strings) == Seq::<char>::empty(),
        last_dir_in(None) == Seq::<char>::empty(),
        json_text(text) is None ==> last_dir_in(Some(text)) == Seq::<char>::empty(),
        json_text(text) matches Some(c) ==> last_dir_in(Some(text)) == dir_in(c.2),
{
}

/// Settings that are an object or null are kept; any others count as an object
/// without members.
pub proof fn objects_are_kept(text: Seq<char>)
    ensures
        json_text(text) matches Some(c) ==> {
            &&& settings_in(Some(text)) == c
            &&& c.0 ==> settings_kept(Some(text)) == c
            &&& !c.0 ==> settings_kept(Some(text)).2.dom() == Set::<Seq<char>>::empty()
            &&& !c.0 ==> settings_kept(Some(text)).3.dom() == Set::<Seq<char>>::empty()
        },
        json_text(text) is None ==> settings_kept(Some(text)).2.dom() == Set::<Seq<char>>::empty(),
        settings_kept(None).2.dom() == Set::<Seq<char>>::empty(),
        settings_kept(Some(text)).0,
        settings_kept(None).0 && settings_kept(None).1,
{
    assert(no_contents().2.dom() =~= Set::<Seq<char>>::empty());
    assert(no_contents().3.dom() =~= Set::<Seq<char>>::empty());
}

/// Setting one string member leaves every other member as it was, be it a
/// string or not, and that one as it was set.
pub proof fn other_members_stay(
    b: (bool, bool, Map<Seq<char>, Seq<char>>, Map<Seq<char>, Seq<char>>),
    c: (bool, bool, Map<Seq<char>, Seq<char>>, Map<Seq<char>, Seq<char>>),
    name: Seq<char>,
    value: Seq<char>,
    other: Seq<char>,
)
    requires
        member_set(b, c, name, value),
    ensures
        c.2.contains_key(name) && c.2[name] == value,
        c.3.contains_key(name),
        other != name ==> {
            &&& c.2.contains_key(other) == b.2.contains_key(other)
            &&& b.2.contains_key(other) ==> c.2[other] == b.2[other]
            &&& c.3.contains_key(other) == b.3.contains_key(other)
            &&& b.3.contains_key(other) ==> c.3[other] == b.3[other]
        },
{
    if other != name {
        assert(c.3.contains_key(other) == c.3.remove(name).contains_key(other));
        assert(b.3.contains_key(other) == b.3.remove(name).contains_key(other));
        if b.3.contains_key(other) {
            assert(c.3[other] == c.3.remove(name)[other]);
            assert(b.3[other] == b.3.remove(name)[other]);
        }
    }
}

} // verus!
