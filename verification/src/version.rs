//! Versions of yt-dlp, and whether a newer one is to be had.
use crate::item::copy_opt;
use crate::numbers::{
    decimal_is_number, later_at, later_numbers, number_at, number_behind_dot, numbers,
    numbers_are_ordered, numbers_have_digits_and_dots, numbers_later, parts, value,
};
use crate::text::{
    blank, decimal, leading_characters_go, lossy_text, lossy_utf8, same, strip_leading, text_opt,
    tight, trim, trimmed, trimmed_between_blanks, without_leading,
};
use vstd::prelude::*;

verus! {

/// A version number of three parts, as text.
pub open spec fn dotted(major: u64, minor: u64, patch: u64) -> Seq<char> {
    decimal(major as nat) + seq!['.'] + decimal(minor as nat) + seq!['.'] + decimal(patch as nat)
}

/// `(a, b, c)` comes after `(x, y, z)`, compared from left to right.
pub open spec fn later(a: u64, b: u64, c: u64, x: u64, y: u64, z: u64) -> bool {
    a > x || (a == x && (b > y || (b == y && c > z)))
}

/// What `semver::Version::parse` makes of a text: major, minor and patch
/// number, pre-release and build metadata.
pub uninterp spec fn semver_fields(text: Seq<char>) -> Option<
    (u64, u64, u64, Seq<char>, Seq<char>),
>;

/// Whether the version in the first text is greater than that in the second,
/// in the order of `semver::Version`.
pub uninterp spec fn semver_greater(a: Seq<char>, b: Seq<char>) -> bool;

/// The fields of a parsed version.
pub open spec fn fields(v: Option<(u64, u64, u64, String, String)>) -> Option<
    (u64, u64, u64, Seq<char>, Seq<char>),
> {
    match v {
        Some(v) => Some((v.0, v.1, v.2, v.3@, v.4@)),
        None => None,
    }
}

/// `v` has the given numbers and neither pre-release nor build metadata.
pub open spec fn is_release(
    v: Option<(u64, u64, u64, Seq<char>, Seq<char>)>,
    major: u64,
    minor: u64,
    patch: u64,
) -> bool {
    v matches Some(v) && v.0 == major && v.1 == minor && v.2 == patch && v.3.len() == 0 && v.4.len()
        == 0
}

/// The text of a version: the three numbers, the pre-release behind a hyphen
/// and the build metadata behind a plus sign, where there are any.
pub open spec fn version_text(v: (u64, u64, u64, Seq<char>, Seq<char>)) -> Seq<char> {
    dotted(v.0, v.1, v.2) + (if v.3.len() > 0 {
        seq!['-'] + v.3
    } else {
        seq![]
    }) + (if v.4.len() > 0 {
        seq!['+'] + v.4
    } else {
        seq![]
    })
}

/// `text` is the text of the version in it.
pub open spec fn spells(
    v: Option<(u64, u64, u64, Seq<char>, Seq<char>)>,
    text: Seq<char>,
) -> bool {
    v matches Some(v) ==> text == version_text(v)
}

/// What `greater` can be, as the comparison of the version `x` with the version
/// `y`, and `smaller`, as that of `y` with `x`: the numbers are compared first,
/// where they are equal a release is greater than a pre-release, and of two
/// different versions exactly one is the greater.
pub open spec fn order_allowed(
    x: (u64, u64, u64, Seq<char>, Seq<char>),
    y: (u64, u64, u64, Seq<char>, Seq<char>),
    greater: bool,
    smaller: bool,
) -> bool {
    let same_numbers = x.0 == y.0 && x.1 == y.1 && x.2 == y.2;
    &&& !same_numbers ==> greater == later(x.0, x.1, x.2, y.0, y.1, y.2)
    &&& same_numbers && x.3.len() == 0 && y.3.len() > 0 ==> greater
    &&& same_numbers && x.3.len() > 0 && y.3.len() == 0 ==> !greater
    &&& x == y ==> !greater && !smaller
    &&& x != y ==> greater == !smaller
}

/// `semver::Version::parse`. A text that it takes is spelled as the version in
/// it prints, and it takes every text of three numbers in decimal with dots
/// between them.
#[verifier::external_body]
fn parse_version(text: &str) -> (r: Option<(u64, u64, u64, String, String)>)
    ensures
        fields(r) == semver_fields(text@),
        spells(fields(r), text@),
        forall|a: u64, b: u64, c: u64|
            text@ == #[trigger] dotted(a, b, c) ==> is_release(fields(r), a, b, c),
{
    let v = semver::Version::parse(text).ok()?;
    Some((v.major, v.minor, v.patch, v.pre.to_string(), v.build.to_string()))
}

/// The comparison `>` of `semver::Version`, which orders all versions. How two
/// pre-releases or two builds of the same numbers compare is left to it; what
/// else it gives, `order_allowed` says, and it is transitive.
#[verifier::external_body]
fn version_greater(a: &str, b: &str) -> (r: bool)
    requires
        semver_fields(a@) is Some,
        semver_fields(b@) is Some,
    ensures
        r == semver_greater(a@, b@),
        order_allowed(semver_fields(a@)->0, semver_fields(b@)->0, r, semver_greater(b@, a@)),
        forall|c: Seq<char>|
            r && semver_fields(c) is Some && #[trigger] semver_greater(b@, c) ==> semver_greater(
                a@,
                c,
            ),
{
    semver::Version::parse(a).unwrap() > semver::Version::parse(b).unwrap()
}

/// A version without the letters v that it may begin with.
pub open spec fn bare(version: Seq<char>) -> Seq<char> {
    without_leading(version, 'v')
}

/// Both texts are semantic versions.
pub open spec fn comparable(a: Seq<char>, b: Seq<char>) -> bool {
    semver_fields(bare(a)) is Some && semver_fields(bare(b)) is Some
}

/// Both texts are numbers with dots between them, such as dates.
pub open spec fn both_numbers(a: Seq<char>, b: Seq<char>) -> bool {
    numbers(bare(a)) is Some && numbers(bare(b)) is Some
}

/// `a` is newer than `b`, where they are not both semantic versions: by their
/// numbers where both have such, and otherwise whenever they differ.
pub open spec fn newer_otherwise(a: Seq<char>, b: Seq<char>) -> bool {
    match (numbers(bare(a)), numbers(bare(b))) {
        (Some(x), Some(y)) => later_numbers(x, y),
        _ => a != b,
    }
}

/// `a` is newer than `b`: by the order of semantic versions where both are
/// such, by their numbers where both have such, and otherwise whenever they
/// differ.
pub open spec fn newer(a: Seq<char>, b: Seq<char>) -> bool {
    if comparable(a, b) {
        semver_greater(bare(a), bare(b))
    } else {
        newer_otherwise(a, b)
    }
}

/// Decides whether `a` is newer than `b`, where `order` tells whether it is
/// greater as a semantic version, if both are such.
pub fn newer_by(a: &str, b: &str, order: Option<bool>) -> (r: bool)
    ensures
        r == match order {
            Some(greater) => greater,
            None => newer_otherwise(a@, b@),
        },
{
    match order {
        Some(greater) => greater,
        None => match numbers_later(strip_leading(a, 'v'), strip_leading(b, 'v')) {
            Some(is_later) => is_later,
            None => !same(a, b),
        },
    }
}

/// The numbers of three numbers with dots between them are these.
pub proof fn dotted_has_numbers(major: u64, minor: u64, patch: u64)
    ensures
        numbers(dotted(major, minor, patch)) == Some(seq![major as nat, minor as nat, patch as nat]),
{
    let a = decimal(major as nat);
    let b = decimal(minor as nat);
    let c = decimal(patch as nat);
    decimal_is_number(major as nat);
    decimal_is_number(minor as nat);
    decimal_is_number(patch as nat);
    number_behind_dot(seq![], a);
    number_behind_dot(a, b);
    number_behind_dot(a.push('.') + b, c);
    assert(dotted(major, minor, patch) =~= (a.push('.') + b).push('.') + c);
    let ps = parts(dotted(major, minor, patch));
    assert(ps =~= seq![a, b, c]);
    assert(ps.map_values(|s: Seq<char>| value(s)) =~= seq![
        major as nat,
        minor as nat,
        patch as nat,
    ]);
}

/// A semantic version that has numbers is a release of these three numbers.
proof fn numbered_version_is_release(
    v: (u64, u64, u64, Seq<char>, Seq<char>),
    text: Seq<char>,
)
    requires
        text == version_text(v),
        numbers(text) is Some,
    ensures
        v.3.len() == 0,
        v.4.len() == 0,
        numbers(text) == Some(seq![v.0 as nat, v.1 as nat, v.2 as nat]),
{
    numbers_have_digits_and_dots(text);
    let n = dotted(v.0, v.1, v.2).len() as int;
    if v.3.len() > 0 {
        assert(text[n] == '-');
    } else if v.4.len() > 0 {
        assert(text[n] == '+');
    }
    assert(text =~= dotted(v.0, v.1, v.2));
    dotted_has_numbers(v.0, v.1, v.2);
}

/// Three numbers are compared from left to right.
proof fn three_numbers_later(a: u64, b: u64, c: u64, x: u64, y: u64, z: u64)
    ensures
        later_numbers(seq![a as nat, b as nat, c as nat], seq![x as nat, y as nat, z as nat])
            == later(a, b, c, x, y, z),
{
    let s = seq![a as nat, b as nat, c as nat];
    let t = seq![x as nat, y as nat, z as nat];
    assert(number_at(s, 0) == a && number_at(s, 1) == b && number_at(s, 2) == c);
    assert(number_at(t, 0) == x && number_at(t, 1) == y && number_at(t, 2) == z);
    if later(a, b, c, x, y, z) {
        assert(later_at(s, t, 0) || later_at(s, t, 1) || later_at(s, t, 2));
    }
    if later_numbers(s, t) {
        let k = choose|k: int| later_at(s, t, k);
        assert(0 <= k < 3);
    }
}

/// Decides whether the version `a` is newer than the version `b`. Nothing is
/// newer than itself. Of two semantic versions exactly one is newer, unless
/// they are the same version; the numbers are compared first, from left to
/// right, and a release is newer than its pre-releases; the order is
/// transitive. Where both have numbers these decide, and never both are newer
/// than the other.
pub fn newer_than(a: &str, b: &str) -> (r: bool)
    ensures
        r == newer(a@, b@),
        a@ == b@ ==> !r,
        comparable(a@, b@) && semver_fields(bare(a@)) == semver_fields(bare(b@)) ==> !r && !newer(
            b@,
            a@,
        ),
        comparable(a@, b@) && semver_fields(bare(a@)) != semver_fields(bare(b@)) ==> newer(b@, a@)
            == !r,
        comparable(a@, b@) ==> order_allowed(
            semver_fields(bare(a@))->0,
            semver_fields(bare(b@))->0,
            r,
            newer(b@, a@),
        ),
        forall|c: Seq<char>|
            comparable(a@, b@) && comparable(b@, c) && r && #[trigger] newer(b@, c) ==> newer(
                a@,
                c,
            ),
        both_numbers(a@, b@) ==> r == later_numbers(numbers(bare(a@))->0, numbers(bare(b@))->0),
        both_numbers(a@, b@) && r ==> !newer(b@, a@),
        !comparable(a@, b@) && !both_numbers(a@, b@) ==> newer(b@, a@) == r,
        forall|a0: u64, a1: u64, a2: u64, b0: u64, b1: u64, b2: u64|
            bare(a@) == #[trigger] dotted(a0, a1, a2) && bare(b@) == #[trigger] dotted(b0, b1, b2)
                ==> r == later(a0, a1, a2, b0, b1, b2),
{
    let x = strip_leading(a, 'v');
    let y = strip_leading(b, 'v');
    let order = match (parse_version(x), parse_version(y)) {
        (Some(_), Some(_)) => Some(version_greater(x, y)),
        _ => None,
    };
    let r = newer_by(a, b, order);
    proof {
        if both_numbers(a@, b@) {
            let ns = numbers(x@)->0;
            let ms = numbers(y@)->0;
            numbers_are_ordered(ns, ms, ns);
            if comparable(a@, b@) {
                let v = semver_fields(x@)->0;
                let w = semver_fields(y@)->0;
                numbered_version_is_release(v, x@);
                numbered_version_is_release(w, y@);
                three_numbers_later(v.0, v.1, v.2, w.0, w.1, w.2);
                assert(v.3 =~= w.3 && v.4 =~= w.4);
            }
        }
    }
    r
}

/// What is known of the installed and the newest yt-dlp.
#[derive(Debug)]
pub struct YtDlpStatus {
    pub bundled_version: String,
    pub latest_version: Option<String>,
    pub update_available: bool,
    pub auto_check: bool,
}

/// What a `YtDlpStatus` holds.
#[verifier::ext_equal]
pub struct StatusView {
    pub bundled_version: Seq<char>,
    pub latest_version: Option<Seq<char>>,
    pub update_available: bool,
    pub auto_check: bool,
}

impl View for YtDlpStatus {
    type V = StatusView;

    open spec fn view(&self) -> StatusView {
        StatusView {
            bundled_version: self.bundled_version@,
            latest_version: text_opt(self.latest_version),
            update_available: self.update_available,
            auto_check: self.auto_check,
        }
    }
}

impl Clone for YtDlpStatus {
    fn clone(&self) -> (r: Self)
        ensures
            r@ == self@,
    {
        YtDlpStatus {
            bundled_version: self.bundled_version.clone(),
            latest_version: copy_opt(&self.latest_version),
            update_available: self.update_available,
            auto_check: self.auto_check,
        }
    }
}

/// An update is to be had: a newest version is known, and it is newer than
/// the installed one, which is known too.
pub open spec fn update_known(bundled: Seq<char>, latest: Option<Seq<char>>) -> bool {
    match latest {
        Some(l) => bundled.len() > 0 && newer(l, bundled),
        None => false,
    }
}

/// The status that is shown.
pub open spec fn shown_status(
    bundled: Seq<char>,
    latest: Option<Seq<char>>,
    auto_check: bool,
) -> StatusView {
    StatusView {
        bundled_version: bundled,
        latest_version: latest,
        update_available: update_known(bundled, latest),
        auto_check,
    }
}

/// The status that a check on request shows.
pub open spec fn checked_status(
    bundled: Seq<char>,
    latest: Seq<char>,
    auto_check: bool,
) -> StatusView {
    StatusView {
        bundled_version: bundled,
        latest_version: Some(latest),
        update_available: newer(latest, bundled),
        auto_check,
    }
}

/// The version that is announced at startup, if any.
pub open spec fn announced(installed: Seq<char>, latest: Seq<char>) -> Option<Seq<char>> {
    if update_known(installed, Some(latest)) {
        Some(latest)
    } else {
        None
    }
}

/// Puts together the status that is shown. `bundled` is the installed version,
/// empty where it is not known, and `latest` the newest one, if it could be
/// asked for.
pub fn get_ytdlp_status(bundled: String, latest: Option<String>, auto_check: bool) -> (r:
    YtDlpStatus)
    ensures
        r@ == shown_status(bundled@, text_opt(latest), auto_check),
{
    let update_available = match &latest {
        Some(l) => !bundled.as_str().is_empty() && newer_than(l.as_str(), bundled.as_str()),
        None => false,
    };
    YtDlpStatus { bundled_version: bundled, latest_version: latest, update_available, auto_check }
}

/// Puts together the status that a check on request shows; here an installed
/// version that is not known counts as any other. Where the newest version
/// could not be asked for, the reason is handed on.
pub fn check_ytdlp_update(bundled: String, latest: Result<String, String>, auto_check: bool) -> (r:
    Result<YtDlpStatus, String>)
    ensures
        match (latest, r) {
            (Ok(l), Ok(status)) => status@ == checked_status(bundled@, l@, auto_check),
            (Err(reason), Err(e)) => e@ == reason@,
            _ => false,
        },
{
    match latest {
        Ok(latest) => {
            let update_available = newer_than(latest.as_str(), bundled.as_str());
            Ok(
                YtDlpStatus {
                    bundled_version: bundled,
                    latest_version: Some(latest),
                    update_available,
                    auto_check,
                },
            )
        },
        Err(e) => Err(e),
    }
}

/// Decides at startup which version is announced as an update, if any.
pub fn startup_update(installed: &str, latest: String) -> (r: Option<String>)
    ensures
        text_opt(r) == announced(installed@, latest@),
{
    let is_newer = newer_than(latest.as_str(), installed);
    if !installed.is_empty() && !same(latest.as_str(), installed) && is_newer {
        Some(latest)
    } else {
        None
    }
}

/// The version in the text that `yt-dlp --version` printed.
pub open spec fn version_in(text: Seq<char>) -> Seq<char> {
    trimmed(text)
}

/// Reads the version from the text that `yt-dlp --version` printed.
pub fn parse_version_output(text: &str) -> (r: String)
    ensures
        r@ == version_in(text@),
{
    trim(text).to_owned()
}

/// The version that a run of `yt-dlp --version` tells, or nothing if it failed.
pub open spec fn version_by_run(success: bool, text: Seq<char>) -> Seq<char> {
    if success {
        version_in(text)
    } else {
        seq![]
    }
}

/// Reads the version of yt-dlp from a run of `yt-dlp --version`, of which
/// success and output are given; there is none if there is no binary. Without
/// a successful run the version is not known: it is empty.
pub fn bundled_ytdlp_version(run: Option<(bool, &[u8])>) -> (r: String)
    ensures
        r@ == match run {
            Some((success, stdout)) => version_by_run(success, lossy_utf8(stdout@)),
            None => seq![],
        },
{
    match run {
        Some((true, stdout)) => {
            let text = lossy_text(stdout);
            parse_version_output(text.as_str())
        },
        _ => {
            let r = String::new();
            assert(r@ =~= seq![]);
            r
        },
    }
}

/// Which comparison decides: that of semantic versions where both are such,
/// otherwise that of numbers where both have such, and otherwise whether the
/// texts differ. The letters v at the beginning do not count.
pub proof fn what_decides_which_is_newer(a: Seq<char>, b: Seq<char>)
    ensures
        ({
            let x = without_leading(a, 'v');
            let y = without_leading(b, 'v');
            let semantic = semver_fields(x) is Some && semver_fields(y) is Some;
            &&& semantic ==> newer(a, b) == semver_greater(x, y)
            &&& !semantic && numbers(x) is Some && numbers(y) is Some ==> newer(a, b)
                == later_numbers(numbers(x)->0, numbers(y)->0)
            &&& !semantic && (numbers(x) is None || numbers(y) is None) ==> newer(a, b) == (a != b)
        }),
{
}

/// Letters v in front change nothing between two versions that are semantic or
/// have numbers.
pub proof fn leading_letters_do_not_count(n: nat, a: Seq<char>, b: Seq<char>)
    requires
        a.len() > 0 ==> a.first() != 'v',
        comparable(a, b) || both_numbers(a, b),
    ensures
        newer(Seq::new(n, |i: int| 'v') + a, b) == newer(a, b),
        newer(b, Seq::new(n, |i: int| 'v') + a) == newer(b, a),
{
    leading_characters_go(n, 'v', a);
    leading_characters_go(0, 'v', a);
    assert(Seq::new(0, |i: int| 'v') + a =~= a);
}

/// An update is known of exactly if both versions are known and the newest is
/// newer than the installed one; none is ever known of to the same version.
pub proof fn updates_are_newer(installed: Seq<char>, latest: Seq<char>)
    ensures
        !update_known(installed, None),
        !update_known(seq![], Some(latest)),
        installed.len() > 0 ==> update_known(installed, Some(latest)) == newer(latest, installed),
{
}

/// The version is what is printed, without the whitespace around it, and a
/// failed run tells none.
pub proof fn version_is_what_is_printed(a: Seq<char>, version: Seq<char>, b: Seq<char>)
    requires
        blank(a),
        tight(version),
        blank(b),
    ensures
        version_in(a + version + b) == version,
        version_by_run(true, a + version + b) == version,
        version_by_run(false, a + version + b).len() == 0,
{
    trimmed_between_blanks(a, version, b);
}

/// Three numbers as text: decimal, with dots between them.
pub proof fn dotted_is_decimal(major: u64, minor: u64, patch: u64)
    ensures
        dotted(major, minor, patch) == decimal(major as nat) + "."@ + decimal(minor as nat) + "."@
            + decimal(patch as nat),
{
    reveal_strlit(".");
    assert("."@ =~= seq!['.']);
}

/// The status tells both versions and the setting as they are, and of an update
/// exactly if the newest version is newer than the installed one; at startup
/// just that version is announced. A version that is not known is never behind,
/// but for a check on request.
pub proof fn status_tells_of_newer_versions(
    bundled: Seq<char>,
    latest: Seq<char>,
    auto_check: bool,
)
    ensures
        ({
            let r = shown_status(bundled, Some(latest), auto_check);
            &&& r.bundled_version == bundled
            &&& r.latest_version == Some(latest)
            &&& r.auto_check == auto_check
            &&& r.update_available == (bundled.len() > 0 && newer(latest, bundled))
        }),
        ({
            let r = shown_status(bundled, None, auto_check);
            &&& r.bundled_version == bundled
            &&& r.latest_version is None
            &&& r.auto_check == auto_check
            &&& !r.update_available
        }),
        ({
            let r = checked_status(bundled, latest, auto_check);
            &&& r.bundled_version == bundled
            &&& r.latest_version == Some(latest)
            &&& r.auto_check == auto_check
            &&& r.update_available == newer(latest, bundled)
        }),
        bundled.len() > 0 && newer(latest, bundled) ==> announced(bundled, latest) == Some(latest),
        bundled.len() == 0 || !newer(latest, bundled) ==> announced(bundled, latest) is None,
{
}

} // verus!
