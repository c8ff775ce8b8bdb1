//! Text as a sequence of characters: the few string operations that the rest
//! of the library needs, each with an exact contract.
use vstd::prelude::*;
use vstd::string::StrSliceExecFns;
use vstd::string::StringExecFns;
use vstd::utf8::{decode_utf8, encode_utf8, valid_utf8};

verus! {

/// `String::push` appends one character at the end.
pub assume_specification[ String::push ](s: &mut String, c: char)
    ensures
        final(s)@ == old(s)@.push(c),
;

/// The text that `String::from_utf8_lossy` makes of bytes.
pub uninterp spec fn lossy_utf8(bytes: Seq<u8>) -> Seq<char>;

/// `String::from_utf8_lossy`: bytes that are valid UTF-8 are taken as the text
/// that they encode; what stands for other bytes is left to the function.
#[verifier::external_body]
pub(crate) fn lossy_text(bytes: &[u8]) -> (r: String)
    ensures
        r@ == lossy_utf8(bytes@),
        valid_utf8(bytes@) ==> r@ == decode_utf8(bytes@),
{
    String::from_utf8_lossy(bytes).to_string()
}

/// The characters with the Unicode property `White_Space`.
pub open spec fn is_whitespace(c: char) -> bool {
    ||| '\u{9}' <= c <= '\u{d}'
    ||| c == ' '
    ||| c == '\u{85}'
    ||| c == '\u{a0}'
    ||| c == '\u{1680}'
    ||| '\u{2000}' <= c <= '\u{200a}'
    ||| c == '\u{2028}'
    ||| c == '\u{2029}'
    ||| c == '\u{202f}'
    ||| c == '\u{205f}'
    ||| c == '\u{3000}'
}

/// `s` without its leading whitespace.
pub open spec fn trim_start(s: Seq<char>) -> Seq<char>
    decreases s.len(),
{
    if s.len() > 0 && is_whitespace(s.first()) {
        trim_start(s.drop_first())
    } else {
        s
    }
}

/// `s` without its trailing whitespace.
pub open spec fn trim_end(s: Seq<char>) -> Seq<char>
    decreases s.len(),
{
    if s.len() > 0 && is_whitespace(s.last()) {
        trim_end(s.drop_last())
    } else {
        s
    }
}

/// `s` without the whitespace at either end.
pub open spec fn trimmed(s: Seq<char>) -> Seq<char> {
    trim_end(trim_start(s))
}

/// `p` stands in `s` from position `i` on.
pub open spec fn occurs_at(s: Seq<char>, p: Seq<char>, i: int) -> bool {
    0 <= i && i + p.len() <= s.len() && s.subrange(i, i + p.len()) == p
}

/// The first position from `i` on at which `p` stands in `s`.
pub open spec fn position_from(s: Seq<char>, p: Seq<char>, i: int) -> Option<int>
    decreases s.len() + 1 - i,
{
    if i + p.len() > s.len() {
        None
    } else if occurs_at(s, p, i) {
        Some(i)
    } else {
        position_from(s, p, i + 1)
    }
}

/// The first position at which `p` stands in `s`.
pub open spec fn position(s: Seq<char>, p: Seq<char>) -> Option<int> {
    position_from(s, p, 0)
}

/// `p` stands somewhere in `s`.
pub open spec fn has_part(s: Seq<char>, p: Seq<char>) -> bool {
    exists|i: int| occurs_at(s, p, i)
}

/// What is left of `s` after the prefix `p`, if `s` begins with `p`.
pub open spec fn without_prefix(s: Seq<char>, p: Seq<char>) -> Option<Seq<char>> {
    if p.is_prefix_of(s) {
        Some(s.skip(p.len() as int))
    } else {
        None
    }
}

/// The part of `s` before the first `p`, or all of `s`.
pub open spec fn before(s: Seq<char>, p: Seq<char>) -> Seq<char> {
    match position(s, p) {
        Some(i) => s.take(i),
        None => s,
    }
}

/// `s` without its leading characters `c`.
pub open spec fn without_leading(s: Seq<char>, c: char) -> Seq<char>
    decreases s.len(),
{
    if s.len() > 0 && s.first() == c {
        without_leading(s.drop_first(), c)
    } else {
        s
    }
}

/// The number of bytes that `s` takes in UTF-8.
pub open spec fn byte_len(s: Seq<char>) -> nat {
    encode_utf8(s).len()
}

/// The decimal digit of `d`, for `d` below ten.
pub open spec fn digit(d: nat) -> char {
    (48 + d) as char
}

/// `n` in decimal, without leading zeros.
pub open spec fn decimal(n: nat) -> Seq<char>
    decreases n,
{
    if n < 10 {
        seq![digit(n)]
    } else {
        decimal(n / 10).push(digit(n % 10))
    }
}

/// `n` in decimal, with a leading minus sign when it is negative.
pub open spec fn signed_decimal(n: int) -> Seq<char> {
    if n < 0 {
        seq!['-'] + decimal((-n) as nat)
    } else {
        decimal(n as nat)
    }
}

/// The contents of a list of strings.
pub open spec fn texts(v: Seq<String>) -> Seq<Seq<char>> {
    v.map_values(|s: String| s@)
}

/// The contents of an optional string.
pub open spec fn text_opt(o: Option<String>) -> Option<Seq<char>> {
    match o {
        Some(s) => Some(s@),
        None => None,
    }
}

/// The contents of an optional text.
pub open spec fn str_opt(o: Option<&str>) -> Option<Seq<char>> {
    match o {
        Some(s) => Some(s@),
        None => None,
    }
}

/// A position found from `i` on is the first one there, and one is found
/// wherever there is one.
pub proof fn position_from_is_first(s: Seq<char>, p: Seq<char>, i: int)
    requires
        0 <= i,
    ensures
        match position_from(s, p, i) {
            Some(k) => i <= k && occurs_at(s, p, k) && forall|j: int|
                i <= j < k ==> !occurs_at(s, p, j),
            None => forall|j: int| i <= j ==> !occurs_at(s, p, j),
        },
    decreases s.len() + 1 - i,
{
    if i + p.len() <= s.len() && !occurs_at(s, p, i) {
        position_from_is_first(s, p, i + 1);
    }
}

/// Text stands in another exactly where a position for it is found.
pub proof fn position_iff_part(s: Seq<char>, p: Seq<char>)
    ensures
        position(s, p) is Some <==> has_part(s, p),
{
    position_from_is_first(s, p, 0);
}

/// Joining a text between two others leaves it as a part.
pub proof fn joined_has_part(a: Seq<char>, p: Seq<char>, b: Seq<char>)
    ensures
        has_part(a + p + b, p),
{
    assert((a + p + b).subrange(a.len() as int, (a.len() + p.len()) as int) == p);
    assert(occurs_at(a + p + b, p, a.len() as int));
}

/// A part of a part is a part.
pub proof fn part_of_part(s: Seq<char>, p: Seq<char>, q: Seq<char>)
    requires
        has_part(s, p),
        has_part(p, q),
    ensures
        has_part(s, q),
{
    let i = choose|i: int| occurs_at(s, p, i);
    let j = choose|j: int| occurs_at(p, q, j);
    assert(s.subrange(i + j, i + j + q.len()) =~= p.subrange(j, j + q.len()));
    assert(occurs_at(s, q, i + j));
}

/// What is left of a text after trimming is a part of it.
pub proof fn trimmed_is_part(s: Seq<char>)
    ensures
        has_part(s, trimmed(s)),
{
    trim_start_is_part(s);
    trim_end_is_part(trim_start(s));
    part_of_part(s, trim_start(s), trimmed(s));
}

proof fn trim_start_is_part(s: Seq<char>)
    ensures
        has_part(s, trim_start(s)),
    decreases s.len(),
{
    if s.len() > 0 && is_whitespace(s.first()) {
        trim_start_is_part(s.drop_first());
        assert(s.subrange(1, s.len() as int) =~= s.drop_first());
        assert(occurs_at(s, s.drop_first(), 1));
        part_of_part(s, s.drop_first(), trim_start(s));
    } else {
        assert(s.subrange(0, s.len() as int) =~= s);
        assert(occurs_at(s, s, 0));
    }
}

proof fn trim_end_is_part(s: Seq<char>)
    ensures
        has_part(s, trim_end(s)),
    decreases s.len(),
{
    if s.len() > 0 && is_whitespace(s.last()) {
        trim_end_is_part(s.drop_last());
        assert(s.subrange(0, s.len() - 1) =~= s.drop_last());
        assert(occurs_at(s, s.drop_last(), 0));
        part_of_part(s, s.drop_last(), trim_end(s));
    } else {
        assert(s.subrange(0, s.len() as int) =~= s);
        assert(occurs_at(s, s, 0));
    }
}

/// Trimming a trimmed text changes nothing.
pub proof fn trimmed_is_stable(s: Seq<char>)
    ensures
        trimmed(trimmed(s)) == trimmed(s),
{
    let a = trim_start(s);
    trim_start_ends(s);
    trim_end_ends(a);
    if a.len() > 0 {
        trim_end_keeps_first(a);
    }
}

proof fn trim_start_ends(s: Seq<char>)
    ensures
        trim_start(s).len() > 0 ==> !is_whitespace(trim_start(s).first()),
    decreases s.len(),
{
    if s.len() > 0 && is_whitespace(s.first()) {
        trim_start_ends(s.drop_first());
    }
}

proof fn trim_end_ends(s: Seq<char>)
    ensures
        trim_end(s).len() > 0 ==> !is_whitespace(trim_end(s).last()),
    decreases s.len(),
{
    if s.len() > 0 && is_whitespace(s.last()) {
        trim_end_ends(s.drop_last());
    }
}

proof fn trim_end_keeps_first(s: Seq<char>)
    ensures
        trim_end(s).len() > 0 ==> s.len() > 0 && trim_end(s).first() == s.first(),
    decreases s.len(),
{
    if s.len() > 0 && is_whitespace(s.last()) {
        trim_end_keeps_first(s.drop_last());
    }
}

/// Tests one character for the property `White_Space`.
pub fn char_is_whitespace(c: char) -> (r: bool)
    ensures
        r == is_whitespace(c),
{
    ('\u{9}' <= c && c <= '\u{d}') || c == ' ' || c == '\u{85}' || c == '\u{a0}' || c
        == '\u{1680}' || ('\u{2000}' <= c && c <= '\u{200a}') || c == '\u{2028}' || c
        == '\u{2029}' || c == '\u{202f}' || c == '\u{205f}' || c == '\u{3000}'
}

/// The characters of `s`, one by one.
pub fn chars_of(s: &str) -> (r: Vec<char>)
    ensures
        r@ == s@,
{
    let mut r: Vec<char> = Vec::new();
    for c in it: s.chars()
        invariant
            r@ == s@.take(it.index() as int),
            it.seq() == s@,
    {
        r.push(c);
        assert(s@.take(it.index() as int + 1) == s@.take(it.index() as int).push(c));
    }
    assert(s@.take(s@.len() as int) == s@);
    r
}

/// Compares two texts character by character.
pub fn same(a: &str, b: &str) -> (r: bool)
    ensures
        r == (a@ == b@),
{
    let x = chars_of(a);
    let y = chars_of(b);
    if x.len() != y.len() {
        return false;
    }
    for i in 0..x.len()
        invariant
            x@.len() == y@.len(),
            x@ == a@,
            y@ == b@,
            forall|j: int| 0 <= j < i ==> x@[j] == y@[j],
    {
        if x[i] != y[i] {
            return false;
        }
    }
    assert(x@ =~= y@);
    true
}

/// `a` followed by `b`.
pub fn cat(a: &str, b: &str) -> (r: String)
    ensures
        r@ == a@ + b@,
{
    let mut r = a.to_owned();
    r.append(b);
    r
}

/// `a`, `b` and `c`, one after the other.
pub fn cat3(a: &str, b: &str, c: &str) -> (r: String)
    ensures
        r@ == a@ + b@ + c@,
{
    let mut r = a.to_owned();
    r.append(b);
    r.append(c);
    r
}

/// Cuts the whitespace off both ends.
pub fn trim(s: &str) -> (r: &str)
    ensures
        r@ == trimmed(s@),
{
    let cs = chars_of(s);
    let mut start: usize = 0;
    assert(s@.skip(0) == s@);
    while start < cs.len() && char_is_whitespace(cs[start])
        invariant
            start <= cs@.len(),
            cs@ == s@,
            trim_start(s@) == trim_start(s@.skip(start as int)),
        decreases cs@.len() - start,
    {
        assert(s@.skip(start as int).drop_first() == s@.skip(start + 1));
        start += 1;
    }
    assert(trim_start(s@) == s@.skip(start as int));
    let mut end: usize = cs.len();
    assert(s@.subrange(start as int, end as int) == s@.skip(start as int));
    while start < end && char_is_whitespace(cs[end - 1])
        invariant
            start <= end <= cs@.len(),
            cs@ == s@,
            trimmed(s@) == trim_end(s@.subrange(start as int, end as int)),
        decreases end,
    {
        assert(s@.subrange(start as int, end as int).drop_last() == s@.subrange(
            start as int,
            end - 1,
        ));
        end -= 1;
    }
    s.substring_char(start, end)
}

/// Looks for the first place where `p` stands in `s`, counted in characters.
pub fn find(s: &str, p: &str) -> (r: Option<usize>)
    ensures
        match r {
            Some(i) => position(s@, p@) == Some(i as int),
            None => position(s@, p@) is None,
        },
{
    let cs = chars_of(s);
    let ps = chars_of(p);
    let n = cs.len();
    let m = ps.len();
    if m > n {
        return None;
    }
    let mut i: usize = 0;
    while i <= n - m
        invariant
            m <= n,
            n == s@.len(),
            m == p@.len(),
            cs@ == s@,
            ps@ == p@,
            i <= n - m + 1,
            position(s@, p@) == position_from(s@, p@, i as int),
        decreases n - i,
    {
        let mut k: usize = 0;
        while k < m && cs[i + k] == ps[k]
            invariant
                k <= m,
                i + m <= n,
                n == s@.len(),
                m == p@.len(),
                cs@ == s@,
                ps@ == p@,
                forall|j: int| 0 <= j < k ==> s@[i + j] == p@[j],
            decreases m - k,
        {
            k += 1;
        }
        if k == m {
            assert(s@.subrange(i as int, i + m) =~= p@);
            return Some(i);
        }
        assert(s@.subrange(i as int, i + m)[k as int] != p@[k as int]);
        if i == n - m {
            assert(position_from(s@, p@, i + 1) is None);
            return None;
        }
        i += 1;
    }
    None
}

/// Tests whether `p` stands somewhere in `s`.
pub fn contains(s: &str, p: &str) -> (r: bool)
    ensures
        r == has_part(s@, p@),
{
    proof {
        position_iff_part(s@, p@);
    }
    find(s, p).is_some()
}

/// Cuts the prefix `p` off `s`, if it is there.
pub fn strip_prefix<'a>(s: &'a str, p: &str) -> (r: Option<&'a str>)
    ensures
        match r {
            Some(t) => without_prefix(s@, p@) == Some(t@),
            None => without_prefix(s@, p@) is None,
        },
{
    let n = s.unicode_len();
    let m = p.unicode_len();
    if m > n {
        return None;
    }
    assert(s@.subrange(0, m as int) == s@.take(m as int));
    assert(s@.subrange(m as int, n as int) == s@.skip(m as int));
    if same(s.substring_char(0, m), p) {
        Some(s.substring_char(m, n))
    } else {
        None
    }
}

/// Tests whether `s` begins with `p`.
pub fn starts_with(s: &str, p: &str) -> (r: bool)
    ensures
        r == p@.is_prefix_of(s@),
{
    strip_prefix(s, p).is_some()
}

/// The part of `s` before the first `p`, or all of `s`.
pub fn part_before<'a>(s: &'a str, p: &str) -> (r: &'a str)
    ensures
        r@ == before(s@, p@),
{
    match find(s, p) {
        Some(i) => {
            proof {
                position_from_is_first(s@, p@, 0);
            }
            assert(s@.subrange(0, i as int) == s@.take(i as int));
            s.substring_char(0, i)
        },
        None => s,
    }
}

/// The part of `s` from position `i` on.
pub fn part_from<'a>(s: &'a str, i: usize) -> (r: &'a str)
    requires
        i <= s@.len(),
    ensures
        r@ == s@.skip(i as int),
{
    let n = s.unicode_len();
    assert(s@.subrange(i as int, n as int) == s@.skip(i as int));
    s.substring_char(i, n)
}

/// Cuts the leading characters `c` off `s`.
pub fn strip_leading<'a>(s: &'a str, c: char) -> (r: &'a str)
    ensures
        r@ == without_leading(s@, c),
{
    let cs = chars_of(s);
    let mut i: usize = 0;
    assert(s@.skip(0) == s@);
    while i < cs.len() && cs[i] == c
        invariant
            i <= cs@.len(),
            cs@ == s@,
            without_leading(s@, c) == without_leading(s@.skip(i as int), c),
        decreases cs@.len() - i,
    {
        assert(s@.skip(i as int).drop_first() == s@.skip(i + 1));
        i += 1;
    }
    part_from(s, i)
}

/// The length of `s` in bytes.
pub fn len_in_bytes(s: &str) -> (r: usize)
    ensures
        r == byte_len(s@),
{
    s.as_bytes().len()
}

/// Writes `n` in decimal.
pub fn decimal_text(n: u64) -> (r: String)
    ensures
        r@ == decimal(n as nat),
    decreases n,
{
    let low: u8 = (n % 10) as u8;
    let c: char = (48u8 + low) as char;
    if n < 10 {
        let mut r = String::new();
        r.push(c);
        assert(r@ =~= seq![digit(n as nat)]);
        r
    } else {
        let mut r = decimal_text(n / 10);
        r.push(c);
        r
    }
}

/// Writes `n` in decimal, with a minus sign when it is negative.
pub fn signed_text(n: i32) -> (r: String)
    ensures
        r@ == signed_decimal(n as int),
{
    if n < 0 {
        let m: u64 = (-(n as i64)) as u64;
        let d = decimal_text(m);
        proof {
            reveal_strlit("-");
        }
        assert("-"@ =~= seq!['-']);
        cat("-", d.as_str())
    } else {
        decimal_text(n as u64)
    }
}

/// A text stands in another at a position exactly where all its characters do.
pub proof fn occurs_character_by_character(s: Seq<char>, p: Seq<char>, i: int)
    ensures
        occurs_at(s, p, i) <==> (0 <= i && i + p.len() <= s.len() && forall|j: int|
            0 <= j < p.len() ==> s[i + j] == #[trigger] p[j]),
{
    if 0 <= i && i + p.len() <= s.len() {
        let t = s.subrange(i, i + p.len());
        assert forall|j: int| 0 <= j < p.len() implies t[j] == s[i + j] by {}
        if forall|j: int| 0 <= j < p.len() ==> s[i + j] == #[trigger] p[j] {
            assert(t =~= p);
        }
    }
}

/// A text is a part of another exactly if it stands between two others there.
pub proof fn part_stands_between(s: Seq<char>, p: Seq<char>)
    ensures
        has_part(s, p) <==> exists|a: Seq<char>, b: Seq<char>| s == #[trigger] (a + p + b),
{
    if has_part(s, p) {
        let i = choose|i: int| occurs_at(s, p, i);
        assert(s =~= s.take(i) + p + s.skip(i + p.len()));
    }
    if exists|a: Seq<char>, b: Seq<char>| s == #[trigger] (a + p + b) {
        let (a, b) = choose|a: Seq<char>, b: Seq<char>| s == #[trigger] (a + p + b);
        joined_has_part(a, p, b);
    }
}

/// The position at which a text is found is one where it stands between what
/// comes before and what comes after, it stands nowhere before, and where none
/// is found it stands nowhere at all.
pub proof fn found_position_is_the_first(s: Seq<char>, p: Seq<char>)
    ensures
        match position(s, p) {
            Some(i) => {
                &&& 0 <= i && i + p.len() <= s.len()
                &&& s == s.take(i) + p + s.skip(i + p.len())
                &&& forall|a: Seq<char>, b: Seq<char>|
                    s == #[trigger] (a + p + b) ==> i <= a.len()
            },
            None => forall|a: Seq<char>, b: Seq<char>| s != #[trigger] (a + p + b),
        },
{
    position_from_is_first(s, p, 0);
    match position(s, p) {
        Some(i) => {
            assert(s =~= s.take(i) + p + s.skip(i + p.len()));
        },
        None => {},
    }
    assert forall|a: Seq<char>, b: Seq<char>| s == #[trigger] (a + p + b) implies occurs_at(
        s,
        p,
        a.len() as int,
    ) by {
        assert(s.subrange(a.len() as int, (a.len() + p.len()) as int) =~= p);
    }
}

/// What stands before the first `p`: text that `p` follows, and that nothing
/// shorter comes before a `p`; where there is no `p`, the whole text.
pub proof fn before_the_first(s: Seq<char>, p: Seq<char>)
    ensures
        (exists|a: Seq<char>, b: Seq<char>| s == #[trigger] (a + p + b)) ==> {
            &&& exists|b: Seq<char>| s == #[trigger] (before(s, p) + p + b)
            &&& forall|a: Seq<char>, b: Seq<char>|
                s == #[trigger] (a + p + b) ==> before(s, p).len() <= a.len()
        },
        (forall|a: Seq<char>, b: Seq<char>| s != #[trigger] (a + p + b)) ==> before(s, p) == s,
{
    found_position_is_the_first(s, p);
    match position(s, p) {
        Some(i) => {
            assert(s == before(s, p) + p + s.skip(i + p.len()));
        },
        None => {},
    }
}

/// What stands before a character that is not in the text before it is that
/// text, and of a text without the character it is the whole.
pub proof fn before_a_character(a: Seq<char>, c: char, b: Seq<char>)
    requires
        !a.contains(c),
    ensures
        before(a + seq![c] + b, seq![c]) == a,
        position(a + seq![c] + b, seq![c]) == Some(a.len() as int),
        before(a, seq![c]) == a,
        position(a, seq![c]) is None,
{
    let s = a + seq![c] + b;
    let p = seq![c];
    found_position_is_the_first(s, p);
    found_position_is_the_first(a, p);
    match position(s, p) {
        Some(i) => {
            assert(i <= a.len());
            assert((s.take(i) + p + s.skip(i + p.len()))[i] == c);
            if i < a.len() {
                assert(s[i] == a[i]);
                assert(a.contains(c));
            }
            assert(s.take(i) =~= a);
        },
        None => {
            assert(s == a + p + b);
        },
    }
    match position(a, p) {
        Some(i) => {
            assert((a.take(i) + p + a.skip(i + p.len()))[i] == c);
            assert(a[i] == c);
        },
        None => {},
    }
}

/// The prefix is cut off exactly where the text begins with it.
pub proof fn prefix_and_rest(s: Seq<char>, p: Seq<char>)
    ensures
        match without_prefix(s, p) {
            Some(rest) => s == p + rest,
            None => forall|rest: Seq<char>| s != #[trigger] (p + rest),
        },
{
    if p.is_prefix_of(s) {
        assert(s =~= p + s.skip(p.len() as int));
    }
    assert forall|rest: Seq<char>| s == #[trigger] (p + rest) implies p.is_prefix_of(s) by {
        assert(s.subrange(0, p.len() as int) =~= p);
    }
}

/// Text behind a prefix is what is left when the prefix is cut off.
pub proof fn rest_of_joined(p: Seq<char>, rest: Seq<char>)
    ensures
        without_prefix(p + rest, p) == Some(rest),
        p.is_prefix_of(p + rest),
{
    let s = p + rest;
    assert(s.subrange(0, p.len() as int) =~= p);
    assert(s.skip(p.len() as int) =~= rest);
}

/// The text has no whitespace at either end.
pub open spec fn tight(t: Seq<char>) -> bool {
    t.len() > 0 ==> !is_whitespace(t.first()) && !is_whitespace(t.last())
}

/// The text is whitespace alone.
pub open spec fn blank(w: Seq<char>) -> bool {
    forall|i: int| 0 <= i < w.len() ==> is_whitespace(#[trigger] w[i])
}

/// Trimming takes away all whitespace around a text and nothing else.
pub proof fn trimmed_between_blanks(a: Seq<char>, t: Seq<char>, b: Seq<char>)
    requires
        forall|i: int| 0 <= i < a.len() ==> is_whitespace(#[trigger] a[i]),
        forall|i: int| 0 <= i < b.len() ==> is_whitespace(#[trigger] b[i]),
        t.len() > 0 ==> !is_whitespace(t.first()) && !is_whitespace(t.last()),
    ensures
        trimmed(a + t + b) == t,
{
    let s = a + t + b;
    if t.len() > 0 {
        trim_start_behind_blank(a, t + b);
        assert(a + (t + b) =~= s);
        trim_end_before_blank(t, b);
    } else {
        assert(s =~= a + b);
        assert forall|i: int| 0 <= i < s.len() implies is_whitespace(#[trigger] s[i]) by {
            if i < a.len() {
                assert(s[i] == a[i]);
            } else {
                assert(s[i] == b[i - a.len()]);
            }
        }
        trim_start_behind_blank(s, seq![]);
        assert(s + Seq::<char>::empty() =~= s);
        assert(trim_start(s) =~= seq![]);
        assert(t =~= seq![]);
    }
}

/// Any text is its trimmed text with whitespace around it.
pub proof fn trimmed_with_blanks_around(s: Seq<char>)
    ensures
        tight(trimmed(s)),
        exists|a: Seq<char>, b: Seq<char>|
            s == #[trigger] (a + trimmed(s) + b) && blank(a) && blank(b),
{
    trim_start_splits(s);
    let (a, t) = choose|a: Seq<char>, t: Seq<char>|
        s == #[trigger] (a + t) && blank(a) && t == trim_start(s);
    trim_end_splits(t);
    let b = choose|b: Seq<char>| t == #[trigger] (trim_end(t) + b) && blank(b);
    assert(s =~= a + trimmed(s) + b);
    trim_start_ends(s);
    trim_end_ends(t);
    if trimmed(s).len() > 0 {
        trim_end_keeps_first(t);
    }
}

proof fn trim_start_splits(s: Seq<char>)
    ensures
        exists|a: Seq<char>, t: Seq<char>|
            s == #[trigger] (a + t) && blank(a) && t == trim_start(s),
    decreases s.len(),
{
    if s.len() > 0 && is_whitespace(s.first()) {
        trim_start_splits(s.drop_first());
        let (a, t) = choose|a: Seq<char>, t: Seq<char>|
            s.drop_first() == #[trigger] (a + t) && blank(a) && t == trim_start(s.drop_first());
        let w = seq![s.first()] + a;
        assert(s =~= seq![s.first()] + s.drop_first());
        assert(seq![s.first()] + (a + t) =~= w + t);
        assert forall|i: int| 0 <= i < w.len() implies is_whitespace(#[trigger] w[i]) by {
            if i > 0 {
                assert(w[i] == a[i - 1]);
            }
        }
    } else {
        let w = Seq::<char>::empty();
        assert(s =~= w + s);
        assert(blank(w));
    }
}

proof fn trim_end_splits(s: Seq<char>)
    ensures
        exists|b: Seq<char>| s == #[trigger] (trim_end(s) + b) && blank(b),
    decreases s.len(),
{
    if s.len() > 0 && is_whitespace(s.last()) {
        trim_end_splits(s.drop_last());
        let b = choose|b: Seq<char>|
            s.drop_last() == #[trigger] (trim_end(s.drop_last()) + b) && blank(b);
        let w = b.push(s.last());
        assert(s =~= s.drop_last().push(s.last()));
        assert((trim_end(s) + b).push(s.last()) =~= trim_end(s) + w);
        assert forall|i: int| 0 <= i < w.len() implies is_whitespace(#[trigger] w[i]) by {
            if i < b.len() {
                assert(w[i] == b[i]);
            }
        }
    } else {
        let w = Seq::<char>::empty();
        assert(s =~= trim_end(s) + w);
        assert(blank(w));
    }
}

proof fn trim_start_behind_blank(a: Seq<char>, t: Seq<char>)
    requires
        blank(a),
        t.len() > 0 ==> !is_whitespace(t.first()),
    ensures
        trim_start(a + t) == t,
    decreases a.len(),
{
    if a.len() == 0 {
        assert(a + t =~= t);
    } else {
        let rest = a.drop_first();
        assert(is_whitespace(a[0]));
        assert forall|i: int| 0 <= i < rest.len() implies is_whitespace(#[trigger] rest[i]) by {
            assert(rest[i] == a[i + 1]);
        }
        trim_start_behind_blank(rest, t);
        assert((a + t).drop_first() =~= rest + t);
    }
}

proof fn trim_end_before_blank(t: Seq<char>, b: Seq<char>)
    requires
        blank(b),
        t.len() > 0 ==> !is_whitespace(t.last()),
    ensures
        trim_end(t + b) == t,
    decreases b.len(),
{
    if b.len() == 0 {
        assert(t + b =~= t);
    } else {
        let rest = b.drop_last();
        assert(is_whitespace(b[b.len() - 1]));
        assert forall|i: int| 0 <= i < rest.len() implies is_whitespace(#[trigger] rest[i]) by {
            assert(rest[i] == b[i]);
        }
        trim_end_before_blank(t, rest);
        assert((t + b).drop_last() =~= t + rest);
    }
}

/// All leading characters of the kind go, however many, and nothing else.
pub proof fn leading_characters_go(n: nat, c: char, rest: Seq<char>)
    requires
        rest.len() > 0 ==> rest.first() != c,
    ensures
        without_leading(Seq::new(n, |i: int| c) + rest, c) == rest,
    decreases n,
{
    let s = Seq::new(n, |i: int| c) + rest;
    if n == 0 {
        assert(s =~= rest);
    } else {
        let m = (n - 1) as nat;
        leading_characters_go(m, c, rest);
        assert(s.drop_first() =~= Seq::new(m, |i: int| c) + rest);
    }
}

} // verus!
