//! Numbers with dots between them, such as versions that are dates.
use crate::text::{chars_of, decimal, digit, signed_decimal};
use vstd::prelude::*;

verus! {

/// A decimal digit.
pub open spec fn is_digit(c: char) -> bool {
    '0' <= c <= '9'
}

/// The text is a decimal number; leading zeros are allowed.
pub open spec fn is_number(s: Seq<char>) -> bool {
    s.len() > 0 && forall|i: int| 0 <= i < s.len() ==> is_digit(#[trigger] s[i])
}

/// The value of a digit.
pub open spec fn digit_value(c: char) -> nat {
    if is_digit(c) {
        (c as int - 48) as nat
    } else {
        0
    }
}

/// The value of a decimal number.
pub open spec fn value(s: Seq<char>) -> nat
    decreases s.len(),
{
    if s.len() == 0 {
        0
    } else {
        value(s.drop_last()) * 10 + digit_value(s.last())
    }
}

/// The parts of a text between its dots.
pub open spec fn parts(text: Seq<char>) -> Seq<Seq<char>>
    decreases text.len(),
{
    if text.len() == 0 {
        seq![seq![]]
    } else {
        let before = parts(text.drop_last());
        if text.last() == '.' {
            before.push(seq![])
        } else {
            before.drop_last().push(before.last().push(text.last()))
        }
    }
}

/// All texts are decimal numbers.
pub open spec fn all_numbers(texts: Seq<Seq<char>>) -> bool {
    forall|i: int| 0 <= i < texts.len() ==> is_number(#[trigger] texts[i])
}

/// The numbers of a text that is decimal numbers with dots between them;
/// leading zeros are allowed.
pub open spec fn numbers(text: Seq<char>) -> Option<Seq<nat>> {
    if all_numbers(parts(text)) {
        Some(parts(text).map_values(|s: Seq<char>| value(s)))
    } else {
        None
    }
}

/// The number at position `i`; a missing number counts as 0.
pub open spec fn number_at(ns: Seq<nat>, i: int) -> nat {
    if 0 <= i < ns.len() {
        ns[i]
    } else {
        0
    }
}

/// `a` and `b` differ first at position `k`, where `a` has the greater number.
pub open spec fn later_at(a: Seq<nat>, b: Seq<nat>, k: int) -> bool {
    &&& 0 <= k
    &&& number_at(a, k) > number_at(b, k)
    &&& forall|j: int| 0 <= j < k ==> #[trigger] number_at(a, j) == number_at(b, j)
}

/// `a` comes after `b`, compared from left to right.
pub open spec fn later_numbers(a: Seq<nat>, b: Seq<nat>) -> bool {
    exists|k: int| later_at(a, b, k)
}

/// The contents of a list of texts, each given by its characters.
pub open spec fn pieces(v: Seq<Vec<char>>) -> Seq<Seq<char>> {
    v.map_values(|p: Vec<char>| p@)
}

/// Numbers are ordered: none comes after itself, of two at most one comes after
/// the other, what comes after a later one comes after the earlier one too, and
/// where neither comes after the other they are the same up to zeros at the end.
pub proof fn numbers_are_ordered(a: Seq<nat>, b: Seq<nat>, c: Seq<nat>)
    ensures
        !later_numbers(a, a),
        later_numbers(a, b) ==> !later_numbers(b, a),
        later_numbers(a, b) && later_numbers(b, c) ==> later_numbers(a, c),
        !later_numbers(a, b) && !later_numbers(b, a) ==> forall|k: int|
            #[trigger] number_at(a, k) == number_at(b, k),
{
    if later_numbers(a, b) {
        let k = choose|k: int| later_at(a, b, k);
        if later_numbers(b, a) {
            let m = choose|m: int| later_at(b, a, m);
            if m < k {
                assert(number_at(a, m) == number_at(b, m));
            } else if k < m {
                assert(number_at(b, k) == number_at(a, k));
            }
        }
        if later_numbers(b, c) {
            let m = choose|m: int| later_at(b, c, m);
            let n = if k < m {
                k
            } else {
                m
            };
            assert forall|j: int| 0 <= j < n implies #[trigger] number_at(a, j) == number_at(c, j) by {
                assert(number_at(a, j) == number_at(b, j));
                assert(number_at(b, j) == number_at(c, j));
            }
            if k < m {
                assert(number_at(b, k) == number_at(c, k));
            } else if m < k {
                assert(number_at(a, m) == number_at(b, m));
            }
            assert(later_at(a, c, n));
        }
    }
    if !later_numbers(a, b) && !later_numbers(b, a) {
        assert forall|k: int| #[trigger] number_at(a, k) == number_at(b, k) by {
            if 0 <= k && number_at(a, k) != number_at(b, k) {
                difference_orders(a, b, k);
            }
        }
    }
}

proof fn difference_orders(a: Seq<nat>, b: Seq<nat>, k: int)
    requires
        0 <= k,
        number_at(a, k) != number_at(b, k),
    ensures
        later_numbers(a, b) || later_numbers(b, a),
    decreases k,
{
    if exists|j: int| 0 <= j < k && #[trigger] number_at(a, j) != number_at(b, j) {
        let j = choose|j: int| 0 <= j < k && #[trigger] number_at(a, j) != number_at(b, j);
        difference_orders(a, b, j);
    } else {
        assert forall|j: int| 0 <= j < k implies #[trigger] number_at(b, j) == number_at(a, j) by {
            assert(number_at(a, j) == number_at(b, j));
        }
        assert(later_at(a, b, k) || later_at(b, a, k));
    }
}

/// The characters of a text with numbers are digits and dots.
pub proof fn numbers_have_digits_and_dots(text: Seq<char>)
    requires
        numbers(text) is Some,
    ensures
        forall|i: int| 0 <= i < text.len() ==> is_digit(#[trigger] text[i]) || text[i] == '.',
{
    assert forall|i: int| 0 <= i < text.len() implies is_digit(#[trigger] text[i]) || text[i]
        == '.' by {
        if text[i] != '.' {
            part_holds(text, i);
            let (k, j) = choose|k: int, j: int|
                0 <= k < parts(text).len() && 0 <= j < parts(text)[k].len() && #[trigger] parts(
                    text,
                )[k][j] == text[i];
            assert(is_number(parts(text)[k]));
        }
    }
}

proof fn part_holds(text: Seq<char>, i: int)
    requires
        0 <= i < text.len(),
        text[i] != '.',
    ensures
        parts(text).len() > 0,
        exists|k: int, j: int|
            0 <= k < parts(text).len() && 0 <= j < parts(text)[k].len() && #[trigger] parts(
                text,
            )[k][j] == text[i],
    decreases text.len(),
{
    let before = parts(text.drop_last());
    parts_exist(text.drop_last());
    let ps = parts(text);
    if i == text.len() - 1 {
        assert(ps.last()[before.last().len() as int] == text[i]);
    } else {
        part_holds(text.drop_last(), i);
        let (k, j) = choose|k: int, j: int|
            0 <= k < before.len() && 0 <= j < before[k].len() && #[trigger] before[k][j]
                == text.drop_last()[i];
        assert(ps[k][j] == text[i]);
    }
}

proof fn parts_exist(text: Seq<char>)
    ensures
        parts(text).len() > 0,
    decreases text.len(),
{
    if text.len() > 0 {
        parts_exist(text.drop_last());
    }
}

/// A number in decimal is a number of its value.
pub proof fn decimal_is_number(n: nat)
    ensures
        is_number(decimal(n)),
        value(decimal(n)) == n,
    decreases n,
{
    let s = decimal(n);
    assert(48 <= digit(n % 10) as int <= 57);
    if n < 10 {
        assert(s.drop_last() =~= seq![]);
        assert(value(s.drop_last()) == 0);
    } else {
        decimal_is_number(n / 10);
        assert(s.drop_last() =~= decimal(n / 10));
    }
}

/// A number behind a dot is the last part.
pub proof fn number_behind_dot(text: Seq<char>, s: Seq<char>)
    requires
        forall|i: int| 0 <= i < s.len() ==> is_digit(#[trigger] s[i]),
    ensures
        parts(text.push('.') + s) == parts(text).push(s),
        parts(s) == seq![s],
    decreases s.len(),
{
    let whole = text.push('.') + s;
    if s.len() == 0 {
        assert(whole =~= text.push('.'));
        assert(whole.drop_last() =~= text);
        assert(s =~= seq![]);
    } else {
        number_behind_dot(text, s.drop_last());
        assert(whole.drop_last() =~= text.push('.') + s.drop_last());
        assert(is_digit(s[s.len() - 1]));
        assert(s.drop_last().push(s.last()) =~= s);
        assert(parts(text).push(s.drop_last()).drop_last() =~= parts(text));
        assert(parts(s) =~= seq![s]);
    }
}

/// Splits a text at its dots.
fn split(text: &str) -> (r: Vec<Vec<char>>)
    ensures
        pieces(r@) == parts(text@),
{
    let cs = chars_of(text);
    let mut done: Vec<Vec<char>> = Vec::new();
    let mut current: Vec<char> = Vec::new();
    assert(pieces(done@).push(current@) =~= parts(cs@.take(0)));
    for i in 0..cs.len()
        invariant
            pieces(done@).push(current@) == parts(cs@.take(i as int)),
    {
        let ghost before = pieces(done@);
        let ghost part = current@;
        assert(cs@.take(i + 1).drop_last() =~= cs@.take(i as int));
        assert(before.push(part).drop_last() =~= before);
        if cs[i] == '.' {
            done.push(current);
            current = Vec::new();
            assert(pieces(done@) =~= before.push(part));
            assert(current@ =~= seq![]);
        } else {
            current.push(cs[i]);
        }
    }
    let ghost before = pieces(done@);
    let ghost part = current@;
    done.push(current);
    assert(pieces(done@) =~= before.push(part));
    assert(cs@.take(cs@.len() as int) =~= cs@);
    done
}

/// Tests whether all texts are decimal numbers.
fn are_numbers(v: &Vec<Vec<char>>) -> (r: bool)
    ensures
        r == all_numbers(pieces(v@)),
{
    for i in 0..v.len()
        invariant
            forall|k: int| 0 <= k < i ==> is_number(#[trigger] pieces(v@)[k]),
    {
        let piece = &v[i];
        assert(piece@ == pieces(v@)[i as int]);
        if piece.len() == 0 {
            return false;
        }
        for j in 0..piece.len()
            invariant
                0 <= i < v@.len(),
                piece@ == pieces(v@)[i as int],
                forall|m: int| 0 <= m < j ==> is_digit(#[trigger] piece@[m]),
        {
            if piece[j] < '0' || piece[j] > '9' {
                assert(!is_digit(pieces(v@)[i as int][j as int]));
                return false;
            }
        }
    }
    true
}

/// A number with zeros in front of it, `n` digits long.
pub open spec fn padded(s: Seq<char>, n: nat) -> Seq<char> {
    Seq::new(
        n,
        |i: int|
            if i < n - s.len() {
                '0'
            } else {
                s[i - (n - s.len())]
            },
    )
}

proof fn padding_keeps_value(s: Seq<char>, n: nat)
    requires
        s.len() <= n,
    ensures
        value(padded(s, n)) == value(s),
    decreases n,
{
    if n > 0 {
        let m = (n - 1) as nat;
        if s.len() == 0 {
            padding_keeps_value(s, m);
            assert(padded(s, n).drop_last() =~= padded(s, m));
        } else {
            padding_keeps_value(s.drop_last(), m);
            assert(padded(s, n).drop_last() =~= padded(s.drop_last(), m));
        }
    }
}

/// The digit at position `i` of a number that is padded to `n` digits.
fn padded_digit(s: &Vec<char>, n: usize, i: usize) -> (r: u8)
    requires
        s@.len() <= n,
        i < n,
        forall|k: int| 0 <= k < s@.len() ==> is_digit(#[trigger] s@[k]),
    ensures
        r == digit_value(padded(s@, n as nat)[i as int]),
        r <= 9,
{
    let front: usize = n - s.len();
    if i < front {
        0
    } else {
        let c = s[i - front];
        assert(is_digit(s@[i - front]));
        c as u8 - 48
    }
}

/// Compares two decimal numbers: whether the first is less, and whether it is
/// greater.
fn order_of(a: &Vec<char>, b: &Vec<char>) -> (r: (bool, bool))
    requires
        forall|k: int| 0 <= k < a@.len() ==> is_digit(#[trigger] a@[k]),
        forall|k: int| 0 <= k < b@.len() ==> is_digit(#[trigger] b@[k]),
    ensures
        r.0 == (value(a@) < value(b@)),
        r.1 == (value(a@) > value(b@)),
{
    let n: usize = if a.len() < b.len() {
        b.len()
    } else {
        a.len()
    };
    let ghost x = padded(a@, n as nat);
    let ghost y = padded(b@, n as nat);
    let mut less = false;
    let mut greater = false;
    for i in 0..n
        invariant
            a@.len() <= n,
            b@.len() <= n,
            x == padded(a@, n as nat),
            y == padded(b@, n as nat),
            forall|k: int| 0 <= k < a@.len() ==> is_digit(#[trigger] a@[k]),
            forall|k: int| 0 <= k < b@.len() ==> is_digit(#[trigger] b@[k]),
            less == (value(x.take(i as int)) < value(y.take(i as int))),
            greater == (value(x.take(i as int)) > value(y.take(i as int))),
    {
        let d: u8 = padded_digit(a, n, i);
        let e: u8 = padded_digit(b, n, i);
        assert(x.take(i + 1).drop_last() =~= x.take(i as int));
        assert(y.take(i + 1).drop_last() =~= y.take(i as int));
        if !less && !greater {
            less = d < e;
            greater = d > e;
        }
    }
    proof {
        assert(x.take(n as int) =~= x);
        assert(y.take(n as int) =~= y);
        padding_keeps_value(a@, n as nat);
        padding_keeps_value(b@, n as nat);
    }
    (less, greater)
}

/// Compares two texts with numbers, given by their parts.
fn pieces_later(a: &Vec<Vec<char>>, b: &Vec<Vec<char>>) -> (r: bool)
    requires
        all_numbers(pieces(a@)),
        all_numbers(pieces(b@)),
    ensures
        r == later_numbers(
            pieces(a@).map_values(|s: Seq<char>| value(s)),
            pieces(b@).map_values(|s: Seq<char>| value(s)),
        ),
{
    let ghost x = pieces(a@).map_values(|s: Seq<char>| value(s));
    let ghost y = pieces(b@).map_values(|s: Seq<char>| value(s));
    let zero: Vec<char> = Vec::new();
    let n: usize = if a.len() < b.len() {
        b.len()
    } else {
        a.len()
    };
    for i in 0..n
        invariant
            a@.len() <= n,
            b@.len() <= n,
            zero@.len() == 0,
            all_numbers(pieces(a@)),
            all_numbers(pieces(b@)),
            x == pieces(a@).map_values(|s: Seq<char>| value(s)),
            y == pieces(b@).map_values(|s: Seq<char>| value(s)),
            forall|j: int| 0 <= j < i ==> #[trigger] number_at(x, j) == number_at(y, j),
    {
        let p: &Vec<char> = if i < a.len() {
            &a[i]
        } else {
            &zero
        };
        let q: &Vec<char> = if i < b.len() {
            &b[i]
        } else {
            &zero
        };
        proof {
            if i < a@.len() {
                assert(is_number(pieces(a@)[i as int]));
            }
            if i < b@.len() {
                assert(is_number(pieces(b@)[i as int]));
            }
            assert(number_at(x, i as int) == value(p@));
            assert(number_at(y, i as int) == value(q@));
        }
        let (less, greater) = order_of(p, q);
        if greater {
            assert(later_at(x, y, i as int));
            return true;
        }
        if less {
            assert forall|k: int| !later_at(x, y, k) by {
                if 0 <= k < i {
                    assert(number_at(x, k) == number_at(y, k));
                } else if k > i {
                    assert(number_at(x, i as int) != number_at(y, i as int));
                }
            }
            return false;
        }
    }
    assert forall|k: int| !later_at(x, y, k) by {
        if 0 <= k < n {
            assert(number_at(x, k) == number_at(y, k));
        }
    }
    false
}

/// Compares two texts that are numbers with dots between them: whether the
/// first comes after the second. Of other texts nothing is told.
pub fn numbers_later(a: &str, b: &str) -> (r: Option<bool>)
    ensures
        r == match (numbers(a@), numbers(b@)) {
            (Some(x), Some(y)) => Some(later_numbers(x, y)),
            _ => None,
        },
{
    let x = split(a);
    let y = split(b);
    if are_numbers(&x) && are_numbers(&y) {
        Some(pieces_later(&x, &y))
    } else {
        None
    }
}

/// Leading zeros do not count.
pub proof fn leading_zeros_do_not_count(n: nat, s: Seq<char>)
    ensures
        value(Seq::new(n, |i: int| '0') + s) == value(s),
{
    let len = n + s.len();
    padding_keeps_value(s, len);
    assert(padded(s, len) =~= Seq::new(n, |i: int| '0') + s);
}

/// Digits in decimal count ten times as much for each place to the left, and
/// only zero is written with a leading zero.
pub proof fn decimal_places(s: Seq<char>, c: char, n: nat)
    requires
        '0' <= c <= '9',
    ensures
        value(s.push(c)) == 10 * value(s) + (c as int - '0' as int),
        value(seq![]) == 0,
        value(decimal(n)) == n,
        decimal(n).len() > 0,
        decimal(n)[0] == '0' ==> n == 0,
        forall|i: int| 0 <= i < decimal(n).len() ==> '0' <= #[trigger] decimal(n)[i] <= '9',
{
    assert(s.push(c).drop_last() =~= s);
    decimal_is_number(n);
    first_digit(n);
    assert forall|i: int| 0 <= i < decimal(n).len() implies '0' <= #[trigger] decimal(n)[i]
        <= '9' by {
        assert(is_digit(decimal(n)[i]));
    }
}

proof fn first_digit(n: nat)
    ensures
        decimal(n).len() > 0,
        decimal(n)[0] == '0' ==> n == 0,
    decreases n,
{
    assert(digit(n % 10) as int == 48 + n % 10);
    if n >= 10 {
        first_digit(n / 10);
        assert(decimal(n)[0] == decimal(n / 10)[0]);
    }
}

/// A negative number is written as its amount behind a minus sign, any other
/// as it is.
pub proof fn sign_and_amount(n: int)
    ensures
        n < 0 ==> signed_decimal(n) == seq!['-'] + decimal((-n) as nat),
        n >= 0 ==> signed_decimal(n) == decimal(n as nat),
{
}

/// Where numbers are the same up to a place, the greater number at that place
/// decides, whatever comes after.
pub proof fn first_difference_decides(
    p: Seq<nat>,
    x: nat,
    y: nat,
    s: Seq<nat>,
    t: Seq<nat>,
)
    requires
        x != y,
    ensures
        later_numbers(p + seq![x] + s, p + seq![y] + t) == (x > y),
{
    let a = p + seq![x] + s;
    let b = p + seq![y] + t;
    let n = p.len() as int;
    assert(number_at(a, n) == x);
    assert(number_at(b, n) == y);
    assert forall|j: int| 0 <= j < n implies #[trigger] number_at(a, j) == number_at(b, j) by {
        assert(a[j] == p[j] && b[j] == p[j]);
    }
    if x > y {
        assert(later_at(a, b, n));
    } else {
        assert forall|j: int| 0 <= j < n implies #[trigger] number_at(b, j) == number_at(a, j) by {
            assert(number_at(a, j) == number_at(b, j));
        }
        assert(later_at(b, a, n));
        numbers_are_ordered(b, a, b);
    }
}

/// More numbers come after fewer exactly if one of those that are added is
/// not 0.
pub proof fn added_numbers_decide(p: Seq<nat>, s: Seq<nat>)
    ensures
        later_numbers(p + s, p) <==> exists|k: int| 0 <= k < s.len() && #[trigger] s[k] > 0,
        !later_numbers(p, p + s),
{
    let a = p + s;
    assert forall|j: int| 0 <= j < p.len() implies #[trigger] number_at(a, j) == number_at(p, j) by {
        assert(a[j] == p[j]);
    }
    if exists|k: int| 0 <= k < s.len() && #[trigger] s[k] > 0 {
        let k = choose|k: int| 0 <= k < s.len() && #[trigger] s[k] > 0;
        assert(number_at(a, p.len() + k) == s[k]);
        assert(number_at(p, p.len() + k) == 0);
        difference_orders(a, p, p.len() + k);
    }
    assert forall|k: int| !later_at(p, a, k) by {
        if 0 <= k < p.len() {
            assert(number_at(a, k) == number_at(p, k));
        }
    }
    if later_numbers(a, p) {
        let k = choose|k: int| later_at(a, p, k);
        if k < p.len() {
            assert(number_at(a, k) == number_at(p, k));
        }
        assert(number_at(a, k) > 0);
        assert(s[k - p.len()] == a[k]);
    }
}

/// A text is read as numbers part by part: one number for itself, and a number
/// behind a dot after the numbers before it; anything but digits in a part, or
/// an empty part, and it has no numbers.
pub proof fn numbers_part_by_part(text: Seq<char>, s: Seq<char>)
    requires
        !s.contains('.'),
    ensures
        (s.len() > 0 && forall|i: int| 0 <= i < s.len() ==> '0' <= #[trigger] s[i] <= '9') ==> {
            &&& numbers(s) == Some(seq![value(s)])
            &&& numbers(text) is Some ==> numbers(text + seq!['.'] + s) == Some(
                numbers(text)->0.push(value(s)),
            )
        },
        numbers(text) is None ==> numbers(text + seq!['.'] + s) is None,
        !(s.len() > 0 && forall|i: int| 0 <= i < s.len() ==> '0' <= #[trigger] s[i] <= '9') ==> {
            &&& numbers(s) is None
            &&& numbers(text + seq!['.'] + s) is None
        },
{
    let whole = text + seq!['.'] + s;
    part_behind_dot(text, s);
    assert(whole =~= text.push('.') + s);
    let ps = parts(text);
    let all = ps.push(s);
    assert(parts(whole) == all);
    let good = s.len() > 0 && forall|i: int| 0 <= i < s.len() ==> '0' <= #[trigger] s[i] <= '9';
    if good {
        assert(is_number(s));
        assert(parts(s).map_values(|s: Seq<char>| value(s)) =~= seq![value(s)]);
        if numbers(text) is Some {
            assert(all_numbers(all));
            assert(all.map_values(|s: Seq<char>| value(s)) =~= ps.map_values(
                |s: Seq<char>| value(s),
            ).push(value(s)));
        }
    } else {
        assert(!is_number(s)) by {
            if is_number(s) {
                assert forall|i: int| 0 <= i < s.len() implies '0' <= #[trigger] s[i] <= '9' by {
                    assert(is_digit(s[i]));
                }
            }
        }
        assert(parts(s)[0] == s);
        assert(all[ps.len() as int] == s);
    }
    if numbers(text) is None {
        let k = choose|k: int| 0 <= k < ps.len() && !is_number(#[trigger] ps[k]);
        assert(all[k] == ps[k]);
    }
}

proof fn part_behind_dot(text: Seq<char>, s: Seq<char>)
    requires
        !s.contains('.'),
    ensures
        parts(text.push('.') + s) == parts(text).push(s),
        parts(s) == seq![s],
    decreases s.len(),
{
    let whole = text.push('.') + s;
    if s.len() == 0 {
        assert(whole =~= text.push('.'));
        assert(whole.drop_last() =~= text);
        assert(s =~= seq![]);
    } else {
        let shorter = s.drop_last();
        assert(!shorter.contains('.')) by {
            if shorter.contains('.') {
                let i = choose|i: int| 0 <= i < shorter.len() && shorter[i] == '.';
                assert(s[i] == '.');
            }
        }
        assert(s[s.len() - 1] != '.');
        part_behind_dot(text, shorter);
        assert(whole.drop_last() =~= text.push('.') + shorter);
        assert(shorter.push(s.last()) =~= s);
        assert(parts(text).push(shorter).drop_last() =~= parts(text));
        assert(parts(s) =~= seq![s]);
    }
}

} // verus!
