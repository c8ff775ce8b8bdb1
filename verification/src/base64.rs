//! Base64, for pictures that are handed on as text.
use vstd::prelude::*;

verus! {

/// The character that stands for six bits.
pub open spec fn sextet(v: int) -> char {
    if v < 26 {
        (65 + v) as char
    } else if v < 52 {
        (97 + v - 26) as char
    } else if v < 62 {
        (48 + v - 52) as char
    } else if v == 62 {
        '+'
    } else {
        '/'
    }
}

/// The byte at position `i`, or 0 behind the end.
pub open spec fn byte_or_zero(b: Seq<u8>, i: int) -> int {
    if i < b.len() {
        b[i] as int
    } else {
        0
    }
}

/// The first three bytes as one number; missing ones count as 0.
pub open spec fn triple(b: Seq<u8>) -> int {
    byte_or_zero(b, 0) * 65536 + byte_or_zero(b, 1) * 256 + byte_or_zero(b, 2)
}

/// The four characters for the first three bytes, padded where there are
/// fewer.
pub open spec fn quad(b: Seq<u8>) -> Seq<char> {
    let t = triple(b);
    seq![
        sextet(t / 262144),
        sextet(t / 4096 % 64),
        if b.len() > 1 {
            sextet(t / 64 % 64)
        } else {
            '='
        },
        if b.len() > 2 {
            sextet(t % 64)
        } else {
            '='
        },
    ]
}

/// The text of bytes in Base64: four characters for every three bytes, the
/// last group padded.
pub open spec fn encoded(b: Seq<u8>) -> Seq<char>
    decreases b.len(),
{
    if b.len() == 0 {
        seq![]
    } else if b.len() <= 3 {
        quad(b)
    } else {
        quad(b) + encoded(b.skip(3))
    }
}

/// The six bits that a character stands for.
pub open spec fn bits(c: char) -> Option<int> {
    if 'A' <= c <= 'Z' {
        Some(c as int - 65)
    } else if 'a' <= c <= 'z' {
        Some(c as int - 97 + 26)
    } else if '0' <= c <= '9' {
        Some(c as int - 48 + 52)
    } else if c == '+' {
        Some(62)
    } else if c == '/' {
        Some(63)
    } else {
        None
    }
}

/// The bytes in the first four characters of a text in Base64.
pub open spec fn unquad(s: Seq<char>) -> Option<Seq<u8>> {
    match (bits(s[0]), bits(s[1]), bits(s[2]), bits(s[3])) {
        (Some(a), Some(b), Some(c), Some(d)) => Some(
            seq![
                ((a * 64 + b) / 16) as u8,
                ((b * 64 + c) / 4 % 256) as u8,
                (c % 4 * 64 + d) as u8,
            ],
        ),
        (Some(a), Some(b), Some(c), None) => if s[3] == '=' {
            Some(seq![((a * 64 + b) / 16) as u8, ((b * 64 + c) / 4 % 256) as u8])
        } else {
            None
        },
        (Some(a), Some(b), None, None) => if s[2] == '=' && s[3] == '=' {
            Some(seq![((a * 64 + b) / 16) as u8])
        } else {
            None
        },
        _ => None,
    }
}

/// The bytes that a text in Base64 stands for.
pub open spec fn decoded(s: Seq<char>) -> Option<Seq<u8>>
    decreases s.len(),
{
    if s.len() == 0 {
        Some(seq![])
    } else if s.len() < 4 {
        None
    } else {
        match (unquad(s), decoded(s.skip(4))) {
            (Some(a), Some(b)) => Some(a + b),
            _ => None,
        }
    }
}

proof fn bits_of_sextet(v: int)
    requires
        0 <= v < 64,
    ensures
        bits(sextet(v)) == Some(v),
        sextet(v) != '=',
{
}

/// How three bytes fall into four groups of six bits.
proof fn groups_of_six(x: int, y: int, z: int)
    requires
        0 <= x < 256,
        0 <= y < 256,
        0 <= z < 256,
    ensures
        ({
            let t = x * 65536 + y * 256 + z;
            &&& t / 262144 == x / 4
            &&& t / 4096 % 64 == x % 4 * 16 + y / 16
            &&& t / 64 % 64 == y % 16 * 4 + z / 64
            &&& t % 64 == z % 64
        }),
{
    let (x1, x0) = (x / 4, x % 4);
    let (y1, y0) = (y / 16, y % 16);
    let (z1, z0) = (z / 64, z % 64);
    let t = x * 65536 + y * 256 + z;
    assert(t == x1 * 262144 + x0 * 65536 + y1 * 4096 + y0 * 256 + z1 * 64 + z0);
    assert(t / 64 == x1 * 4096 + x0 * 1024 + y1 * 64 + y0 * 4 + z1);
    assert(t / 4096 == x1 * 64 + x0 * 16 + y1);
    assert(t / 262144 == x1);
}

/// How the groups of six bits join into the three bytes again.
proof fn bytes_of_groups(x: int, y: int, z: int)
    requires
        0 <= x < 256,
        0 <= y < 256,
        0 <= z < 256,
    ensures
        ({
            let (p, q, r, s) = (x / 4, x % 4 * 16 + y / 16, y % 16 * 4 + z / 64, z % 64);
            &&& 0 <= p < 64
            &&& 0 <= q < 64
            &&& 0 <= r < 64
            &&& 0 <= s < 64
            &&& (p * 64 + q) / 16 == x
            &&& (q * 64 + r) / 4 % 256 == y
            &&& r % 4 * 64 + s == z
        }),
{
    let (x1, x0) = (x / 4, x % 4);
    let (y1, y0) = (y / 16, y % 16);
    let (z1, z0) = (z / 64, z % 64);
    let q = x0 * 16 + y1;
    let r = y0 * 4 + z1;
    assert(x == x1 * 4 + x0 && y == y1 * 16 + y0 && z == z1 * 64 + z0);
    assert((x1 * 64 + q) / 16 == x1 * 4 + x0);
    assert((q * 64 + r) / 4 == x0 * 256 + y1 * 16 + y0);
    assert((x0 * 256 + y) % 256 == y);
    assert(r % 4 == z1);
}

proof fn unquad_of_quad(b: Seq<u8>)
    requires
        b.len() > 0,
    ensures
        unquad(quad(b)) == Some(
            if b.len() < 3 {
                b
            } else {
                b.take(3)
            },
        ),
{
    let t = triple(b);
    let (x, y, z) = (byte_or_zero(b, 0), byte_or_zero(b, 1), byte_or_zero(b, 2));
    groups_of_six(x, y, z);
    bytes_of_groups(x, y, z);
    bits_of_sextet(x / 4);
    bits_of_sextet(x % 4 * 16 + y / 16);
    bits_of_sextet(y % 16 * 4 + z / 64);
    bits_of_sextet(z % 64);
    let got = unquad(quad(b))->0;
    if b.len() == 1 {
        assert(got =~= b);
    } else if b.len() == 2 {
        assert(got =~= b);
    } else {
        assert(got =~= b.take(3));
    }
}

/// Decoding gives back the bytes that were encoded.
pub proof fn decoding_undoes_encoding(b: Seq<u8>)
    ensures
        decoded(encoded(b)) == Some(b),
    decreases b.len(),
{
    let e = encoded(b);
    if b.len() == 0 {
        assert(e =~= seq![]);
        assert(b =~= seq![]);
    } else {
        unquad_of_quad(b);
        let tail = if b.len() <= 3 {
            seq![]
        } else {
            b.skip(3)
        };
        assert(e.skip(4) =~= encoded(tail));
        assert(unquad(e) == unquad(quad(b)));
        if b.len() > 3 {
            decoding_undoes_encoding(tail);
            assert(b.take(3) + b.skip(3) =~= b);
        } else {
            assert(decoded(e.skip(4)) == Some(Seq::<u8>::empty()));
            assert(unquad(e)->0 + Seq::<u8>::empty() =~= b);
        }
    }
}

/// The text has four characters for every three bytes, rounded up.
pub proof fn encoded_length(b: Seq<u8>)
    ensures
        encoded(b).len() == (b.len() + 2) / 3 * 4,
    decreases b.len(),
{
    if b.len() > 3 {
        encoded_length(b.skip(3));
    }
}

/// How many padding characters the text of `n` bytes has.
pub open spec fn padding(n: nat) -> int {
    (3 - n % 3) % 3
}

/// Padding characters stand at the end alone: none, one or two of them, so that
/// the text of the last group is full.
pub proof fn padding_is_at_the_end(b: Seq<u8>)
    ensures
        padding(b.len()) <= encoded(b).len(),
        forall|i: int|
            0 <= i < encoded(b).len() ==> ((#[trigger] encoded(b)[i]) == '=' <==> i
                >= encoded(b).len() - padding(b.len())),
    decreases b.len(),
{
    let e = encoded(b);
    let t = triple(b);
    if b.len() > 0 {
        bits_of_sextet(t / 262144);
        bits_of_sextet(t / 4096 % 64);
        bits_of_sextet(t / 64 % 64);
        bits_of_sextet(t % 64);
    }
    if b.len() > 3 {
        let tail = b.skip(3);
        padding_is_at_the_end(tail);
        assert(e == quad(b) + encoded(tail));
        assert(padding(tail.len()) == padding(b.len()));
        assert forall|i: int| 0 <= i < e.len() implies ((#[trigger] e[i]) == '=' <==> i >= e.len()
            - padding(b.len())) by {
            if i >= 4 {
                assert(e[i] == encoded(tail)[i - 4]);
            }
        }
    }
}

/// Bytes that come in full groups of three are encoded for themselves: their
/// text and the text of the rest are joined.
pub proof fn full_groups_are_joined(a: Seq<u8>, b: Seq<u8>)
    requires
        a.len() % 3 == 0,
    ensures
        encoded(a + b) == encoded(a) + encoded(b),
    decreases a.len(),
{
    if a.len() == 0 {
        assert(a + b =~= b);
        assert(encoded(a) + encoded(b) =~= encoded(b));
    } else {
        let tail = a.skip(3);
        full_groups_are_joined(tail, b);
        assert((a + b).skip(3) =~= tail + b);
        assert(quad(a + b) =~= quad(a));
        if a.len() == 3 {
            assert(tail =~= seq![]);
            assert(encoded(a) =~= quad(a) + encoded(tail));
        }
        if (a + b).len() == 3 {
            assert(b =~= seq![]);
            assert(encoded(a) + encoded(b) =~= encoded(a));
            assert(a + b =~= a);
        } else {
            assert(quad(a) + (encoded(tail) + encoded(b)) =~= (quad(a) + encoded(tail)) + encoded(
                b,
            ));
        }
    }
}

/// The character that stands for six bits.
fn sextet_char(v: u32) -> (r: char)
    requires
        v < 64,
    ensures
        r == sextet(v as int),
{
    let n: u8 = v as u8;
    if n < 26 {
        (65u8 + n) as char
    } else if n < 52 {
        (97u8 + (n - 26)) as char
    } else if n < 62 {
        (48u8 + (n - 52)) as char
    } else if n == 62 {
        '+'
    } else {
        '/'
    }
}

/// Writes bytes in Base64.
pub fn base64_encode(bytes: &[u8]) -> (r: String)
    ensures
        r@ == encoded(bytes@),
{
    let mut out = String::new();
    let n = bytes.len();
    let mut i: usize = 0;
    assert(bytes@.skip(0) =~= bytes@);
    while i < n
        invariant
            i <= n,
            n == bytes@.len(),
            encoded(bytes@) == out@ + encoded(bytes@.skip(i as int)),
        decreases n - i,
    {
        let left = n - i;
        let ghost rest = bytes@.skip(i as int);
        let ghost before = out@;
        let b0: u32 = bytes[i] as u32;
        let b1: u32 = if left > 1 {
            bytes[i + 1] as u32
        } else {
            0
        };
        let b2: u32 = if left > 2 {
            bytes[i + 2] as u32
        } else {
            0
        };
        let t: u32 = b0 * 65536 + b1 * 256 + b2;
        assert(t == triple(rest));
        out.push(sextet_char(t / 262144));
        out.push(sextet_char(t / 4096 % 64));
        if left > 1 {
            out.push(sextet_char(t / 64 % 64));
        } else {
            out.push('=');
        }
        if left > 2 {
            out.push(sextet_char(t % 64));
        } else {
            out.push('=');
        }
        assert(out@ =~= before + quad(rest));
        if left <= 3 {
            i = n;
            assert(bytes@.skip(n as int) =~= seq![]);
            assert(out@ + encoded(bytes@.skip(n as int)) =~= encoded(bytes@));
        } else {
            assert(rest.skip(3) =~= bytes@.skip(i + 3));
            i += 3;
            assert(out@ + encoded(bytes@.skip(i as int)) =~= before + (quad(rest) + encoded(
                bytes@.skip(i as int),
            )));
        }
    }
    assert(bytes@.skip(n as int) =~= seq![]);
    assert(out@ + encoded(seq![]) =~= out@);
    out
}

/// Six bits stand for the character at their place in the alphabet.
pub proof fn alphabet_is_the_usual_one(v: int)
    requires
        0 <= v < 64,
    ensures
        "ABCDEFGHIJKLMNOPQRSTUVWXYZabcdefghijklmnopqrstuvwxyz0123456789+/"@.len() == 64,
        sextet(v) == "ABCDEFGHIJKLMNOPQRSTUVWXYZabcdefghijklmnopqrstuvwxyz0123456789+/"@[v],
{
    reveal_strlit("ABCDEFGHIJKLMNOPQRSTUVWXYZabcdefghijklmnopqrstuvwxyz0123456789+/");
}

/// Three bytes, read as one number from the first to the last, give four
/// characters of six bits each, from the first to the last.
pub proof fn three_bytes_give_four_characters(x: u8, y: u8, z: u8)
    ensures
        ({
            let e = encoded(seq![x, y, z]);
            &&& e.len() == 4
            &&& forall|i: int| 0 <= i < 4 ==> bits(#[trigger] e[i]) is Some
            &&& ((bits(e[0])->0 * 64 + bits(e[1])->0) * 64 + bits(e[2])->0) * 64 + bits(e[3])->0
                == (x * 256 + y) * 256 + z
        }),
{
    let b = seq![x, y, z];
    let e = encoded(b);
    let t = triple(b);
    assert(e =~= quad(b));
    groups_of_six(x as int, y as int, z as int);
    bits_of_sextet(t / 262144);
    bits_of_sextet(t / 4096 % 64);
    bits_of_sextet(t / 64 % 64);
    bits_of_sextet(t % 64);
    assert(t == (x * 256 + y) * 256 + z);
}

/// A rest of one or two bytes is encoded as if zeros followed, with padding in
/// place of the characters that hold nothing of it.
pub proof fn rest_is_padded(x: u8, y: u8)
    ensures
        encoded(seq![x]) == encoded(seq![x, 0, 0]).take(2) + "=="@,
        encoded(seq![x, y]) == encoded(seq![x, y, 0]).take(3) + "="@,
        encoded(seq![]) == Seq::<char>::empty(),
{
    reveal_strlit("==");
    reveal_strlit("=");
    assert(encoded(seq![x]) =~= encoded(seq![x, 0, 0]).take(2) + "=="@);
    assert(encoded(seq![x, y]) =~= encoded(seq![x, y, 0]).take(3) + "="@);
}

} // verus!
