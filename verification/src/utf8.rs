//! Bytes read as text.

use vstd::prelude::*;
use vstd::utf8::*;

verus! {

/// The text that `String::from_utf8_lossy` reads from `bytes`: what is not
/// UTF-8 becomes replacement characters.
pub uninterp spec fn utf8_lossy(bytes: Seq<u8>) -> Seq<char>;

/// `String::from_utf8_lossy`: its result depends on the bytes alone, and where
/// the bytes are UTF-8 it is the text that they encode.
#[verifier::external_body]
pub(crate) fn decode_lossy(bytes: &[u8]) -> (r: String)
    ensures
        r@ == utf8_lossy(bytes@),
        valid_utf8(bytes@) ==> r@ == decode_utf8(bytes@),
{
    String::from_utf8_lossy(bytes).into_owned()
}

/// `std::str::from_utf8`: it accepts UTF-8 and gives the text that the bytes
/// encode; else its error's `valid_up_to` is the greatest length of a beginning
/// that is UTF-8.
#[verifier::external_body]
pub(crate) fn decode_strict(bytes: &[u8]) -> (r: Result<String, usize>)
    ensures
        match r {
            Ok(s) => valid_utf8(bytes@) && s@ == decode_utf8(bytes@),
            Err(n) => {
                &&& !valid_utf8(bytes@)
                &&& n <= bytes@.len()
                &&& valid_utf8(bytes@.take(n as int))
                &&& forall|m: int| n < m <= bytes@.len() ==> !valid_utf8(#[trigger] bytes@.take(m))
            },
        },
{
    match std::str::from_utf8(bytes) {
        Ok(s) => Ok(s.to_string()),
        Err(e) => Err(e.valid_up_to()),
    }
}

/// The greatest length of a beginning of `bytes` that is UTF-8.
pub open spec fn valid_prefix(bytes: Seq<u8>) -> nat
    decreases bytes.len(),
{
    if bytes.len() == 0 || valid_utf8(bytes) {
        bytes.len()
    } else {
        valid_prefix(bytes.drop_last())
    }
}

/// The valid prefix is a valid beginning, and no longer one is valid.
pub proof fn lemma_valid_prefix(bytes: Seq<u8>)
    ensures
        valid_prefix(bytes) <= bytes.len(),
        valid_utf8(bytes.take(valid_prefix(bytes) as int)),
        forall|m: int|
            valid_prefix(bytes) < m <= bytes.len() ==> !valid_utf8(#[trigger] bytes.take(m)),
    decreases bytes.len(),
{
    assert(bytes.take(bytes.len() as int) =~= bytes);
    if bytes.len() == 0 || valid_utf8(bytes) {
    } else {
        let shorter = bytes.drop_last();
        lemma_valid_prefix(shorter);
        let n = valid_prefix(shorter);
        assert(bytes.take(n as int) =~= shorter.take(n as int));
        assert forall|m: int| n < m <= bytes.len() implies !valid_utf8(#[trigger] bytes.take(m)) by {
            if m < bytes.len() {
                assert(bytes.take(m) =~= shorter.take(m));
            }
        }
    }
}

/// There is only one greatest length.
pub proof fn lemma_valid_prefix_unique(bytes: Seq<u8>, n: int)
    requires
        0 <= n <= bytes.len(),
        valid_utf8(bytes.take(n)),
        forall|m: int| n < m <= bytes.len() ==> !valid_utf8(#[trigger] bytes.take(m)),
    ensures
        valid_prefix(bytes) == n,
{
    lemma_valid_prefix(bytes);
    let v = valid_prefix(bytes) as int;
    assert(!valid_utf8(bytes.take(n)) || n <= v);
    assert(v > n ==> !valid_utf8(bytes.take(v)));
}

/// Behind UTF-8, more bytes make UTF-8 exactly where they are UTF-8 themselves.
pub proof fn lemma_valid_concat(a: Seq<u8>, b: Seq<u8>)
    requires
        valid_utf8(a),
    ensures
        valid_utf8(a + b) == valid_utf8(b),
        valid_utf8(b) ==> decode_utf8(a + b) == decode_utf8(a) + decode_utf8(b),
    decreases a.len(),
{
    if a.len() == 0 {
        assert(a + b =~= b);
        assert(valid_utf8(b) ==> decode_utf8(a) + decode_utf8(b) =~= decode_utf8(b));
    } else {
        let rest = pop_first_scalar(a);
        assert(length_of_first_scalar(a) <= a.len());
        assert(rest.len() < a.len());
        lemma_valid_concat(rest, b);
        assert(length_of_first_scalar(a + b) == length_of_first_scalar(a));
        assert(pop_first_scalar(a + b) =~= rest + b);
        if valid_utf8(b) {
            assert(decode_utf8(a + b) =~= decode_utf8(a) + decode_utf8(b));
        }
    }
}

/// The valid prefix grows by what is put before it, if that is UTF-8.
pub proof fn lemma_valid_prefix_concat(a: Seq<u8>, b: Seq<u8>)
    requires
        valid_utf8(a),
    ensures
        valid_prefix(a + b) == a.len() + valid_prefix(b),
{
    lemma_valid_prefix(b);
    let n = (a.len() + valid_prefix(b)) as int;
    let s = a + b;
    assert(s.take(n) =~= a + b.take(valid_prefix(b) as int));
    lemma_valid_concat(a, b.take(valid_prefix(b) as int));
    assert forall|m: int| n < m <= s.len() implies !valid_utf8(#[trigger] s.take(m)) by {
        assert(s.take(m) =~= a + b.take(m - a.len()));
        lemma_valid_concat(a, b.take(m - a.len()));
    }
    lemma_valid_prefix_unique(s, n);
}

/// `t` is the beginning of one character whose other bytes are missing.
pub open spec fn is_cut(t: Seq<u8>) -> bool {
    &&& 1 <= t.len() <= 3
    &&& exists|s: Seq<u8>| #[trigger]
        valid_first_scalar(t + s) && length_of_first_scalar(t + s) > t.len()
}

/// The beginnings of characters, byte by byte.
spec fn cut_bytes(t: Seq<u8>) -> bool {
    ||| t.len() == 1 && 0xc2 <= t[0] <= 0xf4
    ||| t.len() == 2 && 0xe0 <= t[0] <= 0xf4 && second_fits(t[0], t[1])
    ||| t.len() == 3 && 0xf0 <= t[0] <= 0xf4 && second_fits(t[0], t[1]) && is_continuation_byte(t[2])
}

/// `b` can follow the leading byte `a` of a character of three or four bytes.
spec fn second_fits(a: u8, b: u8) -> bool {
    &&& is_continuation_byte(b)
    &&& a == 0xe0 ==> b >= 0xa0
    &&& a == 0xed ==> b <= 0x9f
    &&& a == 0xf0 ==> b >= 0x90
    &&& a == 0xf4 ==> b <= 0x8f
}

/// The number that the bytes of a character stand for.
proof fn lemma_codepoints(a: u8, b: u8, c: u8, d: u8)
    requires
        is_continuation_byte(b),
        is_continuation_byte(c),
        is_continuation_byte(d),
    ensures
        is_leading_byte_width_2(a) ==> codepoint_width_2(a, b) == (a - 0xc0) * 64 + (b - 0x80),
        is_leading_byte_width_3(a) ==> codepoint_width_3(a, b, c) == (a - 0xe0) * 4096 + (b - 0x80)
            * 64 + (c - 0x80),
        is_leading_byte_width_4(a) ==> codepoint_width_4(a, b, c, d) == (a - 0xf0) * 262144 + (b
            - 0x80) * 4096 + (c - 0x80) * 64 + (d - 0x80),
{
    if is_leading_byte_width_2(a) {
        assert((((a & 0x1f) as u32) << 6) | ((b & 0x3f) as u32) == (a - 0xc0) * 64 + (b - 0x80))
            by (bit_vector)
            requires
                0xc0 <= a <= 0xdf,
                0x80 <= b <= 0xbf,
        ;
    }
    if is_leading_byte_width_3(a) {
        assert((((a & 0x0f) as u32) << 12) | (((b & 0x3f) as u32) << 6) | ((c & 0x3f) as u32) == (a
            - 0xe0) * 4096 + (b - 0x80) * 64 + (c - 0x80)) by (bit_vector)
            requires
                0xe0 <= a <= 0xef,
                0x80 <= b <= 0xbf,
                0x80 <= c <= 0xbf,
        ;
    }
    if is_leading_byte_width_4(a) {
        assert((((a & 0x07) as u32) << 18) | (((b & 0x3f) as u32) << 12) | (((c & 0x3f) as u32) << 6)
            | ((d & 0x3f) as u32) == (a - 0xf0) * 262144 + (b - 0x80) * 4096 + (c - 0x80) * 64 + (d
            - 0x80)) by (bit_vector)
            requires
                0xf0 <= a <= 0xf7,
                0x80 <= b <= 0xbf,
                0x80 <= c <= 0xbf,
                0x80 <= d <= 0xbf,
        ;
    }
}

/// What begins as a character does is the beginning of one.
proof fn lemma_cut_bytes(t: Seq<u8>)
    ensures
        is_cut(t) == cut_bytes(t),
{
    if is_cut(t) {
        let s = choose|s: Seq<u8>| #[trigger]
            valid_first_scalar(t + s) && length_of_first_scalar(t + s) > t.len();
        let u = t + s;
        assert(u[0] == t[0]);
        assert(t.len() >= 2 ==> u[1] == t[1]);
        assert(t.len() >= 3 ==> u[2] == t[2]);
        let n = length_of_first_scalar(u);
        if n == 2 {
            lemma_codepoints(u[0], u[1], 0x80, 0x80);
        } else if n == 3 {
            lemma_codepoints(u[0], u[1], u[2], 0x80);
        } else {
            lemma_codepoints(u[0], u[1], u[2], u[3]);
        }
    }
    if cut_bytes(t) {
        let a = t[0];
        let b: u8 = if t.len() >= 2 {
            t[1]
        } else if a == 0xe0 {
            0xa0
        } else if a == 0xf0 {
            0x90
        } else {
            0x80
        };
        let c: u8 = if t.len() >= 3 {
            t[2]
        } else {
            0x80
        };
        let whole = seq![a, b, c, 0x80u8];
        let s = whole.skip(t.len() as int);
        assert(t + s =~= whole);
        lemma_codepoints(a, b, c, 0x80);
        assert(valid_first_scalar(t + s));
    }
}

/// Whether `t` is the beginning of one character whose other bytes are missing.
pub fn cut(t: &[u8]) -> (r: bool)
    ensures
        r == is_cut(t@),
{
    proof {
        lemma_cut_bytes(t@);
    }
    let n: usize = t.len();
    if n == 0 || n > 3 {
        return false;
    }
    let a: u8 = t[0];
    if n == 1 {
        return 0xc2 <= a && a <= 0xf4;
    }
    let b: u8 = t[1];
    let fits: bool = 0x80 <= b && b <= 0xbf && (a != 0xe0 || b >= 0xa0) && (a != 0xed || b <= 0x9f)
        && (a != 0xf0 || b >= 0x90) && (a != 0xf4 || b <= 0x8f);
    if n == 2 {
        return 0xe0 <= a && a <= 0xf4 && fits;
    }
    0xf0 <= a && a <= 0xf4 && fits && 0x80 <= t[2] && t[2] <= 0xbf
}

/// Bytes have a valid beginning exactly where they begin with a character.
pub proof fn lemma_valid_start(b: Seq<u8>)
    requires
        b.len() > 0,
    ensures
        valid_prefix(b) > 0 <==> valid_first_scalar(b),
{
    lemma_valid_prefix(b);
    let v = valid_prefix(b) as int;
    if v > 0 {
        let p = b.take(v);
        assert(valid_first_scalar(p));
        assert(valid_first_scalar(b));
    }
    if valid_first_scalar(b) {
        let n = length_of_first_scalar(b);
        let p = b.take(n);
        assert(valid_first_scalar(p));
        assert(pop_first_scalar(p) =~= Seq::<u8>::empty());
        assert(valid_utf8(pop_first_scalar(p)));
        assert(valid_utf8(p));
    }
}

/// Bytes that neither begin with a character nor are the beginning of one do not
/// come to it by what follows.
pub proof fn lemma_stays_invalid(r: Seq<u8>, s: Seq<u8>)
    requires
        r.len() > 0,
        valid_prefix(r) == 0,
        !is_cut(r),
    ensures
        valid_prefix(r + s) == 0,
        !is_cut(r + s),
{
    lemma_valid_start(r);
    lemma_valid_start(r + s);
    assert forall|u: Seq<u8>| !#[trigger] valid_first_scalar(r + u) by {
        if valid_first_scalar(r + u) {
            if length_of_first_scalar(r + u) <= r.len() {
                assert(valid_first_scalar(r));
            }
        }
    }
    if is_cut(r + s) {
        let u = choose|u: Seq<u8>| #[trigger]
            valid_first_scalar((r + s) + u) && length_of_first_scalar((r + s) + u) > (r + s).len();
        assert((r + s) + u =~= r + (s + u));
    }
}

} // verus!
