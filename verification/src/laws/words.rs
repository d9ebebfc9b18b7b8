//! What the text helpers give back.

use crate::text;
use vstd::prelude::*;

verus! {

/// A numeral ends in the last digit of its number, and what stands before is the
/// numeral of the tenth of it.
pub proof fn law_numeral_digits(n: nat)
    ensures
        text::dec(n).last() as int == '0' as int + n % 10,
        n < 10 ==> text::dec(n).len() == 1,
        n >= 10 ==> text::dec(n).drop_last() == text::dec(n / 10),
{
    if n >= 10 {
        assert(text::dec(n).drop_last() =~= text::dec(n / 10));
    }
}

/// A number is read back from its numeral, with or without a plus sign, where it
/// is in range, and refused where it is not.
pub proof fn law_number_is_read_back(n: nat, max: nat)
    ensures
        n <= max ==> text::parsed_unsigned(text::dec(n), max) == Some(n),
        n <= max ==> text::parsed_unsigned(seq!['+'] + text::dec(n), max) == Some(n),
        n > max ==> text::parsed_unsigned(text::dec(n), max) is None,
{
    text::law_dec_value(n);
    assert(text::is_digit(text::dec(n)[0]));
    assert((seq!['+'] + text::dec(n)).skip(1) =~= text::dec(n));
}

/// What is read as a number is a row of decimal digits, but for one plus sign in
/// front; nothing else is.
pub proof fn law_only_digits_are_read(s: Seq<char>, max: nat, i: int)
    requires
        text::parsed_unsigned(s, max) is Some,
        0 <= i < s.len(),
    ensures
        '0' <= s[i] <= '9' || (i == 0 && s[0] == '+' && s.len() > 1),
        text::parsed_unsigned(s, max)->0 <= max,
{
    if s[0] == '+' {
        if i > 0 {
            assert(s.skip(1)[i - 1] == s[i]);
            assert(text::is_digit(s.skip(1)[i - 1]));
        }
    } else {
        assert(text::is_digit(s[i]));
    }
}

/// Each digit behind the others makes the number ten times as large, and adds
/// itself; a zero in front makes no difference.
pub proof fn law_digits_add_up(s: Seq<char>, c: char, max: nat)
    requires
        text::parsed_unsigned(s, max) is Some,
        '0' <= c <= '9',
    ensures
        ({
            let n = 10 * text::parsed_unsigned(s, max)->0 + (c as int - '0' as int);
            &&& n <= max ==> text::parsed_unsigned(s.push(c), max) == Some(n as nat)
            &&& n > max ==> text::parsed_unsigned(s.push(c), max) is None
        }),
        s[0] != '+' ==> text::parsed_unsigned(seq!['0'] + s, max) == text::parsed_unsigned(s, max),
{
    let t = s.push(c);
    let digits = if s[0] == '+' {
        s.skip(1)
    } else {
        s
    };
    assert(t[0] == s[0]);
    assert(s[0] == '+' ==> t.skip(1) =~= digits.push(c));
    let all = digits.push(c);
    assert(all.drop_last() =~= digits);
    assert forall|i: int| 0 <= i < all.len() implies text::is_digit(#[trigger] all[i]) by {
        if i < digits.len() {
            assert(text::is_digit(digits[i]));
        }
    }
    if s[0] != '+' {
        lemma_leading_zero(s);
        let z = seq!['0'] + s;
        assert(z[0] == '0');
        assert forall|i: int| 0 <= i < z.len() implies text::is_digit(#[trigger] z[i]) by {
            if i > 0 {
                assert(text::is_digit(s[i - 1]));
            }
        }
    }
}

proof fn lemma_leading_zero(s: Seq<char>)
    ensures
        text::dec_value(seq!['0'] + s) == text::dec_value(s),
    decreases s.len(),
{
    let z = seq!['0'] + s;
    if s.len() == 0 {
        assert(z.drop_last() =~= Seq::<char>::empty());
        reveal_with_fuel(text::dec_value, 2);
        assert(s =~= Seq::<char>::empty());
    } else {
        assert(z.drop_last() =~= seq!['0'] + s.drop_last());
        assert(z.last() == s.last());
        lemma_leading_zero(s.drop_last());
    }
}

/// Nothing, and a sign alone, is no number.
pub proof fn law_empty_is_no_number(max: nat)
    ensures
        text::parsed_unsigned(Seq::empty(), max) is None,
        text::parsed_unsigned(seq!['+'], max) is None,
        text::parsed_i32(Seq::empty()) is None,
        text::parsed_i32(seq!['-']) is None,
{
    assert(seq!['+'].skip(1).len() == 0);
    assert(seq!['-'].skip(1).len() == 0);
}

/// A 32-bit number is read back from its numeral, a negative one behind a minus
/// sign.
pub proof fn law_signed_number_is_read_back(n: i32)
    ensures
        n >= 0 ==> text::parsed_i32(text::dec(n as nat)) == Some(n as int),
        n < 0 ==> text::parsed_i32(seq!['-'] + text::dec((-n) as nat)) == Some(n as int),
{
    if n >= 0 {
        law_number_is_read_back(n as nat, 0x7fff_ffff);
        text::law_dec_value(n as nat);
        assert(text::is_digit(text::dec(n as nat)[0]));
    } else {
        let d = text::dec((-n) as nat);
        text::law_dec_value((-n) as nat);
        assert((seq!['-'] + d).skip(1) =~= d);
    }
}

/// A number that does not fit in 32 bits with its sign is refused.
pub proof fn law_signed_number_out_of_range(n: nat)
    ensures
        n > 0x7fff_ffff ==> text::parsed_i32(text::dec(n)) is None,
        n > 0x8000_0000 ==> text::parsed_i32(seq!['-'] + text::dec(n)) is None,
{
    let d = text::dec(n);
    text::law_dec_value(n);
    law_number_is_read_back(n, 0x7fff_ffff);
    assert(text::is_digit(d[0]));
    assert((seq!['-'] + d).skip(1) =~= d);
}

/// Unicode's white space: tab to carriage return, the space, the next-line
/// character, and the spaces and separators beyond Latin-1.
pub open spec fn white_number(n: u32) -> bool {
    ||| 9 <= n <= 13
    ||| n == 32
    ||| n == 133
    ||| n == 160
    ||| n == 5760
    ||| 8192 <= n <= 8202
    ||| n == 8232
    ||| n == 8233
    ||| n == 8239
    ||| n == 8287
    ||| n == 12288
}

/// What counts as white space goes by the character's number.
pub proof fn law_white_space(c: char)
    ensures
        text::is_white(c) <==> white_number(c as u32),
{
}

proof fn lemma_skip_white(a: Seq<char>, core: Seq<char>)
    requires
        forall|i: int| 0 <= i < a.len() ==> text::is_white(#[trigger] a[i]),
        core.len() > 0,
        !text::is_white(core[0]),
    ensures
        text::trimmed_start(a + core) == core,
    decreases a.len(),
{
    if a.len() == 0 {
        assert(a + core =~= core);
    } else {
        assert((a + core).skip(1) =~= a.skip(1) + core);
        assert(text::is_white(a[0]));
        assert forall|i: int| 0 <= i < a.skip(1).len() implies text::is_white(
            #[trigger] a.skip(1)[i],
        ) by {
            assert(text::is_white(a[i + 1]));
        }
        lemma_skip_white(a.skip(1), core);
    }
}

proof fn lemma_drop_white(core: Seq<char>, b: Seq<char>)
    requires
        forall|i: int| 0 <= i < b.len() ==> text::is_white(#[trigger] b[i]),
        core.len() > 0,
        !text::is_white(core.last()),
    ensures
        text::trimmed_end(core + b) == core,
    decreases b.len(),
{
    if b.len() == 0 {
        assert(core + b =~= core);
    } else {
        assert((core + b).drop_last() =~= core + b.drop_last());
        assert(text::is_white(b.last()));
        lemma_drop_white(core, b.drop_last());
    }
}

/// Trimming takes off the white space around a text, all of it, and nothing of
/// the text.
pub proof fn law_trimmed(a: Seq<char>, core: Seq<char>, b: Seq<char>)
    requires
        forall|i: int| 0 <= i < a.len() ==> white_number(#[trigger] a[i] as u32),
        forall|i: int| 0 <= i < b.len() ==> white_number(#[trigger] b[i] as u32),
        core.len() > 0,
        !white_number(core[0] as u32),
        !white_number(core.last() as u32),
    ensures
        text::trimmed(a + core + b) == core,
{
    assert(a + core + b =~= a + (core + b));
    assert forall|i: int| 0 <= i < a.len() implies text::is_white(#[trigger] a[i]) by {
        law_white_space(a[i]);
    }
    assert forall|i: int| 0 <= i < b.len() implies text::is_white(#[trigger] b[i]) by {
        law_white_space(b[i]);
    }
    law_white_space(core[0]);
    law_white_space(core.last());
    lemma_skip_white(a, core + b);
    lemma_drop_white(core, b);
}

/// Of white space alone nothing is left.
pub proof fn law_trimmed_white(a: Seq<char>)
    requires
        forall|i: int| 0 <= i < a.len() ==> white_number(#[trigger] a[i] as u32),
    ensures
        text::trimmed(a).len() == 0,
    decreases a.len(),
{
    if a.len() > 0 {
        law_white_space(a[0]);
        assert(white_number(a[0] as u32));
        assert forall|i: int| 0 <= i < a.skip(1).len() implies white_number(
            #[trigger] a.skip(1)[i] as u32,
        ) by {
            assert(white_number(a[i + 1] as u32));
        }
        law_trimmed_white(a.skip(1));
    }
}

/// A needle stands in a text exactly where the text is what precedes it, the
/// needle, and what follows it.
pub proof fn law_occurs(a: Seq<char>, needle: Seq<char>, b: Seq<char>)
    ensures
        text::occurs(a + needle + b, needle),
{
    let s = a + needle + b;
    assert(s.subrange(a.len() as int, (a.len() + needle.len()) as int) =~= needle);
    assert(text::occurs_at(s, needle, a.len() as int));
}

/// Whatever a needle stands in has its characters, one behind the other.
pub proof fn law_occurs_only_so(s: Seq<char>, needle: Seq<char>)
    requires
        text::occurs(s, needle),
    ensures
        exists|i: int|
            0 <= i <= s.len() - needle.len() && #[trigger] s.subrange(i, i + needle.len()) == needle,
{
    let i = choose|i: int| text::occurs_at(s, needle, i);
    assert(s.subrange(i, i + needle.len()) == needle);
}

/// A pattern is replaced where it stands behind text that does not hold its first
/// character, and what follows goes on being replaced.
pub proof fn law_replaced(a: Seq<char>, pat: Seq<char>, with: Seq<char>, b: Seq<char>)
    requires
        pat.len() > 0,
        !a.contains(pat[0]),
    ensures
        text::replaced(a + pat + b, pat, with) == a + with + text::replaced(b, pat, with),
    decreases a.len(),
{
    let s = a + pat + b;
    if a.len() == 0 {
        assert(s =~= pat + b);
        assert(s.skip(pat.len() as int) =~= b);
        assert(a + with + text::replaced(b, pat, with) =~= with + text::replaced(b, pat, with));
    } else {
        assert(a.contains(a[0]));
        assert(s[0] == a[0]);
        let rest = a.skip(1);
        assert forall|c: char| rest.contains(c) implies a.contains(c) by {
            let i = rest.index_of(c);
            assert(a[i + 1] == c);
        }
        law_replaced(rest, pat, with, b);
        assert(s.skip(1) =~= rest + pat + b);
        assert(text::replaced(s, pat, with) =~= a + with + text::replaced(b, pat, with));
    }
}

/// Text that does not hold the pattern's first character stays as it is.
pub proof fn law_nothing_replaced(a: Seq<char>, pat: Seq<char>, with: Seq<char>)
    requires
        pat.len() > 0,
        !a.contains(pat[0]),
    ensures
        text::replaced(a, pat, with) == a,
    decreases a.len(),
{
    if a.len() > 0 {
        assert(a.contains(a[0]));
        let rest = a.skip(1);
        assert forall|c: char| rest.contains(c) implies a.contains(c) by {
            let i = rest.index_of(c);
            assert(a[i + 1] == c);
        }
        law_nothing_replaced(rest, pat, with);
        assert(text::replaced(a, pat, with) =~= a);
    }
}

/// The letters of the alphabet have two cases, and the `n`th letter of one
/// becomes the `n`th of the other; no other character changes.
pub proof fn law_cases(n: int, c: char)
    requires
        0 <= n < 26,
    ensures
        text::ascii_lower((65 + n) as char) == (97 + n) as char,
        text::ascii_upper((97 + n) as char) == (65 + n) as char,
        !(65 <= c as int <= 90) ==> text::ascii_lower(c) == c,
        !(97 <= c as int <= 122) ==> text::ascii_upper(c) == c,
        text::is_letter(c) <==> 65 <= c as int <= 90 || 97 <= c as int <= 122,
{
}

} // verus!
