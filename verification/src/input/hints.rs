//! Labels for what can be clicked.

use crate::text;
use vstd::prelude::*;

verus! {

/// The letters of labels, the easiest to reach first.
pub const ALPHA: &'static str = "asdfghjklqwertyuiopzxcvbnm";

/// The most letters that a label has, however many elements there are.
pub const MAX_LETTERS: usize = 14;

/// How many letters the labels of `n` elements have: one where the letters are
/// enough for all, else one more than the labels of a twenty-sixth of them.
pub open spec fn label_len(n: nat) -> nat
    decreases n,
{
    if n <= 26 {
        1
    } else {
        1 + label_len((n + 25) / 26)
    }
}

/// The number `i` in `k` letters, the letters being the digits.
pub open spec fn spelled(i: int, k: nat) -> Seq<char>
    decreases k,
{
    if k == 0 {
        Seq::empty()
    } else {
        spelled(i / 26, (k - 1) as nat).push(ALPHA@[i % 26])
    }
}

/// The label of the `i`th of `n` elements.
pub open spec fn label(i: int, n: nat) -> Seq<char> {
    spelled(i, label_len(n))
}

/// There are twenty-six letters, all of them lower case, none twice.
pub proof fn lemma_alpha()
    ensures
        ALPHA@.len() == 26,
        forall|i: int| 0 <= i < 26 ==> 'a' <= #[trigger] ALPHA@[i] <= 'z',
        forall|i: int, j: int|
            0 <= i < 26 && 0 <= j < 26 && #[trigger] ALPHA@[i] == #[trigger] ALPHA@[j] ==> i == j,
{
    reveal_strlit("asdfghjklqwertyuiopzxcvbnm");
}

/// `k` letters are enough for as many elements as there are rows of `k` letters.
proof fn lemma_label_len(n: nat, k: nat)
    requires
        k >= 1,
        n <= vstd::arithmetic::power::pow(26, k),
    ensures
        label_len(n) <= k,
    decreases k,
{
    reveal(vstd::arithmetic::power::pow);
    if n > 26 {
        if k == 1 {
            assert(vstd::arithmetic::power::pow(26, 1) == 26) by {
                reveal_with_fuel(vstd::arithmetic::power::pow, 2);
            }
        } else {
            assert(vstd::arithmetic::power::pow(26, k) == 26 * vstd::arithmetic::power::pow(26, (k - 1) as nat));
            lemma_label_len((n + 25) / 26, (k - 1) as nat);
        }
    }
}

/// No label has more than `MAX_LETTERS` letters.
pub proof fn lemma_max_letters(n: nat)
    requires
        n <= usize::MAX,
    ensures
        1 <= label_len(n) <= MAX_LETTERS,
{
    assert(vstd::arithmetic::power::pow(26, 14) >= 0xffff_ffff_ffff_ffff) by {
        reveal_with_fuel(vstd::arithmetic::power::pow, 15);
    }
    lemma_label_len(n, 14);
}

/// What is spelled in `k` letters has `k` letters.
pub proof fn lemma_spelled_len(i: int, k: nat)
    ensures
        spelled(i, k).len() == k,
    decreases k,
{
    if k > 0 {
        lemma_spelled_len(i / 26, (k - 1) as nat);
    }
}

/// How many letters the labels of `n` elements have.
fn letters_for(n: usize) -> (r: usize)
    ensures
        r == label_len(n as nat),
        1 <= r <= MAX_LETTERS,
{
    proof {
        lemma_max_letters(n as nat);
    }
    let mut m: usize = n;
    let mut k: usize = 1;
    while m > 26
        invariant
            k + label_len(m as nat) == 1 + label_len(n as nat),
            label_len(n as nat) <= MAX_LETTERS,
            k >= 1,
        decreases m,
    {
        m = (m - 1) / 26 + 1;
        k += 1;
    }
    k
}

/// Appends the number `i` in `k` letters.
fn spell(out: &mut String, alpha: &Vec<char>, i: usize, k: usize)
    requires
        alpha@ == ALPHA@,
        alpha@.len() == 26,
    ensures
        final(out)@ == old(out)@ + spelled(i as int, k as nat),
    decreases k,
{
    if k > 0 {
        spell(out, alpha, i / 26, k - 1);
        out.push(alpha[i % 26]);
    }
    assert(out@ =~= old(out)@ + spelled(i as int, k as nat));
}

/// Makes the labels (a, s, d, f, ...) for `n` elements, all with as many letters
/// as it takes to tell the elements apart.
pub fn hint_labels(n: usize) -> (r: Vec<String>)
    ensures
        r@.len() == n,
        forall|i: int| 0 <= i < r@.len() ==> (#[trigger] r@[i])@ == label(i, n as nat),
{
    let alpha: Vec<char> = text::chars_of(ALPHA);
    proof {
        lemma_alpha();
    }
    let k: usize = letters_for(n);
    let mut out: Vec<String> = Vec::new();
    let mut i: usize = 0;
    while i < n
        invariant
            i <= n,
            k == label_len(n as nat),
            alpha@ == ALPHA@,
            alpha@.len() == 26,
            out@.len() == i,
            forall|j: int| 0 <= j < i ==> (#[trigger] out@[j])@ == label(j, n as nat),
        decreases n - i,
    {
        let mut s: String = String::new();
        spell(&mut s, &alpha, i, k);
        assert(s@ =~= label(i as int, n as nat));
        out.push(s);
        i += 1;
    }
    out
}

/// Gives each element its label.
pub fn assign<T: Copy>(items: &[T]) -> (r: Vec<(String, T)>)
    ensures
        r@.len() == items@.len(),
        forall|i: int|
            0 <= i < r@.len() ==> (#[trigger] r@[i]).0@ == label(i, items@.len()) && r@[i].1
                == items@[i],
{
    let labels: Vec<String> = hint_labels(items.len());
    let mut out: Vec<(String, T)> = Vec::new();
    let mut i: usize = 0;
    while i < labels.len()
        invariant
            i <= labels@.len(),
            labels@.len() == items@.len(),
            forall|k: int| 0 <= k < labels@.len() ==> (#[trigger] labels@[k])@ == label(
                k,
                items@.len(),
            ),
            out@.len() == i,
            forall|k: int|
                0 <= k < i ==> (#[trigger] out@[k]).0@ == label(k, items@.len()) && out@[k].1
                    == items@[k],
        decreases labels@.len() - i,
    {
        out.push((labels[i].clone(), items[i]));
        i += 1;
    }
    out
}

/// One letter is enough for twenty-six elements, two for their square; more
/// elements have more letters.
pub proof fn law_label_lengths(i: int, n: nat)
    requires
        0 <= i < n,
    ensures
        label(i, n).len() == label_len(n),
        n <= 26 ==> label(i, n) == seq![ALPHA@[i]],
        26 < n <= 676 ==> label(i, n) == seq![ALPHA@[i / 26], ALPHA@[i % 26]],
        n > 676 ==> label(i, n).len() >= 3,
{
    lemma_spelled_len(i, label_len(n));
    reveal_with_fuel(label_len, 3);
    reveal_with_fuel(spelled, 3);
    if n <= 26 {
        assert(label(i, n) =~= seq![ALPHA@[i]]);
    } else if n <= 676 {
        assert(label_len(n) == 2);
        assert(label(i, n) =~= seq![ALPHA@[i / 26], ALPHA@[i % 26]]);
    }
}

/// Different numbers are spelled differently.
proof fn lemma_spelled_distinct(i: int, j: int, n: nat)
    requires
        0 <= i < n,
        0 <= j < n,
        spelled(i, label_len(n)) == spelled(j, label_len(n)),
    ensures
        i == j,
    decreases n,
{
    lemma_alpha();
    let k = label_len(n);
    let a = spelled(i / 26, (k - 1) as nat);
    let b = spelled(j / 26, (k - 1) as nat);
    assert(a.push(ALPHA@[i % 26]).last() == b.push(ALPHA@[j % 26]).last());
    assert(i % 26 == j % 26);
    if n > 26 {
        assert(a =~= a.push(ALPHA@[i % 26]).drop_last());
        assert(b =~= b.push(ALPHA@[j % 26]).drop_last());
        lemma_spelled_distinct(i / 26, j / 26, (n + 25) / 26);
    }
}

/// Labels tell the elements apart, however many there are: no two are alike, and
/// none is the beginning of another, so a label is complete as soon as it is
/// typed.
pub proof fn law_labels_distinct(i: int, j: int, n: nat)
    requires
        0 <= i < n,
        0 <= j < n,
        i != j,
    ensures
        label(i, n) != label(j, n),
        !label(i, n).is_prefix_of(label(j, n)),
        label(i, n).len() == label(j, n).len(),
{
    let a = label(i, n);
    let b = label(j, n);
    lemma_spelled_len(i, label_len(n));
    lemma_spelled_len(j, label_len(n));
    if a == b {
        lemma_spelled_distinct(i, j, n);
    }
    assert(a.is_prefix_of(b) ==> a =~= b);
}

/// What is spelled is made of the letters.
proof fn lemma_spelled_letters(i: int, k: nat, p: int)
    requires
        0 <= p < k,
    ensures
        'a' <= spelled(i, k)[p] <= 'z',
    decreases k,
{
    lemma_alpha();
    lemma_spelled_len(i / 26, (k - 1) as nat);
    if p < k - 1 {
        lemma_spelled_letters(i / 26, (k - 1) as nat, p);
    } else {
        assert('a' <= ALPHA@[i % 26] <= 'z');
    }
}

/// A label is made of lower-case letters, the ones that hint mode takes.
pub proof fn law_labels_typable(i: int, n: nat, k: int)
    requires
        0 <= i < n,
        0 <= k < label(i, n).len(),
    ensures
        'a' <= label(i, n)[k] <= 'z',
{
    lemma_spelled_len(i, label_len(n));
    lemma_spelled_letters(i, label_len(n), k);
}

} // verus!
