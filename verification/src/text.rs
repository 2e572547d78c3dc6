//! Verified text utilities: character classification, digit-run evaluation,
//! pattern removal and prefix tests. These are the building blocks of the
//! currency normalizer and of the sponsored-link filter.

use vstd::prelude::*;
use vstd::seq_lib::group_seq_properties;

verus! {

/// Whether `c` is an ASCII decimal digit.
pub open spec fn is_digit(c: char) -> bool {
    '0' <= c && c <= '9'
}

/// The numeric value of a digit character.
pub open spec fn digit_of(c: char) -> int {
    c as int - '0' as int
}

/// Whether every character of `s` is an ASCII decimal digit.
pub open spec fn all_digits(s: Seq<char>) -> bool {
    forall|i: int| 0 <= i < s.len() ==> is_digit(#[trigger] s[i])
}

/// The value of `s` read as a base-ten numeral (most significant digit
/// first). Characters are assumed to be digits; `all_digits` guards uses.
pub open spec fn digits_val(s: Seq<char>) -> int
    decreases s.len(),
{
    if s.len() == 0 {
        0
    } else {
        10 * digits_val(s.drop_last()) + digit_of(s.last())
    }
}

/// `s` with every non-overlapping occurrence of `pat` removed, scanning
/// left to right (the semantics of replacing `pat` by the empty string).
pub open spec fn remove_all(s: Seq<char>, pat: Seq<char>) -> Seq<char>
    decreases s.len(),
{
    if s.len() == 0 {
        s
    } else if 0 < pat.len() <= s.len() && s.take(pat.len() as int) == pat {
        remove_all(s.skip(pat.len() as int), pat)
    } else {
        seq![s[0]] + remove_all(s.drop_first(), pat)
    }
}

/// A numeral is non-negative.
pub proof fn lemma_digits_val_nonneg(s: Seq<char>)
    requires
        all_digits(s),
    ensures
        digits_val(s) >= 0,
    decreases s.len(),
{
    if s.len() > 0 {
        assert(all_digits(s.drop_last()));
        lemma_digits_val_nonneg(s.drop_last());
    }
}

/// Reading more digits never shrinks the value: the value of a prefix of a
/// digit run is at most the value of the whole run.
pub proof fn lemma_digits_val_prefix_le(s: Seq<char>, k: int)
    requires
        all_digits(s),
        0 <= k <= s.len(),
    ensures
        digits_val(s.take(k)) <= digits_val(s),
    decreases s.len() - k,
{
    if k < s.len() {
        lemma_digits_val_prefix_le(s, k + 1);
        let t = s.take(k + 1);
        assert(t.drop_last() =~= s.take(k));
        assert(all_digits(s.take(k)));
        lemma_digits_val_nonneg(s.take(k));
        assert(digits_val(t) == 10 * digits_val(s.take(k)) + digit_of(t.last()));
    } else {
        assert(s.take(k) =~= s);
    }
}

/// A pattern that occurs nowhere in `s` is not removed: `remove_all`
/// keeps `s` as it is.
pub proof fn lemma_remove_all_absent(s: Seq<char>, pat: Seq<char>)
    requires
        pat.len() > 0,
        forall|i: int|
            0 <= i <= s.len() - pat.len() ==> #[trigger] s.subrange(i, i + pat.len()) != pat,
    ensures
        remove_all(s, pat) == s,
    decreases s.len(),
{
    if s.len() > 0 {
        if pat.len() <= s.len() {
            assert(s.subrange(0, 0 + pat.len() as int) != pat);
            assert(s.subrange(0, 0 + pat.len() as int) == s.take(pat.len() as int));
            assert(s.take(pat.len() as int) != pat);
        }
        let t = s.drop_first();
        assert forall|i: int| 0 <= i <= t.len() - pat.len() implies #[trigger] t.subrange(
            i,
            i + pat.len(),
        ) != pat by {
            assert(t.subrange(i, i + pat.len()) =~= s.subrange(i + 1, i + 1 + pat.len()));
        }
        lemma_remove_all_absent(t, pat);
        assert(seq![s[0]] + t =~= s);
    }
}

/// Text that starts with the pattern loses that occurrence first.
pub proof fn lemma_remove_all_leading(s: Seq<char>, pat: Seq<char>)
    requires
        pat.len() > 0,
    ensures
        remove_all(pat + s, pat) == remove_all(s, pat),
{
    assert((pat + s).take(pat.len() as int) =~= pat);
    assert((pat + s).skip(pat.len() as int) =~= s);
}

/// Removing a non-digit character from text made of digits and that
/// character leaves the digits alone, in order; if there was a digit, some
/// digit is left.
pub proof fn lemma_remove_char_keeps_digits(s: Seq<char>, c: char)
    requires
        !is_digit(c),
        forall|i: int| 0 <= i < s.len() ==> (is_digit(#[trigger] s[i]) || s[i] == c),
    ensures
        all_digits(remove_all(s, seq![c])),
        (exists|i: int| 0 <= i < s.len() && is_digit(#[trigger] s[i])) ==> remove_all(
            s,
            seq![c],
        ).len() > 0,
    decreases s.len(),
{
    if s.len() > 0 {
        let t = s.drop_first();
        lemma_remove_char_keeps_digits(t, c);
        assert(seq![c].len() == 1);
        if s[0] == c {
            assert(s.take(1) =~= seq![c]);
            assert(s.skip(1) =~= t);
            if exists|i: int| 0 <= i < s.len() && is_digit(#[trigger] s[i]) {
                let w = choose|i: int| 0 <= i < s.len() && is_digit(#[trigger] s[i]);
                assert(is_digit(t[w - 1]));
            }
        } else {
            assert(s.take(1) != seq![c]) by {
                assert(s.take(1)[0] == s[0]);
            }
            let rest = remove_all(t, seq![c]);
            assert(remove_all(s, seq![c]) == seq![s[0]] + rest);
            assert(is_digit(s[0]));
            assert forall|i: int| 0 <= i < (seq![s[0]] + rest).len() implies is_digit(
                #[trigger] (seq![s[0]] + rest)[i],
            ) by {
                if i > 0 {
                    assert((seq![s[0]] + rest)[i] == rest[i - 1]);
                }
            }
        }
    }
}

/// Converts a string to the vector of its characters.
pub fn str_to_chars(s: &str) -> (v: Vec<char>)
    ensures
        v@ == s@,
{
    let n = s.unicode_len();
    let mut v: Vec<char> = Vec::new();
    let mut i: usize = 0;
    while i < n
        invariant
            n == s@.len(),
            i <= n,
            v@ == s@.take(i as int),
        decreases n - i,
    {
        v.push(s.get_char(i));
        assert(s@.take(i + 1) =~= s@.take(i as int).push(s@[i as int]));
        i = i + 1;
    }
    assert(s@.take(n as int) =~= s@);
    v
}

/// Whether `pat` occurs in `cs` starting at position `at`.
fn matches_at(cs: &Vec<char>, at: usize, pat: &Vec<char>) -> (r: bool)
    requires
        at + pat@.len() <= cs@.len(),
    ensures
        r == (cs@.subrange(at as int, at + pat@.len()) == pat@),
{
    let n = cs.len();
    let m = pat.len();
    let mut j: usize = 0;
    while j < m
        invariant
            n == cs@.len(),
            m == pat@.len(),
            at + m <= n,
            j <= m,
            forall|k: int| 0 <= k < j ==> cs@[at + k] == pat@[k],
        decreases m - j,
    {
        if cs[at + j] != pat[j] {
            assert(cs@.subrange(at as int, at + pat@.len())[j as int] != pat@[j as int]);
            return false;
        }
        j = j + 1;
    }
    assert(cs@.subrange(at as int, at + pat@.len()) =~= pat@);
    true
}

/// Removes every non-overlapping occurrence of `pat` from `cs`, scanning
/// left to right.
pub fn remove_pattern(cs: &Vec<char>, pat: &Vec<char>) -> (out: Vec<char>)
    ensures
        out@ == remove_all(cs@, pat@),
{
    broadcast use group_seq_properties;

    let mut out: Vec<char> = Vec::new();
    let mut i: usize = 0;
    while i < cs.len()
        invariant
            i <= cs@.len(),
            remove_all(cs@, pat@) == out@ + remove_all(cs@.skip(i as int), pat@),
        decreases cs@.len() - i,
    {
        let ghost rest = cs@.skip(i as int);
        if pat.len() > 0 && pat.len() <= cs.len() - i && matches_at(cs, i, pat) {
            proof {
                assert(rest.take(pat@.len() as int) =~= cs@.subrange(
                    i as int,
                    i + pat@.len(),
                ));
                assert(rest.skip(pat@.len() as int) =~= cs@.skip(i + pat@.len()));
            }
            i = i + pat.len();
        } else {
            proof {
                if pat@.len() > 0 && pat@.len() <= rest.len() {
                    assert(rest.take(pat@.len() as int) =~= cs@.subrange(
                        i as int,
                        i + pat@.len(),
                    ));
                }
                assert(rest.drop_first() =~= cs@.skip(i + 1));
                assert(remove_all(rest, pat@) == seq![rest[0]] + remove_all(
                    cs@.skip(i + 1),
                    pat@,
                ));
            }
            out.push(cs[i]);
            i = i + 1;
        }
    }
    proof {
        assert(cs@.skip(cs@.len() as int) =~= Seq::<char>::empty());
        assert(remove_all(Seq::<char>::empty(), pat@) =~= Seq::<char>::empty());
        assert(out@ + Seq::<char>::empty() =~= out@);
    }
    out
}

/// Whether `s` starts with the prefix `p`.
pub fn has_prefix(s: &str, p: &str) -> (r: bool)
    ensures
        r == p@.is_prefix_of(s@),
{
    let n = s.unicode_len();
    let m = p.unicode_len();
    if m > n {
        return false;
    }
    let mut j: usize = 0;
    while j < m
        invariant
            m <= n,
            n == s@.len(),
            m == p@.len(),
            j <= m,
            forall|k: int| 0 <= k < j ==> s@[k] == p@[k],
        decreases m - j,
    {
        if s.get_char(j) != p.get_char(j) {
            assert(!p@.is_prefix_of(s@));
            return false;
        }
        j = j + 1;
    }
    assert(p@ =~= s@.subrange(0, m as int));
    true
}

} // verus!
