//! The currency normalizer: locale-aware conversion of price text such as
//! `"Rp1.250.000"` into an exact numeric value, plus the same decimal
//! machinery reused for optional rating text.

use vstd::prelude::*;
use vstd::arithmetic::div_mod::lemma_fundamental_div_mod;
use vstd::arithmetic::div_mod::lemma_mod_division_less_than_divisor;

use crate::errors::ScrapingError;
use crate::models::Price;
use crate::models::Rating;
use crate::text::all_digits;
use crate::text::digit_of;
use crate::text::digits_val;
use crate::text::is_digit;
use crate::text::lemma_digits_val_nonneg;
use crate::text::lemma_digits_val_prefix_le;
use crate::text::lemma_remove_all_absent;
use crate::text::lemma_remove_all_leading;
use crate::text::lemma_remove_char_keeps_digits;
use crate::text::remove_all;
use crate::text::remove_pattern;
use crate::text::str_to_chars;

verus! {

/// The currency prefix and separator rules used to normalize price text for
/// one marketplace.
#[derive(Debug, Clone)]
pub struct LocaleProfile {
    /// The currency prefix token to strip, e.g. `"Rp"`.
    pub prefix: String,
    /// The thousands-separator character to strip, e.g. `'.'`.
    pub thousands_sep: char,
    /// The decimal-separator character, e.g. `','`.
    pub decimal_sep: char,
}

/// The mathematical content of a [`LocaleProfile`].
pub struct LocaleProfileView {
    pub prefix: Seq<char>,
    pub thousands_sep: char,
    pub decimal_sep: char,
}

impl View for LocaleProfile {
    type V = LocaleProfileView;

    open spec fn view(&self) -> LocaleProfileView {
        LocaleProfileView {
            prefix: self.prefix@,
            thousands_sep: self.thousands_sep,
            decimal_sep: self.decimal_sep,
        }
    }
}

/// The index of the first occurrence of `c` in `s`, if any.
pub open spec fn first_index_of(s: Seq<char>, c: char) -> Option<int>
    decreases s.len(),
{
    if s.len() == 0 {
        None
    } else if s[0] == c {
        Some(0)
    } else {
        match first_index_of(s.drop_first(), c) {
            None => None,
            Some(i) => Some(i + 1),
        }
    }
}

/// `first_index_of` returns exactly the first occurrence: the character is
/// there, nothing before it matches, and `None` means no occurrence at all.
pub proof fn lemma_first_index_of(s: Seq<char>, c: char)
    ensures
        match first_index_of(s, c) {
            Some(i) => {
                &&& 0 <= i < s.len()
                &&& s[i] == c
                &&& forall|j: int| 0 <= j < i ==> s[j] != c
            },
            None => forall|j: int| 0 <= j < s.len() ==> s[j] != c,
        },
    decreases s.len(),
{
    if s.len() > 0 && s[0] != c {
        lemma_first_index_of(s.drop_first(), c);
        match first_index_of(s.drop_first(), c) {
            Some(i) => {
                assert(s[i + 1] == s.drop_first()[i]);
                assert forall|j: int| 0 <= j < i + 1 implies s[j] != c by {
                    if j >= 1 {
                        assert(s[j] == s.drop_first()[j - 1]);
                    }
                }
            },
            None => {
                assert forall|j: int| 0 <= j < s.len() implies s[j] != c by {
                    if j >= 1 {
                        assert(s[j] == s.drop_first()[j - 1]);
                    }
                }
            },
        }
    }
}

/// The value, in hundredths, of decimal text: one or more digits, optionally
/// followed by the decimal separator and one or two fraction digits. Any
/// other shape has no value.
pub open spec fn decimal_hundredths(s: Seq<char>, dsep: char) -> Option<int> {
    match first_index_of(s, dsep) {
        None => if s.len() > 0 && all_digits(s) {
            Some(100 * digits_val(s))
        } else {
            None
        },
        Some(i) => {
            let ip = s.take(i);
            let fp = s.skip(i + 1);
            if ip.len() > 0 && all_digits(ip) && 1 <= fp.len() <= 2 && all_digits(fp) {
                Some(
                    100 * digits_val(ip) + if fp.len() == 1 {
                        10 * digits_val(fp)
                    } else {
                        digits_val(fp)
                    },
                )
            } else {
                None
            }
        },
    }
}

/// Price text after locale cleanup: every occurrence of the currency prefix
/// removed, then every thousands-separator character removed.
pub open spec fn cleaned_price_text(raw: Seq<char>, p: LocaleProfileView) -> Seq<char> {
    remove_all(remove_all(raw, p.prefix), seq![p.thousands_sep])
}

/// The exact value, in hundredths, that price text denotes under a locale
/// profile, if it denotes one.
pub open spec fn price_value(raw: Seq<char>, p: LocaleProfileView) -> Option<int> {
    decimal_hundredths(cleaned_price_text(raw, p), p.decimal_sep)
}

/// The exact value, in hundredths, that rating text denotes.
pub open spec fn rating_value(raw: Seq<char>) -> Option<int> {
    decimal_hundredths(raw, '.')
}

/// Finds the first occurrence of `c` in `cs`.
fn find_char(cs: &Vec<char>, c: char) -> (r: Option<usize>)
    ensures
        match r {
            Some(i) => first_index_of(cs@, c) == Some(i as int),
            None => first_index_of(cs@, c) is None,
        },
{
    proof {
        lemma_first_index_of(cs@, c);
    }
    let n = cs.len();
    let mut i: usize = 0;
    while i < n
        invariant
            n == cs@.len(),
            i <= n,
            forall|j: int| 0 <= j < i ==> cs@[j] != c,
        decreases n - i,
    {
        if cs[i] == c {
            proof {
                lemma_first_index_of_found(cs@, c, i as int);
            }
            return Some(i);
        }
        i = i + 1;
    }
    None
}

/// If `i` is an occurrence of `c` with nothing matching before it, it is the
/// first occurrence.
proof fn lemma_first_index_of_found(s: Seq<char>, c: char, i: int)
    requires
        0 <= i < s.len(),
        s[i] == c,
        forall|j: int| 0 <= j < i ==> s[j] != c,
    ensures
        first_index_of(s, c) == Some(i),
    decreases i,
{
    if i > 0 {
        lemma_first_index_of_found(s.drop_first(), c, i - 1);
    }
}

/// Evaluates the digit run `cs[from..to]`, reporting `None` on a non-digit
/// or a value beyond `u64::MAX`.
fn digit_run_value(cs: &Vec<char>, from: usize, to: usize) -> (r: Option<u64>)
    requires
        from <= to <= cs@.len(),
    ensures
        ({
            let sub = cs@.subrange(from as int, to as int);
            match r {
                Some(v) => all_digits(sub) && digits_val(sub) == v,
                None => !all_digits(sub) || digits_val(sub) > u64::MAX,
            }
        }),
{
    let ghost sub = cs@.subrange(from as int, to as int);
    let mut acc: u64 = 0;
    let mut i: usize = from;
    while i < to
        invariant
            from <= i <= to <= cs@.len(),
            sub == cs@.subrange(from as int, to as int),
            all_digits(sub.take(i - from)),
            acc == digits_val(sub.take(i - from)),
        decreases to - i,
    {
        let c = cs[i];
        let ghost k = i - from;
        proof {
            assert(sub.take(k + 1).drop_last() =~= sub.take(k));
            assert(sub.take(k + 1).last() == sub[k] && sub[k] == cs@[i as int]);
        }
        if !('0' <= c && c <= '9') {
            assert(!is_digit(sub[k]));
            return None;
        }
        let d: u64 = (c as u32 as u64) - 48;
        assert(d == digit_of(sub[k]) && d <= 9);
        let limit = (u64::MAX - d) / 10;
        proof {
            lemma_fundamental_div_mod((u64::MAX - d) as int, 10);
            lemma_mod_division_less_than_divisor((u64::MAX - d) as int, 10);
        }
        if acc > limit {
            proof {
                assert(digits_val(sub.take(k + 1)) == 10 * (acc as int) + d);
                assert(10 * (acc as int) + d > u64::MAX);
                assert(all_digits(sub.take(k + 1)));
                if all_digits(sub) {
                    lemma_digits_val_prefix_le(sub, k + 1);
                }
            }
            return None;
        }
        acc = acc * 10 + d;
        i = i + 1;
    }
    proof {
        assert(sub.take(to - from) =~= sub);
    }
    Some(acc)
}

/// A digit run of at most two digits is worth at most 99.
proof fn lemma_short_run_bound(s: Seq<char>)
    requires
        all_digits(s),
        s.len() <= 2,
    ensures
        0 <= digits_val(s) <= 99,
        s.len() == 1 ==> digits_val(s) <= 9,
{
    lemma_digits_val_nonneg(s);
    if s.len() == 1 {
        assert(digits_val(s) == 10 * digits_val(s.drop_last()) + digit_of(s.last()));
        assert(s.drop_last().len() == 0);
    } else if s.len() == 2 {
        let h = s.drop_last();
        assert(digits_val(h) == 10 * digits_val(h.drop_last()) + digit_of(h.last()));
        assert(h.drop_last().len() == 0);
        assert(digits_val(s) == 10 * digits_val(h) + digit_of(s.last()));
    }
}

/// Evaluates decimal text to its value in hundredths, reporting `None` when
/// the text is not well-formed decimal text or its value does not fit.
fn decimal_value(cs: &Vec<char>, dsep: char) -> (r: Option<u64>)
    ensures
        match r {
            Some(v) => decimal_hundredths(cs@, dsep) == Some(v as int),
            None => decimal_hundredths(cs@, dsep) is None || decimal_hundredths(cs@, dsep)->Some_0
                > u64::MAX,
        },
{
    let n = cs.len();
    match find_char(cs, dsep) {
        None => {
            if n == 0 {
                return None;
            }
            let v = match digit_run_value(cs, 0, n) {
                Some(v) => v,
                None => {
                    proof {
                        assert(cs@.subrange(0, n as int) =~= cs@);
                        if all_digits(cs@) && digits_val(cs@) > u64::MAX {
                            assert(100 * digits_val(cs@) > u64::MAX);
                        }
                    }
                    return None;
                },
            };
            proof {
                assert(cs@.subrange(0, n as int) =~= cs@);
            }
            let limit = u64::MAX / 100;
            proof {
                lemma_fundamental_div_mod(u64::MAX as int, 100);
                lemma_mod_division_less_than_divisor(u64::MAX as int, 100);
            }
            if v > limit {
                assert(100 * (v as int) > u64::MAX);
                return None;
            }
            Some(v * 100)
        },
        Some(i) => {
            proof {
                lemma_first_index_of(cs@, dsep);
            }
            let ghost ip = cs@.take(i as int);
            let ghost fp = cs@.skip(i + 1);
            if i == 0 {
                return None;
            }
            let flen = n - i - 1;
            if flen < 1 || flen > 2 {
                return None;
            }
            let ipv = match digit_run_value(cs, 0, i) {
                Some(v) => v,
                None => {
                    proof {
                        assert(cs@.subrange(0, i as int) =~= ip);
                        if all_digits(ip) && digits_val(ip) > u64::MAX && all_digits(fp) {
                            lemma_digits_val_nonneg(fp);
                        }
                    }
                    return None;
                },
            };
            proof {
                assert(cs@.subrange(0, i as int) =~= ip);
            }
            let fpv = match digit_run_value(cs, i + 1, n) {
                Some(v) => v,
                None => {
                    proof {
                        assert(cs@.subrange(i + 1, n as int) =~= fp);
                        if all_digits(fp) {
                            lemma_short_run_bound(fp);
                        }
                    }
                    return None;
                },
            };
            proof {
                assert(cs@.subrange(i + 1, n as int) =~= fp);
                lemma_short_run_bound(fp);
            }
            let scaled: u64 = if flen == 1 {
                10 * fpv
            } else {
                fpv
            };
            assert(scaled <= 99);
            let limit = (u64::MAX - scaled) / 100;
            proof {
                lemma_fundamental_div_mod((u64::MAX - scaled) as int, 100);
                lemma_mod_division_less_than_divisor((u64::MAX - scaled) as int, 100);
            }
            if ipv > limit {
                assert(100 * (ipv as int) + scaled > u64::MAX);
                return None;
            }
            Some(ipv * 100 + scaled)
        },
    }
}

/// Converts locale-formatted price text into an exact price: strips the
/// currency prefix and the thousands separators, then reads the remaining
/// digits (with an optional decimal separator and up to two fraction
/// digits). Fails with `TextParseError`, carrying the raw text, when the
/// cleaned text is not decimal text or its value cannot be represented.
pub fn parse_price(raw: &str, profile: &LocaleProfile) -> (r: Result<Price, ScrapingError>)
    ensures
        match r {
            Ok(p) => price_value(raw@, profile@) == Some(p.hundredths as int),
            Err(e) => {
                &&& (price_value(raw@, profile@) is None || price_value(raw@, profile@)->Some_0
                    > u64::MAX)
                &&& e matches ScrapingError::TextParseError { text } && text@ == raw@
            },
        },
{
    let cs = str_to_chars(raw);
    let pfx = str_to_chars(profile.prefix.as_str());
    let no_prefix = remove_pattern(&cs, &pfx);
    let sep: Vec<char> = vec![profile.thousands_sep];
    proof {
        assert(sep@ =~= seq![profile.thousands_sep]);
    }
    let cleaned = remove_pattern(&no_prefix, &sep);
    match decimal_value(&cleaned, profile.decimal_sep) {
        Some(v) => Ok(Price { hundredths: v }),
        None => Err(ScrapingError::TextParseError { text: String::from_str(raw) }),
    }
}

/// Reads rating text as a decimal number (digits with an optional `.` and
/// up to two fraction digits), yielding `None` on any malformed text.
pub fn parse_rating(raw: &str) -> (r: Option<Rating>)
    ensures
        match r {
            Some(x) => rating_value(raw@) == Some(x.hundredths as int),
            None => rating_value(raw@) is None || rating_value(raw@)->Some_0 > u64::MAX,
        },
{
    let cs = str_to_chars(raw);
    match decimal_value(&cs, '.') {
        Some(v) => Some(Rating { hundredths: v }),
        None => None,
    }
}

/// For price text whose cleanup (currency prefix and thousands separators
/// removed) leaves one or more digits and nothing else — such as
/// `"Rp"` followed by digit groups separated by `'.'` — the parsed price is
/// exactly the value of that digit run, in whole currency units.
pub proof fn lemma_price_of_digit_groups(raw: Seq<char>, p: LocaleProfileView)
    requires
        all_digits(cleaned_price_text(raw, p)),
        cleaned_price_text(raw, p).len() > 0,
        !is_digit(p.decimal_sep),
    ensures
        price_value(raw, p) == Some(100 * digits_val(cleaned_price_text(raw, p))),
{
    let cleaned = cleaned_price_text(raw, p);
    lemma_first_index_of(cleaned, p.decimal_sep);
    if first_index_of(cleaned, p.decimal_sep) is Some {
        let i = first_index_of(cleaned, p.decimal_sep)->Some_0;
        assert(is_digit(cleaned[i]));
    }
}

/// For currency text of the form `currency prefix + digits grouped by the
/// thousands separator` — at least one digit, the prefix opening with a
/// character that is neither digit nor separator, the separators pairwise
/// distinct from digits and from each other — the parsed price is exactly
/// the digits' value with the separators removed, in whole currency
/// units.
pub proof fn lemma_price_of_grouped_text(groups: Seq<char>, p: LocaleProfileView)
    requires
        forall|i: int|
            0 <= i < groups.len() ==> (is_digit(#[trigger] groups[i]) || groups[i]
                == p.thousands_sep),
        exists|i: int| 0 <= i < groups.len() && is_digit(#[trigger] groups[i]),
        p.prefix.len() > 0,
        !is_digit(p.prefix[0]),
        p.prefix[0] != p.thousands_sep,
        !is_digit(p.thousands_sep),
        !is_digit(p.decimal_sep),
        p.decimal_sep != p.thousands_sep,
    ensures
        price_value(p.prefix + groups, p) == Some(
            100 * digits_val(remove_all(groups, seq![p.thousands_sep])),
        ),
{
    lemma_remove_all_leading(groups, p.prefix);
    assert forall|i: int| 0 <= i <= groups.len() - p.prefix.len() implies #[trigger] groups
        .subrange(i, i + p.prefix.len()) != p.prefix by {
        assert(groups.subrange(i, i + p.prefix.len())[0] == groups[i]);
    }
    lemma_remove_all_absent(groups, p.prefix);
    assert(remove_all(p.prefix + groups, p.prefix) == groups);
    lemma_remove_char_keeps_digits(groups, p.thousands_sep);
    let cleaned = remove_all(groups, seq![p.thousands_sep]);
    assert(cleaned_price_text(p.prefix + groups, p) == cleaned);
    lemma_price_of_digit_groups(p.prefix + groups, p);
}

/// Price text lacking digits entirely after cleanup denotes no value: the
/// normalizer fails on it rather than defaulting.
pub proof fn lemma_price_without_digits_fails(raw: Seq<char>, p: LocaleProfileView)
    requires
        forall|i: int|
            0 <= i < cleaned_price_text(raw, p).len() ==> !is_digit(
                #[trigger] cleaned_price_text(raw, p)[i],
            ),
    ensures
        price_value(raw, p) is None,
{
    let cleaned = cleaned_price_text(raw, p);
    lemma_first_index_of(cleaned, p.decimal_sep);
    match first_index_of(cleaned, p.decimal_sep) {
        None => {
            if cleaned.len() > 0 {
                assert(!is_digit(cleaned[0]));
            }
        },
        Some(i) => {
            if i > 0 {
                assert(!is_digit(cleaned.take(i)[0]));
            }
        },
    }
}

} // verus!
