//! Small scanning helpers over character sequences: runs of digits and of
//! characters other than a delimiter, and decimal numbers.

use vstd::prelude::*;
use crate::markup::occurs_at;

verus! {

/// An ASCII decimal digit.
pub open spec fn is_digit(c: char) -> bool {
    '0' <= c && c <= '9'
}

/// Whether a character outside ASCII is a decimal digit in Unicode's sense
/// (general category `Nd`), as the regex crate's `\d` decides it.
pub uninterp spec fn unicode_decimal_digit(c: char) -> bool;

/// What a `\d` of a regular expression matches: in ASCII the digits `0` to
/// `9`, elsewhere the characters of Unicode's decimal-number category.
pub open spec fn is_decimal_digit(c: char) -> bool {
    if (c as u32) < 128 {
        is_digit(c)
    } else {
        unicode_decimal_digit(c)
    }
}

/// Every character is an ASCII digit, as `str::parse` of a number asks.
pub open spec fn ascii_digits(s: Seq<char>) -> bool {
    forall|i: int| 0 <= i < s.len() ==> is_digit(#[trigger] s[i])
}

/// Whether the regex crate's `\d` matches a character outside ASCII
/// (`Regex::is_match` on the pattern `\A\d\z`).
/// Trusted: the result is the crate's test of the `Nd` category.
#[verifier::external_body]
fn regex_matches_digit(c: char) -> (res: bool)
    requires
        (c as u32) >= 128,
    ensures
        res == unicode_decimal_digit(c),
{
    match regex::Regex::new(r"\A\d\z") {
        Ok(rg) => rg.is_match(&c.to_string()),
        Err(_) => false,
    }
}

/// Whether `\d` matches a character.
pub fn decimal_digit_exec(c: char) -> (res: bool)
    ensures
        res == is_decimal_digit(c),
{
    if (c as u32) < 128 {
        '0' <= c && c <= '9'
    } else {
        regex_matches_digit(c)
    }
}

/// Whether the characters `a..b` of `t` are all ASCII digits.
pub fn ascii_digits_exec(t: &Vec<char>, a: usize, b: usize) -> (res: bool)
    requires
        a <= b <= t@.len(),
    ensures
        res == ascii_digits(t@.subrange(a as int, b as int)),
{
    let mut k = a;
    while k < b
        invariant
            a <= k <= b <= t@.len(),
            forall|i: int| a <= i < k ==> is_digit(#[trigger] t@[i]),
        decreases b - k,
    {
        if !('0' <= t[k] && t[k] <= '9') {
            assert(t@.subrange(a as int, b as int)[k - a] == t@[k as int]);
            return false;
        }
        k += 1;
    }
    assert forall|i: int| 0 <= i < b - a implies is_digit(#[trigger] t@.subrange(a as int, b as int)[i]) by {
        assert(t@.subrange(a as int, b as int)[i] == t@[a + i]);
    }
    true
}

/// The value of a digit character.
pub open spec fn digit_of(c: char) -> nat {
    ((c as int) - ('0' as int)) as nat
}

/// The value of a string of decimal digits (0 for the empty string).
pub open spec fn digits_value(s: Seq<char>) -> nat
    decreases s.len(),
{
    if s.len() == 0 {
        0
    } else {
        digits_value(s.drop_last()) * 10 + digit_of(s.last())
    }
}

/// The end of the run of digits (`\d+`) that starts at `j`.
pub open spec fn digits_end(t: Seq<char>, j: int) -> int
    decreases t.len() - j,
{
    if 0 <= j < t.len() && is_decimal_digit(t[j]) {
        digits_end(t, j + 1)
    } else {
        j
    }
}

/// The start of the run of digits that ends at `k`, not going below `lo`.
pub open spec fn digits_start(t: Seq<char>, lo: int, k: int) -> int
    decreases k - lo,
{
    if lo < k && 0 < k <= t.len() && is_decimal_digit(t[k - 1]) {
        digits_start(t, lo, k - 1)
    } else {
        k
    }
}

/// The end of the run of characters other than `c` that starts at `j`.
pub open spec fn run_end_not(t: Seq<char>, c: char, j: int) -> int
    decreases t.len() - j,
{
    if 0 <= j < t.len() && t[j] != c {
        run_end_not(t, c, j + 1)
    } else {
        j
    }
}

/// The first index at or after `from` where `f` finds something, with
/// what it found.
pub open spec fn first_from<A>(len: int, f: spec_fn(int) -> Option<A>, from: int) -> Option<(int, A)>
    decreases len - from,
{
    if from >= len {
        None
    } else if let Some(x) = f(from) {
        Some((from, x))
    } else {
        first_from(len, f, from + 1)
    }
}

pub proof fn lemma_runs(t: Seq<char>, c: char, j: int)
    ensures
        digits_end(t, j) >= j,
        run_end_not(t, c, j) >= j,
        0 <= j <= t.len() ==> digits_end(t, j) <= t.len(),
        0 <= j <= t.len() ==> run_end_not(t, c, j) <= t.len(),
        forall|k: int| j <= k < digits_end(t, j) ==> is_decimal_digit(#[trigger] t[k]),
    decreases t.len() - j,
{
    if 0 <= j < t.len() {
        lemma_runs(t, c, j + 1);
    }
}

pub proof fn lemma_digits_start(t: Seq<char>, lo: int, k: int)
    ensures
        lo <= k ==> lo <= digits_start(t, lo, k) <= k,
    decreases k - lo,
{
    if lo < k && 0 < k <= t.len() && is_decimal_digit(t[k - 1]) {
        lemma_digits_start(t, lo, k - 1);
    }
}

/// The end of the run of digits from `j`.
pub fn digits_end_exec(t: &Vec<char>, j: usize) -> (res: usize)
    ensures
        res as int == digits_end(t@, j as int),
{
    let mut k = j;
    while k < t.len() && decimal_digit_exec(t[k])
        invariant
            j <= k,
            digits_end(t@, j as int) == digits_end(t@, k as int),
        decreases t.len() - k,
    {
        k += 1;
    }
    k
}

/// The start of the run of digits ending at `k`, not below `lo`.
pub fn digits_start_exec(t: &Vec<char>, lo: usize, k: usize) -> (res: usize)
    requires
        k <= t@.len(),
    ensures
        res as int == digits_start(t@, lo as int, k as int),
{
    let mut m = k;
    while lo < m && decimal_digit_exec(t[m - 1])
        invariant
            m <= k <= t@.len(),
            digits_start(t@, lo as int, k as int) == digits_start(t@, lo as int, m as int),
        decreases m,
    {
        m -= 1;
    }
    m
}

/// The end of the run of characters other than `c` from `j`.
pub fn run_end_not_exec(t: &Vec<char>, c: char, j: usize) -> (res: usize)
    ensures
        res as int == run_end_not(t@, c, j as int),
{
    let mut k = j;
    while k < t.len() && t[k] != c
        invariant
            j <= k,
            run_end_not(t@, c, j as int) == run_end_not(t@, c, k as int),
        decreases t.len() - k,
    {
        k += 1;
    }
    k
}

/// The value of the digits `t[a..b]`, or `None` when it exceeds `max`.
pub fn digits_value_upto(t: &Vec<char>, a: usize, b: usize, max: u64) -> (res: Option<u64>)
    requires
        a <= b <= t@.len(),
        forall|k: int| a <= k < b ==> is_digit(#[trigger] t@[k]),
    ensures
        match res {
            Some(v) => v as nat == digits_value(t@.subrange(a as int, b as int)) && v <= max,
            None => digits_value(t@.subrange(a as int, b as int)) > max,
        },
{
    let mut v: u64 = 0;
    let mut k = a;
    while k < b
        invariant
            a <= k <= b <= t@.len(),
            forall|i: int| a <= i < b ==> is_digit(#[trigger] t@[i]),
            v as nat == digits_value(t@.subrange(a as int, k as int)),
            v <= max,
        decreases b - k,
    {
        assert(t@.subrange(a as int, k + 1).drop_last() =~= t@.subrange(a as int, k as int));
        assert(is_digit(t@[k as int]));
        let d = (t[k] as u32 - '0' as u32) as u64;
        assert(d as nat == digit_of(t@[k as int]));
        let next: Option<u64> = match v.checked_mul(10) {
            Some(w) => match w.checked_add(d) {
                Some(x) => if x <= max {
                    Some(x)
                } else {
                    None
                },
                None => None,
            },
            None => None,
        };
        match next {
            None => {
                proof {
                    lemma_digits_monotone(t@.subrange(a as int, b as int), (k + 1 - a) as int);
                    assert(t@.subrange(a as int, b as int).take((k + 1 - a) as int) =~= t@.subrange(a as int, k + 1));
                }
                return None;
            },
            Some(x) => {
                v = x;
            },
        }
        k += 1;
    }
    Some(v)
}

/// The number written by the characters `a..b` of `t`, as `str::parse`
/// reads it: `None` unless they are all ASCII digits with a value up to
/// `max`.
pub fn ascii_number_upto(t: &Vec<char>, a: usize, b: usize, max: u64) -> (res: Option<u64>)
    requires
        a <= b <= t@.len(),
    ensures
        match res {
            Some(v) => ascii_digits(t@.subrange(a as int, b as int)) && v as nat == digits_value(
                t@.subrange(a as int, b as int),
            ) && v <= max,
            None => !ascii_digits(t@.subrange(a as int, b as int)) || digits_value(t@.subrange(a as int, b as int))
                > max,
        },
{
    if !ascii_digits_exec(t, a, b) {
        return None;
    }
    assert forall|k: int| a <= k < b implies is_digit(#[trigger] t@[k]) by {
        assert(t@.subrange(a as int, b as int)[k - a] == t@[k]);
    }
    digits_value_upto(t, a, b, max)
}

/// A string of digits is worth at least any of its prefixes.
pub proof fn lemma_digits_monotone(s: Seq<char>, n: int)
    requires
        0 <= n <= s.len(),
    ensures
        digits_value(s.take(n)) <= digits_value(s),
    decreases s.len(),
{
    if n < s.len() {
        assert(s.drop_last().take(n) =~= s.take(n));
        lemma_digits_monotone(s.drop_last(), n);
        assert(digits_value(s.drop_last()) <= digits_value(s)) by (nonlinear_arith)
            requires
                digits_value(s) == digits_value(s.drop_last()) * 10 + digit_of(s.last()),
        ;
    } else {
        assert(s.take(n) =~= s);
    }
}

/// What `first_from` finds is found at its index, inside the range.
pub proof fn lemma_first_from<A>(len: int, f: spec_fn(int) -> Option<A>, from: int)
    ensures
        first_from(len, f, from) matches Some((j, x)) ==> from <= j < len && f(j) == Some(x),
    decreases len - from,
{
    if from < len && f(from) is None {
        lemma_first_from(len, f, from + 1);
    }
}

/// The characters `a..b` of `t`.
pub fn copy_range(t: &Vec<char>, a: usize, b: usize) -> (res: Vec<char>)
    requires
        a <= b <= t@.len(),
    ensures
        res@ == t@.subrange(a as int, b as int),
{
    let mut v: Vec<char> = Vec::new();
    let mut k = a;
    while k < b
        invariant
            a <= k <= b <= t@.len(),
            v@ == t@.subrange(a as int, k as int),
        decreases b - k,
    {
        v.push(t[k]);
        k += 1;
        assert(v@ =~= t@.subrange(a as int, k as int));
    }
    v
}

/// The characters `a..b` of `t` as a string.
pub fn range_string(t: &Vec<char>, a: usize, b: usize) -> (res: String)
    requires
        a <= b <= t@.len(),
    ensures
        res@ == t@.subrange(a as int, b as int),
{
    let v = copy_range(t, a, b);
    crate::text::string_of(v.as_slice())
}

} // verus!
