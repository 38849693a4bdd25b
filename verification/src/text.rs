//! Character-level string helpers shared by the library: conversion between
//! `&str`/`String` and character vectors, substring search and decimal
//! rendering of integers.

use vstd::prelude::*;

verus! {

broadcast use vstd::string::group_string_axioms;

/// Appends one character to a `String` (`String::push`).
/// Claimed: the string afterwards is the old string followed by `c`.
#[verifier::external_body]
pub(crate) fn push_char(s: &mut String, c: char)
    ensures
        final(s)@ == old(s)@.push(c),
{
    s.push(c);
}

/// The characters of `s`, in order.
pub fn chars_of(s: &str) -> (r: Vec<char>)
    ensures
        r@ == s@,
{
    let mut r: Vec<char> = Vec::new();
    for c in it: s.chars()
        invariant
            r@ == it.seq().take(it.index() as int),
    {
        r.push(c);
    }
    r
}

/// Appends the characters `cs[from..to]` to `out`.
pub fn push_chars(out: &mut String, cs: &Vec<char>, from: usize, to: usize)
    requires
        from <= to <= cs@.len(),
    ensures
        final(out)@ == old(out)@ + cs@.subrange(from as int, to as int),
{
    let mut i = from;
    while i < to
        invariant
            from <= i <= to <= cs@.len(),
            out@ == old(out)@ + cs@.subrange(from as int, i as int),
        decreases to - i,
    {
        push_char(out, cs[i]);
        i = i + 1;
        assert(cs@.subrange(from as int, i as int) =~= cs@.subrange(from as int, i - 1).push(
            cs@[i - 1],
        ));
    }
}

/// A `String` holding exactly the characters `cs[from..to]`.
pub fn string_from_chars(cs: &Vec<char>, from: usize, to: usize) -> (r: String)
    requires
        from <= to <= cs@.len(),
    ensures
        r@ == cs@.subrange(from as int, to as int),
{
    let mut r = String::new();
    push_chars(&mut r, cs, from, to);
    assert(Seq::<char>::empty() + cs@.subrange(from as int, to as int) =~= cs@.subrange(
        from as int,
        to as int,
    ));
    r
}

/// `pat` occurs in `s` starting at index `i`.
pub open spec fn occurs_at(s: Seq<char>, pat: Seq<char>, i: int) -> bool {
    0 <= i && i + pat.len() <= s.len() && s.subrange(i, i + pat.len()) == pat
}

/// `pat` occurs somewhere in `s` (the empty pattern occurs in every string).
pub open spec fn contains_seq(s: Seq<char>, pat: Seq<char>) -> bool {
    exists|i: int| occurs_at(s, pat, i)
}

/// Index of the last occurrence of `pat` in `s`, if any.
pub open spec fn last_occurrence(s: Seq<char>, pat: Seq<char>) -> Option<int> {
    if contains_seq(s, pat) {
        Some(
            choose|i: int|
                occurs_at(s, pat, i) && forall|j: int| i < j ==> !#[trigger] occurs_at(s, pat, j),
        )
    } else {
        None
    }
}

/// What `last_occurrence` finds: an occurrence with none after it, or
/// nothing when there is no occurrence at all.
pub proof fn lemma_last_occurrence(s: Seq<char>, pat: Seq<char>)
    ensures
        match last_occurrence(s, pat) {
            Some(i) => occurs_at(s, pat, i) && forall|j: int| i < j ==> !#[trigger] occurs_at(s, pat, j),
            None => !contains_seq(s, pat),
        },
{
    if contains_seq(s, pat) {
        let w = choose|i: int| occurs_at(s, pat, i);
        // the last occurrence exists: search downwards from the end
        lemma_exists_last(s, pat, s.len() as int, w);
    }
}

proof fn lemma_exists_last(s: Seq<char>, pat: Seq<char>, bound: int, w: int)
    requires
        occurs_at(s, pat, w),
        w <= bound,
        forall|j: int| bound < j ==> !#[trigger] occurs_at(s, pat, j),
    ensures
        exists|i: int| occurs_at(s, pat, i) && forall|j: int| i < j ==> !#[trigger] occurs_at(s, pat, j),
    decreases bound - w,
{
    if occurs_at(s, pat, bound) {
        assert(occurs_at(s, pat, bound) && forall|j: int| bound < j ==> !#[trigger] occurs_at(s, pat, j));
    } else {
        lemma_exists_last(s, pat, bound - 1, w);
    }
}

/// `s` ends with `suffix`.
pub open spec fn ends_with_seq(s: Seq<char>, suffix: Seq<char>) -> bool {
    occurs_at(s, suffix, s.len() - suffix.len())
}

/// Whether `pat` occurs in `s` at index `i` (exec form of [`occurs_at`]).
pub fn matches_at(s: &Vec<char>, pat: &Vec<char>, i: usize) -> (r: bool)
    ensures
        r == occurs_at(s@, pat@, i as int),
{
    if pat.len() > s.len() || i > s.len() - pat.len() {
        return false;
    }
    let mut k: usize = 0;
    while k < pat.len()
        invariant
            i + pat@.len() <= s@.len(),
            s@.len() == s.len(),
            k <= pat@.len(),
            forall|j: int| 0 <= j < k ==> s@[i + j] == pat@[j],
        decreases pat.len() - k,
    {
        if s[i + k] != pat[k] {
            assert(s@.subrange(i as int, i + pat@.len())[k as int] != pat@[k as int]);
            return false;
        }
        k = k + 1;
    }
    assert(s@.subrange(i as int, i + pat@.len()) =~= pat@);
    true
}

/// Index of the last occurrence of `pat` in `s`, like `str::rfind` on
/// characters.
pub fn rfind(s: &Vec<char>, pat: &Vec<char>) -> (r: Option<usize>)
    ensures
        match r {
            Some(i) => occurs_at(s@, pat@, i as int) && forall|j: int|
                i < j ==> !#[trigger] occurs_at(s@, pat@, j),
            None => forall|j: int| !#[trigger] occurs_at(s@, pat@, j),
        },
        match r {
            Some(i) => last_occurrence(s@, pat@) == Some(i as int),
            None => last_occurrence(s@, pat@) is None,
        },
{
    let r = rfind_scan(s, pat);
    proof {
        match r {
            Some(i) => {
                let k = choose|k: int|
                    occurs_at(s@, pat@, k) && forall|j: int| k < j ==> !#[trigger] occurs_at(s@, pat@, j);
                assert(occurs_at(s@, pat@, i as int));
                assert(contains_seq(s@, pat@));
                if k < i {
                    assert(!occurs_at(s@, pat@, i as int));
                } else if k > i {
                    assert(!occurs_at(s@, pat@, k));
                }
            },
            None => {},
        }
    }
    r
}

fn rfind_scan(s: &Vec<char>, pat: &Vec<char>) -> (r: Option<usize>)
    ensures
        match r {
            Some(i) => occurs_at(s@, pat@, i as int) && forall|j: int|
                i < j ==> !#[trigger] occurs_at(s@, pat@, j),
            None => forall|j: int| !#[trigger] occurs_at(s@, pat@, j),
        },
{
    if pat.len() > s.len() {
        return None;
    }
    let last: usize = s.len() - pat.len();
    let mut i: usize = last;
    loop
        invariant
            pat@.len() <= s@.len(),
            last == s@.len() - pat@.len(),
            i <= last,
            forall|j: int| i < j ==> !#[trigger] occurs_at(s@, pat@, j),
        decreases i,
    {
        if matches_at(s, pat, i) {
            return Some(i);
        }
        if i == 0 {
            return None;
        }
        i = i - 1;
    }
}

/// Whether `pat` occurs anywhere in `s`, like `str::contains`.
pub fn contains(s: &Vec<char>, pat: &Vec<char>) -> (r: bool)
    ensures
        r == contains_seq(s@, pat@),
{
    match rfind(s, pat) {
        Some(i) => true,
        None => false,
    }
}

/// Whether `s` ends with `suffix`, like `str::ends_with`.
pub fn ends_with(s: &Vec<char>, suffix: &Vec<char>) -> (r: bool)
    ensures
        r == ends_with_seq(s@, suffix@),
{
    if suffix.len() > s.len() {
        return false;
    }
    matches_at(s, suffix, s.len() - suffix.len())
}

/// The ASCII digit for `d` (`0 <= d < 10`).
pub open spec fn digit_char(d: nat) -> char {
    (48 + d) as char
}

/// Decimal rendering of a natural number, most significant digit first.
pub open spec fn decimal(n: nat) -> Seq<char>
    decreases n,
{
    if n < 10 {
        seq![digit_char(n)]
    } else {
        decimal(n / 10).push(digit_char(n % 10))
    }
}

/// Decimal rendering of an integer, with a leading `-` when negative.
pub open spec fn signed_decimal(n: int) -> Seq<char> {
    if n < 0 {
        seq!['-'] + decimal((-n) as nat)
    } else {
        decimal(n as nat)
    }
}

/// The number a string of ASCII digits denotes.
pub open spec fn digits_value(s: Seq<char>) -> int
    decreases s.len(),
{
    if s.len() == 0 {
        0
    } else {
        digits_value(s.drop_last()) * 10 + (s.last() as int - 48)
    }
}

/// Reading back a decimal rendering gives the number, and a rendering
/// never starts with `-`.
pub proof fn lemma_decimal_value(n: nat)
    ensures
        digits_value(decimal(n)) == n,
        decimal(n).len() >= 1,
        decimal(n)[0] != '-',
    decreases n,
{
    let d = n % 10;
    assert(digit_char(d) as int == 48 + d);
    if n >= 10 {
        lemma_decimal_value(n / 10);
        assert(decimal(n).drop_last() =~= decimal(n / 10));
        assert(decimal(n).last() == digit_char(d));
        assert(digits_value(decimal(n)) == digits_value(decimal(n / 10)) * 10 + d);
    } else {
        assert(decimal(n).drop_last() =~= Seq::<char>::empty());
        assert(digits_value(Seq::<char>::empty()) == 0);
    }
}

/// Distinct integers have distinct decimal renderings.
pub proof fn lemma_signed_decimal_injective(a: int, b: int)
    requires
        signed_decimal(a) == signed_decimal(b),
    ensures
        a == b,
{
    if a < 0 {
        lemma_decimal_value((-a) as nat);
    } else {
        lemma_decimal_value(a as nat);
    }
    if b < 0 {
        lemma_decimal_value((-b) as nat);
    } else {
        lemma_decimal_value(b as nat);
    }
    if a < 0 && b < 0 {
        assert(decimal((-a) as nat) =~= signed_decimal(a).subrange(1, signed_decimal(a).len() as int));
        assert(decimal((-b) as nat) =~= signed_decimal(b).subrange(1, signed_decimal(b).len() as int));
    } else if a < 0 {
        assert(signed_decimal(a)[0] == '-');
    } else if b < 0 {
        assert(signed_decimal(b)[0] == '-');
    }
}

/// Appends the decimal rendering of `n` to `out`.
pub fn push_decimal(out: &mut String, n: u64)
    ensures
        final(out)@ == old(out)@ + decimal(n as nat),
    decreases n,
{
    if n >= 10 {
        push_decimal(out, n / 10);
    }
    let d: u64 = n % 10;
    let c: char = if d == 0 {
        '0'
    } else if d == 1 {
        '1'
    } else if d == 2 {
        '2'
    } else if d == 3 {
        '3'
    } else if d == 4 {
        '4'
    } else if d == 5 {
        '5'
    } else if d == 6 {
        '6'
    } else if d == 7 {
        '7'
    } else if d == 8 {
        '8'
    } else {
        '9'
    };
    push_char(out, c);
    proof {
        if n >= 10 {
            assert(old(out)@ + decimal(n as nat) =~= old(out)@ + decimal((n / 10) as nat) + seq![c]);
        } else {
            assert(old(out)@ + decimal(n as nat) =~= old(out)@ + seq![c]);
        }
    }
}

/// Appends the decimal rendering of `n` (with `-` when negative) to `out`,
/// as `format!("{}", n)` does.
pub fn push_signed_decimal(out: &mut String, n: i64)
    ensures
        final(out)@ == old(out)@ + signed_decimal(n as int),
{
    if n < 0 {
        push_char(out, '-');
        let m: u64 = if n == i64::MIN {
            9223372036854775808u64
        } else {
            (-n) as u64
        };
        push_decimal(out, m);
        assert(old(out)@ + signed_decimal(n as int) =~= old(out)@.push('-') + decimal(m as nat));
    } else {
        push_decimal(out, n as u64);
    }
}

} // verus!
