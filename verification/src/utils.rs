//! Small general-purpose helpers.

use vstd::prelude::*;
use crate::text::{chars_of, push_char, string_from_chars};

verus! {

/// `s` cut to `max_len` characters, followed by `...` when it was longer.
pub open spec fn truncated(s: Seq<char>, max_len: nat) -> Seq<char> {
    if s.len() > max_len {
        s.take(max_len as int) + seq!['.', '.', '.']
    } else {
        s
    }
}

/// Cuts `s` to `max_len` characters (not bytes), appending `...` when `s`
/// is longer than that.
pub fn truncate(s: &str, max_len: usize) -> (r: String)
    ensures
        r@ == truncated(s@, max_len as nat),
{
    let cs = chars_of(s);
    if cs.len() > max_len {
        let mut r = string_from_chars(&cs, 0, max_len);
        push_char(&mut r, '.');
        push_char(&mut r, '.');
        push_char(&mut r, '.');
        assert(r@ =~= s@.take(max_len as int) + seq!['.', '.', '.']);
        r
    } else {
        let r = string_from_chars(&cs, 0, cs.len());
        assert(r@ =~= s@);
        r
    }
}

/// The smallest `i` in `0..n` for which `p(i)` holds, if any.
pub open spec fn first_where(n: int, p: spec_fn(int) -> bool) -> Option<int>
    decreases n,
{
    if n <= 0 {
        None
    } else {
        match first_where(n - 1, p) {
            Some(i) => Some(i),
            None => if p(n - 1) {
                Some(n - 1)
            } else {
                None
            },
        }
    }
}

/// `first_where` finds exactly the first index where `p` holds.
pub proof fn lemma_first_where(n: int, p: spec_fn(int) -> bool)
    ensures
        match first_where(n, p) {
            Some(i) => 0 <= i < n && p(i) && forall|j: int| 0 <= j < i ==> !#[trigger] p(j),
            None => forall|j: int| 0 <= j < n ==> !#[trigger] p(j),
        },
    decreases n,
{
    if n > 0 {
        lemma_first_where(n - 1, p);
    }
}

/// Once found among the first `m` indices, the first match stays the same
/// for any larger range.
pub proof fn lemma_first_where_extend(m: int, n: int, p: spec_fn(int) -> bool)
    requires
        m <= n,
        first_where(m, p) is Some,
    ensures
        first_where(n, p) == first_where(m, p),
    decreases n - m,
{
    if m < n {
        lemma_first_where_extend(m, n - 1, p);
    }
}

} // verus!
