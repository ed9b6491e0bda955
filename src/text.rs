use vstd::prelude::*;

verus! {

/// `pat` stands in `s` starting at position `at`.
pub open spec fn occurs_at(s: Seq<char>, pat: Seq<char>, at: int) -> bool {
    0 <= at && at + pat.len() <= s.len() && s.subrange(at, at + pat.len()) == pat
}

/// `pat` stands somewhere in `s`.
pub open spec fn contains_seq(s: Seq<char>, pat: Seq<char>) -> bool {
    exists|j: int| #[trigger] occurs_at(s, pat, j)
}

/// Tests whether `pat` stands in `s` at position `at`.
pub fn text_occurs_at(s: &str, pat: &str, at: usize) -> (r: bool)
    ensures
        r == occurs_at(s@, pat@, at as int),
{
    let n = s.unicode_len();
    let m = pat.unicode_len();
    if at > n || m > n - at {
        return false;
    }
    let mut k: usize = 0;
    while k < m
        invariant
            n == s@.len(),
            m == pat@.len(),
            at + m <= n,
            k <= m,
            forall|t: int| 0 <= t < k ==> s@[at + t] == pat@[t],
        decreases m - k,
    {
        if s.get_char(at + k) != pat.get_char(k) {
            assert(s@.subrange(at as int, at + m)[k as int] != pat@[k as int]);
            return false;
        }
        k += 1;
    }
    assert(s@.subrange(at as int, at + m) =~= pat@);
    true
}

/// Tests whether `pat` stands anywhere in `s`.
pub fn contains_text(s: &str, pat: &str) -> (r: bool)
    ensures
        r == contains_seq(s@, pat@),
{
    let n = s.unicode_len();
    let m = pat.unicode_len();
    if m > n {
        assert forall|j: int| !occurs_at(s@, pat@, j) by {}
        return false;
    }
    let last = n - m;
    let mut j: usize = 0;
    while j < last
        invariant
            n == s@.len(),
            m == pat@.len(),
            last == n - m,
            j <= last,
            forall|t: int| 0 <= t < j ==> !occurs_at(s@, pat@, t),
        decreases last - j,
    {
        if text_occurs_at(s, pat, j) {
            return true;
        }
        j += 1;
    }
    if text_occurs_at(s, pat, last) {
        return true;
    }
    assert forall|t: int| !occurs_at(s@, pat@, t) by {
        if 0 <= t < last {
        }
    }
    false
}

} // verus!
