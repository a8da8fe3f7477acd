//! Scanning texts for markers: occurrence tests, counts and searches.
use vstd::prelude::*;
use vstd::string::*;

verus! {

/// The position just past an occurrence of `p` at `i`; never `i` itself.
pub open spec fn past(i: int, p: Seq<char>) -> int {
    if p.len() > 0 {
        i + p.len()
    } else {
        i + 1
    }
}

/// `p` occurs in `t` at position `i`.
pub open spec fn occurs_at(t: Seq<char>, p: Seq<char>, i: int) -> bool {
    0 <= i && i + p.len() <= t.len() && t.subrange(i, i + p.len()) == p
}

/// The number of occurrences of `p` in `t` from `i` on, taken left to right
/// without overlap.
pub open spec fn count_from(t: Seq<char>, p: Seq<char>, i: int) -> nat
    decreases t.len() - i,
{
    if i < 0 || i >= t.len() {
        0
    } else if p.len() > 0 && occurs_at(t, p, i) {
        1 + count_from(t, p, i + p.len())
    } else {
        count_from(t, p, i + 1)
    }
}

/// Whether `p` occurs in `t` at position `i`.
pub fn occurs(t: &str, p: &str, n: usize, m: usize, i: usize) -> (r: bool)
    requires
        n == t@.len(),
        m == p@.len(),
    ensures
        r == occurs_at(t@, p@, i as int),
{
    if i > n || m > n - i {
        return false;
    }
    let mut k: usize = 0;
    while k < m
        invariant
            i + m <= n,
            n == t@.len(),
            m == p@.len(),
            k <= m,
            forall|j: int| 0 <= j < k ==> t@[i + j] == p@[j],
        decreases m - k,
    {
        if t.get_char(i + k) != p.get_char(k) {
            assert(t@.subrange(i as int, i + m)[k as int] != p@[k as int]);
            return false;
        }
        k = k + 1;
    }
    assert(t@.subrange(i as int, i + m) =~= p@);
    true
}

/// The number of occurrences of `p` in `t`, left to right without overlap.
pub fn count_occurrences(t: &str, p: &str) -> (r: usize)
    requires
        p@.len() > 0,
    ensures
        r == count_from(t@, p@, 0),
{
    let n = t.unicode_len();
    let m = p.unicode_len();
    let mut i: usize = 0;
    let mut count: usize = 0;
    while i < n
        invariant
            n == t@.len(),
            m == p@.len(),
            m > 0,
            count <= i <= n,
            count + count_from(t@, p@, i as int) == count_from(t@, p@, 0),
        decreases n - i,
    {
        if occurs(t, p, n, m, i) {
            count = count + 1;
            i = i + m;
        } else {
            i = i + 1;
        }
    }
    count
}

/// The first position from `i` on where `p` occurs in `t`, or -1.
pub open spec fn find_from(t: Seq<char>, p: Seq<char>, i: int) -> int
    decreases t.len() - i,
{
    if i < 0 || i >= t.len() {
        -1
    } else if occurs_at(t, p, i) {
        i
    } else {
        find_from(t, p, i + 1)
    }
}

/// A found position is an occurrence at or after the start.
pub proof fn lemma_find_from(t: Seq<char>, p: Seq<char>, i: int)
    ensures
        find_from(t, p, i) == -1 || (i <= find_from(t, p, i) && occurs_at(t, p, find_from(t, p, i))),
    decreases t.len() - i,
{
    if 0 <= i < t.len() && !occurs_at(t, p, i) {
        lemma_find_from(t, p, i + 1);
    }
}

/// The first position from `i` on where `p` occurs in `t`.
pub fn find(t: &str, p: &str, n: usize, m: usize, i: usize) -> (r: Option<usize>)
    requires
        n == t@.len(),
        m == p@.len(),
    ensures
        match r {
            Some(j) => j == find_from(t@, p@, i as int) && i <= j && j + m <= n,
            None => find_from(t@, p@, i as int) == -1,
        },
{
    let mut k: usize = i;
    while k < n
        invariant
            n == t@.len(),
            m == p@.len(),
            i <= k,
            find_from(t@, p@, i as int) == find_from(t@, p@, k as int),
        decreases n - k,
    {
        if occurs(t, p, n, m, k) {
            return Some(k);
        }
        k = k + 1;
    }
    None
}

/// The text between the first `open` from `i` on and the first `close`
/// after it.
pub open spec fn inner_text(t: Seq<char>, open: Seq<char>, close: Seq<char>, i: int) -> Option<Seq<char>> {
    let j = find_from(t, open, i);
    if j < 0 {
        None
    } else {
        let k = find_from(t, close, j + open.len());
        if k < 0 {
            None
        } else {
            Some(t.subrange(j + open.len(), k))
        }
    }
}

/// The text between the first `open` in `t` and the first `close` after it.
pub fn element_text(t: &str, open: &str, close: &str) -> (r: Option<String>)
    ensures
        match r {
            Some(v) => inner_text(t@, open@, close@, 0) == Some(v@),
            None => inner_text(t@, open@, close@, 0) is None,
        },
{
    let n = t.unicode_len();
    let a = open.unicode_len();
    let b = close.unicode_len();
    match find(t, open, n, a, 0) {
        None => None,
        Some(j) => match find(t, close, n, b, j + a) {
            None => None,
            Some(k) => Some(crate::text::slice(t, j + a, k)),
        },
    }
}

} // verus!
