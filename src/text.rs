//! Character-level text operations on `&str`, stated over `Seq<char>`.

use vstd::prelude::*;
use vstd::string::*;

verus! {

/// Whether `p` occurs in `s` starting at character position `i`.
pub open spec fn occurs_at(s: Seq<char>, p: Seq<char>, i: int) -> bool {
    0 <= i && i + p.len() <= s.len() && s.subrange(i, i + p.len()) == p
}

/// The first position at or after `i` at which `p` occurs in `s`.
pub open spec fn find_from(s: Seq<char>, p: Seq<char>, i: int) -> Option<int>
    decreases s.len() + 1 - i,
{
    if i < 0 || i + p.len() > s.len() {
        None
    } else if occurs_at(s, p, i) {
        Some(i)
    } else {
        find_from(s, p, i + 1)
    }
}

/// The first position at which `p` occurs in `s`.
pub open spec fn first_index(s: Seq<char>, p: Seq<char>) -> Option<int> {
    find_from(s, p, 0)
}

/// The last position below `i` at which `p` occurs in `s`.
pub open spec fn find_below(s: Seq<char>, p: Seq<char>, i: int) -> Option<int>
    decreases i,
{
    if i <= 0 {
        None
    } else if occurs_at(s, p, i - 1) {
        Some(i - 1)
    } else {
        find_below(s, p, i - 1)
    }
}

/// The last position at which `p` occurs in `s`.
pub open spec fn last_index(s: Seq<char>, p: Seq<char>) -> Option<int> {
    find_below(s, p, s.len() as int)
}

/// The characters of `s` from position `i` on.
pub open spec fn after(s: Seq<char>, i: int) -> Seq<char> {
    s.subrange(i, s.len() as int)
}

/// `s` with each doubled separator `//`, read left to right without
/// overlap, written as a single `/`.
pub open spec fn collapse_slashes(s: Seq<char>) -> Seq<char>
    decreases s.len(),
{
    if s.len() == 0 {
        s
    } else if s.len() >= 2 && s[0] == '/' && s[1] == '/' {
        seq!['/'] + collapse_slashes(s.subrange(2, s.len() as int))
    } else {
        seq![s[0]] + collapse_slashes(s.subrange(1, s.len() as int))
    }
}

/// What `str::trim` leaves of a text: the text without leading and trailing
/// white space.
pub uninterp spec fn trimmed(s: Seq<char>) -> Seq<char>;

/// Relies on `str::trim`, whose result depends on the characters alone.
#[verifier::external_body]
pub(crate) fn trim_text(s: &str) -> (r: &str)
    ensures
        r@ == trimmed(s@),
{
    s.trim()
}

/// A position as an integer.
pub open spec fn opt_int(o: Option<usize>) -> Option<int> {
    match o {
        Some(i) => Some(i as int),
        None => None,
    }
}

/// Whether `p` occurs in `s` at character position `i`.
pub fn matches_at(s: &str, p: &str, i: usize) -> (r: bool)
    ensures
        r == occurs_at(s@, p@, i as int),
{
    let n = s.unicode_len();
    let m = p.unicode_len();
    if m > n || i > n - m {
        return false;
    }
    let mut k: usize = 0;
    while k < m
        invariant
            k <= m,
            m == p@.len(),
            n == s@.len(),
            i + m <= n,
            forall|j: int| 0 <= j < k ==> s@[i + j] == p@[j],
        decreases m - k,
    {
        if s.get_char(i + k) != p.get_char(k) {
            assert(s@.subrange(i as int, i + m)[k as int] != p@[k as int]);
            return false;
        }
        k += 1;
    }
    assert(s@.subrange(i as int, i + m) =~= p@);
    true
}

/// The first character position at which `p` occurs in `s`.
pub fn find_text(s: &str, p: &str) -> (r: Option<usize>)
    ensures
        opt_int(r) == first_index(s@, p@),
        r matches Some(i) ==> occurs_at(s@, p@, i as int),
{
    let n = s.unicode_len();
    let m = p.unicode_len();
    if m > n {
        return None;
    }
    let last = n - m;
    let mut i: usize = 0;
    while i < last
        invariant
            i <= last,
            last + m == n,
            n == s@.len(),
            m == p@.len(),
            find_from(s@, p@, 0) == find_from(s@, p@, i as int),
        decreases last - i,
    {
        if matches_at(s, p, i) {
            return Some(i);
        }
        i += 1;
    }
    if matches_at(s, p, last) {
        Some(last)
    } else {
        assert(find_from(s@, p@, last + 1) is None);
        None
    }
}

/// The last character position at which `p` occurs in `s`.
pub fn rfind_text(s: &str, p: &str) -> (r: Option<usize>)
    ensures
        opt_int(r) == last_index(s@, p@),
        r matches Some(i) ==> occurs_at(s@, p@, i as int),
{
    let mut i = s.unicode_len();
    while i > 0
        invariant
            i <= s@.len(),
            last_index(s@, p@) == find_below(s@, p@, i as int),
        decreases i,
    {
        if matches_at(s, p, i - 1) {
            return Some(i - 1);
        }
        i -= 1;
    }
    None
}

/// The characters of `s` from position `from` up to `to`, as a `String`.
pub fn slice_text(s: &str, from: usize, to: usize) -> (r: String)
    requires
        from <= to <= s@.len(),
    ensures
        r@ == s@.subrange(from as int, to as int),
{
    String::from_str(s.substring_char(from, to))
}

/// `s` with each doubled separator `//` written as a single `/`.
pub fn collapse_text(s: &str) -> (r: String)
    ensures
        r@ == collapse_slashes(s@),
{
    let n = s.unicode_len();
    let mut out = String::new();
    let mut i: usize = 0;
    assert(s@.subrange(0, n as int) =~= s@);
    assert(out@ + s@ =~= s@);
    while i < n
        invariant
            i <= n,
            n == s@.len(),
            out@ + collapse_slashes(s@.subrange(i as int, n as int)) == collapse_slashes(s@),
        decreases n - i,
    {
        let ghost rest = s@.subrange(i as int, n as int);
        let step: usize = if i + 1 < n && s.get_char(i) == '/' && s.get_char(i + 1) == '/' {
            2
        } else {
            1
        };
        let piece = s.substring_char(i, i + 1);
        proof {
            assert(rest.subrange(step as int, rest.len() as int) =~= s@.subrange(
                i + step,
                n as int,
            ));
            if step == 2 {
                assert(piece@ =~= seq!['/']);
            } else {
                assert(piece@ =~= seq![rest[0]]);
            }
            assert(out@ + piece@ + collapse_slashes(s@.subrange(i + step, n as int)) =~= out@
                + collapse_slashes(rest));
        }
        out.append(piece);
        i += step;
    }
    assert(s@.subrange(n as int, n as int) =~= Seq::<char>::empty());
    assert(out@ + Seq::<char>::empty() =~= out@);
    out
}

/// `find_from` lands on the first occurrence at or after `i`.
pub proof fn lemma_find_from_at(s: Seq<char>, p: Seq<char>, i: int, k: int)
    requires
        0 <= i <= k,
        occurs_at(s, p, k),
        forall|j: int| i <= j < k ==> !occurs_at(s, p, j),
    ensures
        find_from(s, p, i) == Some(k),
    decreases k - i,
{
    if i < k {
        lemma_find_from_at(s, p, i + 1, k);
    }
}

/// With no occurrence at or after `i`, `find_from` finds nothing.
pub proof fn lemma_find_from_none(s: Seq<char>, p: Seq<char>, i: int)
    requires
        0 <= i,
        forall|j: int| i <= j ==> !occurs_at(s, p, j),
    ensures
        find_from(s, p, i) is None,
    decreases s.len() + 1 - i,
{
    if i + p.len() <= s.len() {
        lemma_find_from_none(s, p, i + 1);
    }
}

/// With no occurrence below `i`, `find_below` finds nothing.
pub proof fn lemma_find_below_none(s: Seq<char>, p: Seq<char>, i: int)
    requires
        forall|j: int| j < i ==> !occurs_at(s, p, j),
    ensures
        find_below(s, p, i) is None,
    decreases i,
{
    if i > 0 {
        lemma_find_below_none(s, p, i - 1);
    }
}

/// What `find_below` finds is an occurrence.
pub proof fn lemma_find_below_occurs(s: Seq<char>, p: Seq<char>, i: int)
    ensures
        find_below(s, p, i) matches Some(a) ==> occurs_at(s, p, a),
    decreases i,
{
    if i > 0 {
        lemma_find_below_occurs(s, p, i - 1);
    }
}

} // verus!
