//! Text as sequences of characters: search, trimming and replacement with
//! the meaning that `str::find`, `str::contains`, `str::trim` and
//! `str::replace` give them (replacement only for a non-empty pattern:
//! `str::replace` inserts between all characters for an empty one).
use vstd::prelude::*;

verus! {

// ----------------------------------------------------------------------
// Specification
// ----------------------------------------------------------------------

/// `p` occurs in `t` starting at position `i`.
pub open spec fn matches_at(t: Seq<char>, p: Seq<char>, i: int) -> bool {
    0 <= i && i + p.len() <= t.len() && t.subrange(i, i + p.len()) == p
}

/// `p` occurs somewhere in `t`.
pub open spec fn has_substring(t: Seq<char>, p: Seq<char>) -> bool {
    exists|i: int| matches_at(t, p, i)
}

/// The first position at or after `k` where `p` occurs in `t`.
pub open spec fn find_from(t: Seq<char>, p: Seq<char>, k: int) -> Option<int>
    decreases t.len() + 1 - k,
{
    if k < 0 || k + p.len() > t.len() {
        None
    } else if matches_at(t, p, k) {
        Some(k)
    } else {
        find_from(t, p, k + 1)
    }
}

/// The first position where `p` occurs in `t` (what `str::find` returns,
/// counted in characters).
pub open spec fn first_match(t: Seq<char>, p: Seq<char>) -> Option<int> {
    find_from(t, p, 0)
}

/// The characters that `str::trim` removes: those with the Unicode
/// `White_Space` property.
pub open spec fn is_white_space(c: char) -> bool {
    let n = c as u32;
    ||| 0x9 <= n <= 0xd
    ||| n == 0x20
    ||| n == 0x85
    ||| n == 0xa0
    ||| n == 0x1680
    ||| 0x2000 <= n <= 0x200a
    ||| n == 0x2028
    ||| n == 0x2029
    ||| n == 0x202f
    ||| n == 0x205f
    ||| n == 0x3000
}

/// `s` without its leading white space.
pub open spec fn trim_start(s: Seq<char>) -> Seq<char>
    decreases s.len(),
{
    if s.len() > 0 && is_white_space(s[0]) {
        trim_start(s.drop_first())
    } else {
        s
    }
}

/// `s` without its trailing white space.
pub open spec fn trim_end(s: Seq<char>) -> Seq<char>
    decreases s.len(),
{
    if s.len() > 0 && is_white_space(s.last()) {
        trim_end(s.drop_last())
    } else {
        s
    }
}

/// `s` without leading and trailing white space.
pub open spec fn trim(s: Seq<char>) -> Seq<char> {
    trim_end(trim_start(s))
}

/// `t` with every occurrence of `from` replaced by `to`, the occurrences
/// being taken from left to right without overlap; an empty `from` leaves
/// `t` as it is.
pub open spec fn replace_all(t: Seq<char>, from: Seq<char>, to: Seq<char>) -> Seq<char>
    decreases t.len(),
{
    if from.len() == 0 {
        t
    } else {
        match first_match(t, from) {
            Some(i) => {
                proof {
                    lemma_find_from(t, from, 0);
                }
                t.take(i) + to + replace_all(t.skip(i + from.len()), from, to)
            },
            None => t,
        }
    }
}

// ----------------------------------------------------------------------
// Lemmas
// ----------------------------------------------------------------------

/// `find_from` gives the first occurrence at or after `k`, and `None` when
/// there is none.
pub proof fn lemma_find_from(t: Seq<char>, p: Seq<char>, k: int)
    requires
        0 <= k,
    ensures
        match find_from(t, p, k) {
            Some(i) => k <= i && matches_at(t, p, i) && forall|j: int| k <= j < i ==> !#[trigger] matches_at(t, p, j),
            None => forall|j: int| k <= j ==> !#[trigger] matches_at(t, p, j),
        },
    decreases t.len() + 1 - k,
{
    if k + p.len() > t.len() {
    } else if matches_at(t, p, k) {
    } else {
        lemma_find_from(t, p, k + 1);
        assert forall|j: int| k <= j && !(k + 1 <= j) implies !matches_at(t, p, j) by {
            assert(j == k);
        }
    }
}

/// `first_match` finds something exactly when `p` occurs in `t`, and then
/// the first occurrence.
pub proof fn lemma_first_match(t: Seq<char>, p: Seq<char>)
    ensures
        first_match(t, p) is Some <==> has_substring(t, p),
        first_match(t, p) matches Some(i) ==> matches_at(t, p, i) && forall|j: int| 0 <= j < i ==> !#[trigger] matches_at(t, p, j),
{
    lemma_find_from(t, p, 0);
    if has_substring(t, p) {
        let j = choose|j: int| matches_at(t, p, j);
        assert(0 <= j);
    }
}

/// Searching from `k` finds what searching from the start finds, when no
/// occurrence starts before `k`.
pub proof fn lemma_find_from_skips_unmatched(t: Seq<char>, p: Seq<char>, m: int, k: int)
    requires
        0 <= m <= k,
        forall|j: int| m <= j < k ==> !#[trigger] matches_at(t, p, j),
    ensures
        find_from(t, p, m) == find_from(t, p, k),
    decreases k - m,
{
    if m < k {
        assert(!matches_at(t, p, m));
        lemma_find_from_skips_unmatched(t, p, m + 1, k);
        if m + p.len() > t.len() {
            assert(k + p.len() > t.len());
        }
    }
}

/// Replacement leaves a prefix alone in which no occurrence starts.
pub proof fn lemma_replace_all_unmatched_prefix(t: Seq<char>, from: Seq<char>, to: Seq<char>, k: int)
    requires
        from.len() > 0,
        0 <= k <= t.len(),
        forall|j: int| 0 <= j < k ==> !#[trigger] matches_at(t, from, j),
    ensures
        replace_all(t, from, to) == t.take(k) + replace_all(t.skip(k), from, to),
{
    lemma_find_from_skips_unmatched(t, from, 0, k);
    lemma_find_from_suffix(t, from, k);
    lemma_find_from(t, from, 0);
    let s = t.skip(k);
    match first_match(t, from) {
        Some(j) => {
            assert(first_match(s, from) == Some(j - k));
            assert(t.take(k) + s.take(j - k) =~= t.take(j));
            assert(s.skip(j - k + from.len()) =~= t.skip(j + from.len()));
            assert(replace_all(s, from, to) == s.take(j - k) + to + replace_all(s.skip(j - k + from.len()), from, to));
            assert(t.take(k) + (s.take(j - k) + to + replace_all(t.skip(j + from.len()), from, to))
                =~= t.take(j) + to + replace_all(t.skip(j + from.len()), from, to));
        },
        None => {
            assert(first_match(s, from) is None);
            assert(t.take(k) + s =~= t);
        },
    }
}

/// Searching `t` from `k` is searching the suffix of `t` that starts at `k`.
pub proof fn lemma_find_from_suffix(t: Seq<char>, p: Seq<char>, k: int)
    requires
        0 <= k <= t.len(),
    ensures
        find_from(t, p, k) == match first_match(t.skip(k), p) {
            Some(i) => Some(i + k),
            None => None::<int>,
        },
{
    let s = t.skip(k);
    assert forall|j: int| 0 <= j implies #[trigger] matches_at(s, p, j) == matches_at(t, p, j + k) by {
        if j + p.len() <= s.len() {
            assert(s.subrange(j, j + p.len()) =~= t.subrange(j + k, j + k + p.len()));
        }
    }
    lemma_find_from(t, p, k);
    lemma_find_from(s, p, 0);
    match find_from(t, p, k) {
        Some(i) => {
            assert(matches_at(s, p, i - k));
            match first_match(s, p) {
                Some(m) => {
                    assert(matches_at(t, p, m + k));
                    if m + k < i {
                        assert(!matches_at(t, p, m + k));
                    }
                    if i - k < m {
                        assert(!matches_at(s, p, i - k));
                    }
                },
                None => {},
            }
        },
        None => {
            match first_match(s, p) {
                Some(m) => {
                    assert(matches_at(t, p, m + k));
                },
                None => {},
            }
        },
    }
}

// ----------------------------------------------------------------------
// Executable functions
// ----------------------------------------------------------------------

/// The characters of `s`, in order.
pub fn chars_of(s: &str) -> (v: Vec<char>)
    ensures
        v@ == s@,
{
    let mut v: Vec<char> = Vec::new();
    for c in it: s.chars()
        invariant
            v@ == it.seq().take(it.index()),
    {
        v.push(c);
    }
    v
}

/// The string made of the characters `v` (`String::from_iter`).
#[verifier::external_body]
pub(crate) fn string_from_chars(v: &Vec<char>) -> (s: String)
    ensures
        s@ == v@,
{
    String::from_iter(v.iter())
}

/// Whether `p` occurs in `t` at position `i`.
pub fn matches_at_exec(t: &Vec<char>, p: &Vec<char>, i: usize) -> (r: bool)
    ensures
        r == matches_at(t@, p@, i as int),
{
    if i > t.len() || p.len() > t.len() - i {
        return false;
    }
    let mut j: usize = 0;
    while j < p.len()
        invariant
            i + p.len() <= t.len(),
            j <= p.len(),
            forall|m: int| 0 <= m < j ==> t@[i + m] == p@[m],
        decreases p.len() - j,
    {
        if t[i + j] != p[j] {
            assert(t@.subrange(i as int, i + p.len())[j as int] != p@[j as int]);
            return false;
        }
        j = j + 1;
    }
    assert(t@.subrange(i as int, i + p.len()) =~= p@);
    true
}

/// The first position at or after `from` where `p` occurs in `t`.
pub fn find(t: &Vec<char>, p: &Vec<char>, from: usize) -> (r: Option<usize>)
    ensures
        match r {
            Some(i) => find_from(t@, p@, from as int) == Some(i as int),
            None => find_from(t@, p@, from as int) is None,
        },
{
    if from > t.len() || p.len() > t.len() - from {
        return None;
    }
    if p.len() == 0 {
        assert(t@.subrange(from as int, from as int) =~= p@);
        return Some(from);
    }
    let mut k: usize = from;
    while p.len() <= t.len() - k
        invariant
            from <= k <= t.len(),
            p.len() > 0,
            find_from(t@, p@, from as int) == find_from(t@, p@, k as int),
        decreases t.len() - k,
    {
        if matches_at_exec(t, p, k) {
            return Some(k);
        }
        k = k + 1;
    }
    None
}

/// Whether `a` and `b` hold the same characters.
pub fn same_chars(a: &Vec<char>, b: &Vec<char>) -> (r: bool)
    ensures
        r == (a@ == b@),
{
    if a.len() != b.len() {
        return false;
    }
    let mut i: usize = 0;
    while i < a.len()
        invariant
            a.len() == b.len(),
            i <= a.len(),
            forall|j: int| 0 <= j < i ==> a@[j] == b@[j],
        decreases a.len() - i,
    {
        if a[i] != b[i] {
            return false;
        }
        i = i + 1;
    }
    assert(a@ =~= b@);
    true
}

/// Whether `p` occurs in `t` (`str::contains`).
pub fn contains(t: &Vec<char>, p: &Vec<char>) -> (r: bool)
    ensures
        r == has_substring(t@, p@),
{
    proof {
        lemma_first_match(t@, p@);
    }
    find(t, p, 0).is_some()
}

/// Whether `c` is white space in the sense of `char::is_whitespace`.
pub fn is_white_space_exec(c: char) -> (r: bool)
    ensures
        r == is_white_space(c),
{
    let n = c as u32;
    (0x9 <= n && n <= 0xd) || n == 0x20 || n == 0x85 || n == 0xa0 || n == 0x1680
        || (0x2000 <= n && n <= 0x200a) || n == 0x2028 || n == 0x2029 || n == 0x202f
        || n == 0x205f || n == 0x3000
}

/// The characters of `v` from `start` to `end`.
pub fn sub_chars(v: &Vec<char>, start: usize, end: usize) -> (r: Vec<char>)
    requires
        start <= end <= v.len(),
    ensures
        r@ == v@.subrange(start as int, end as int),
{
    let mut r: Vec<char> = Vec::new();
    let mut i: usize = start;
    while i < end
        invariant
            start <= i <= end <= v.len(),
            r@ == v@.subrange(start as int, i as int),
        decreases end - i,
    {
        r.push(v[i]);
        assert(v@.subrange(start as int, i + 1) =~= v@.subrange(start as int, i as int).push(v@[i as int]));
        i = i + 1;
    }
    r
}

/// `v` without leading and trailing white space (`str::trim`).
pub fn trim_chars(v: &Vec<char>) -> (r: Vec<char>)
    ensures
        r@ == trim(v@),
{
    let n = v.len();
    let mut a: usize = 0;
    assert(v@.skip(0) =~= v@);
    while a < n && is_white_space_exec(v[a])
        invariant
            a <= n == v.len(),
            trim_start(v@) == trim_start(v@.skip(a as int)),
        decreases n - a,
    {
        assert(v@.skip(a as int).drop_first() =~= v@.skip(a + 1));
        a = a + 1;
    }
    let ghost s = v@.skip(a as int);
    assert(trim_start(s) == s);
    let mut b: usize = n;
    while b > a && is_white_space_exec(v[b - 1])
        invariant
            a <= b <= n == v.len(),
            s == v@.skip(a as int),
            trim_end(s) == trim_end(v@.subrange(a as int, b as int)),
        decreases b - a,
    {
        assert(v@.subrange(a as int, b as int).drop_last() =~= v@.subrange(a as int, b - 1));
        b = b - 1;
    }
    assert(v@.subrange(a as int, n as int) =~= s);
    sub_chars(v, a, b)
}

/// Appends the characters of `v` from `start` to `end` to `out`.
fn push_range(out: &mut Vec<char>, v: &Vec<char>, start: usize, end: usize)
    requires
        start <= end <= v.len(),
    ensures
        final(out)@ == old(out)@ + v@.subrange(start as int, end as int),
{
    let ghost out0 = out@;
    let mut j: usize = start;
    while j < end
        invariant
            start <= j <= end <= v.len(),
            out@ == out0 + v@.subrange(start as int, j as int),
        decreases end - j,
    {
        out.push(v[j]);
        assert(v@.subrange(start as int, j + 1) =~= v@.subrange(start as int, j as int).push(v@[j as int]));
        j = j + 1;
    }
}

/// `t` with every occurrence of the non-empty `from` replaced by `to`, as
/// `str::replace` does.
pub fn replace_chars(t: &Vec<char>, from: &Vec<char>, to: &Vec<char>) -> (r: Vec<char>)
    requires
        from.len() > 0,
    ensures
        r@ == replace_all(t@, from@, to@),
{
    let mut out: Vec<char> = Vec::new();
    let mut pos: usize = 0;
    assert(t@.skip(0) =~= t@);
    loop
        invariant
            from.len() > 0,
            pos <= t.len(),
            out@ + replace_all(t@.skip(pos as int), from@, to@) =~= replace_all(t@, from@, to@),
        decreases t.len() - pos,
    {
        let ghost rest = t@.skip(pos as int);
        let ghost out0 = out@;
        proof {
            lemma_find_from_suffix(t@, from@, pos as int);
            lemma_find_from(t@, from@, pos as int);
        }
        match find(t, from, pos) {
            Some(i) => {
                let ghost m = (i - pos) as int;
                assert(first_match(rest, from@) == Some(m));
                push_range(&mut out, t, pos, i);
                push_range(&mut out, to, 0, to.len());
                assert(to@.subrange(0, to@.len() as int) =~= to@);
                assert(rest.take(m) =~= t@.subrange(pos as int, i as int));
                assert(rest.skip(m + from@.len()) =~= t@.skip(i + from.len()));
                assert(replace_all(rest, from@, to@) == rest.take(m) + to@ + replace_all(rest.skip(m + from@.len()), from@, to@));
                pos = i + from.len();
            },
            None => {
                assert(first_match(rest, from@) is None);
                push_range(&mut out, t, pos, t.len());
                assert(t@.subrange(pos as int, t@.len() as int) =~= rest);
                return out;
            },
        }
    }
}

} // verus!
