//! Verified text utilities: substring search, trimming, and splitting into
//! whitespace-separated words.

use vstd::prelude::*;
use crate::seqs::{dv_seq, lemma_vec_dv, lemma_dv_insert};

verus! {

/// ASCII whitespace.
pub open spec fn is_ws(c: char) -> bool {
    c == ' ' || c == '\t' || c == '\n' || c == '\r'
}

/// Whether `pat` occurs in `s` at position `i`.
pub open spec fn matches_at(s: Seq<char>, pat: Seq<char>, i: int) -> bool {
    0 <= i && i + pat.len() <= s.len() && s.subrange(i, i + pat.len() as int) == pat
}

/// The first occurrence of `pat` in `s` at or after `i`.
pub open spec fn spec_find_from(s: Seq<char>, pat: Seq<char>, i: int) -> Option<int>
    decreases s.len() - i,
{
    if i < 0 || i + pat.len() > s.len() {
        None
    } else if matches_at(s, pat, i) {
        Some(i)
    } else if i < s.len() {
        spec_find_from(s, pat, i + 1)
    } else {
        None
    }
}

/// The first occurrence of `pat` in `s`.
pub open spec fn spec_find(s: Seq<char>, pat: Seq<char>) -> Option<int> {
    spec_find_from(s, pat, 0)
}

/// Whether `pat` occurs at position `i` of `s`.
fn match_at(s: &str, pat: &str, i: usize, n: usize, m: usize) -> (b: bool)
    requires
        n == s@.len(),
        m == pat@.len(),
        i + m <= n,
    ensures
        b == matches_at(s@, pat@, i as int),
{
    let mut j: usize = 0;
    while j < m
        invariant
            0 <= j <= m,
            i + m <= n,
            n == s@.len(),
            m == pat@.len(),
            forall|k: int| 0 <= k < j ==> s@[i + k] == pat@[k],
        decreases m - j,
    {
        if s.get_char(i + j) != pat.get_char(j) {
            proof {
                assert(s@.subrange(i as int, i + m as int)[j as int] != pat@[j as int]);
            }
            return false;
        }
        j = j + 1;
    }
    proof {
        assert(s@.subrange(i as int, i + m as int) =~= pat@);
    }
    true
}

/// The first occurrence of `pat` in `s`, scanning character by character.
pub fn find_sub(s: &str, pat: &str) -> (r: Option<usize>)
    ensures
        match r {
            Some(i) => spec_find(s@, pat@) == Some(i as int),
            None => spec_find(s@, pat@) == None::<int>,
        },
{
    let n = s.unicode_len();
    let m = pat.unicode_len();
    let mut i: usize = 0;
    if m > n {
        return None;
    }
    while i <= n - m
        invariant
            0 <= i <= n - m + 1,
            n == s@.len(),
            m == pat@.len(),
            m <= n,
            spec_find(s@, pat@) == spec_find_from(s@, pat@, i as int),
        decreases n - i,
    {
        let hit = match_at(s, pat, i, n, m);
        proof {
            if m == 0 {
                assert(s@.subrange(i as int, i as int) =~= pat@);
            }
        }
        if hit {
            return Some(i);
        }
        i = i + 1;
    }
    None
}

/// What a successful search means: the pattern occurs at the position
/// found.
pub proof fn lemma_find_from_some(s: Seq<char>, pat: Seq<char>, i: int, j: int)
    requires
        0 <= i,
        spec_find_from(s, pat, i) == Some(j),
    ensures
        i <= j,
        matches_at(s, pat, j),
    decreases s.len() - i,
{
    if !(i + pat.len() > s.len()) && !matches_at(s, pat, i) && i < s.len() {
        lemma_find_from_some(s, pat, i + 1, j);
    }
}

/// `s` without its leading ASCII whitespace.
pub open spec fn spec_trim_start(s: Seq<char>) -> Seq<char>
    decreases s.len(),
{
    if s.len() > 0 && is_ws(s[0]) {
        spec_trim_start(s.skip(1))
    } else {
        s
    }
}

/// `s` without its trailing ASCII whitespace.
pub open spec fn spec_trim_end(s: Seq<char>) -> Seq<char>
    decreases s.len(),
{
    if s.len() > 0 && is_ws(s.last()) {
        spec_trim_end(s.drop_last())
    } else {
        s
    }
}

/// `s` without leading and trailing ASCII whitespace.
pub open spec fn spec_trim(s: Seq<char>) -> Seq<char> {
    spec_trim_end(spec_trim_start(s))
}

/// `s` without its leading run of `c`.
pub open spec fn spec_trim_start_char(s: Seq<char>, c: char) -> Seq<char>
    decreases s.len(),
{
    if s.len() > 0 && s[0] == c {
        spec_trim_start_char(s.skip(1), c)
    } else {
        s
    }
}

/// `s` without its trailing run of `c`.
pub open spec fn spec_trim_end_char(s: Seq<char>, c: char) -> Seq<char>
    decreases s.len(),
{
    if s.len() > 0 && s.last() == c {
        spec_trim_end_char(s.drop_last(), c)
    } else {
        s
    }
}

/// `s` without its leading and trailing runs of `c`.
pub open spec fn spec_trim_char(s: Seq<char>, c: char) -> Seq<char> {
    spec_trim_end_char(spec_trim_start_char(s, c), c)
}

/// True exactly when `c` is ASCII whitespace.
pub fn is_ws_exec(c: char) -> (b: bool)
    ensures
        b == is_ws(c),
{
    c == ' ' || c == '\t' || c == '\n' || c == '\r'
}

/// The bounds of `s` once runs of characters satisfying the trim predicate
/// are dropped from both ends; `ws` selects whitespace trimming, otherwise
/// the runs of `c` are dropped.
fn trim_bounds(s: &str, ws: bool, c: char) -> (r: (usize, usize))
    ensures
        r.0 <= r.1 <= s@.len(),
        ws ==> s@.subrange(r.0 as int, r.1 as int) == spec_trim(s@),
        !ws ==> s@.subrange(r.0 as int, r.1 as int) == spec_trim_char(s@, c),
{
    let n = s.unicode_len();
    proof {
        assert(s@.skip(0) =~= s@);
    }
    let mut a: usize = 0;
    while a < n
        invariant
            0 <= a <= n,
            n == s@.len(),
            ws ==> spec_trim_start(s@) == spec_trim_start(s@.skip(a as int)),
            !ws ==> spec_trim_start_char(s@, c) == spec_trim_start_char(s@.skip(a as int), c),
        ensures
            0 <= a <= n,
            n == s@.len(),
            ws ==> spec_trim_start(s@) == spec_trim_start(s@.skip(a as int)),
            !ws ==> spec_trim_start_char(s@, c) == spec_trim_start_char(s@.skip(a as int), c),
            a == n || ((ws ==> !is_ws(s@[a as int])) && (!ws ==> s@[a as int] != c)),
        decreases n - a,
    {
        let ch = s.get_char(a);
        let drop_it = if ws {
            is_ws_exec(ch)
        } else {
            ch == c
        };
        if !drop_it {
            break;
        }
        proof {
            assert(s@.skip(a as int).skip(1) =~= s@.skip(a + 1 as int));
        }
        a = a + 1;
    }
    proof {
        let t = s@.skip(a as int);
        if a < n {
            assert(t[0] == s@[a as int]);
        }
        if ws {
            assert(spec_trim_start(s@) == t);
        } else {
            assert(spec_trim_start_char(s@, c) == t);
        }
    }
    let ghost t = s@.skip(a as int);
    proof {
        assert(t.take(n - a as int) =~= t);
    }
    let mut b: usize = n;
    while b > a
        invariant
            a <= b <= n,
            n == s@.len(),
            t == s@.skip(a as int),
            ws ==> spec_trim_end(t) == spec_trim_end(t.take(b - a)),
            !ws ==> spec_trim_end_char(t, c) == spec_trim_end_char(t.take(b - a), c),
        ensures
            a <= b <= n,
            n == s@.len(),
            ws ==> spec_trim_end(t) == spec_trim_end(t.take(b - a)),
            !ws ==> spec_trim_end_char(t, c) == spec_trim_end_char(t.take(b - a), c),
            b == a || ((ws ==> !is_ws(s@[b - 1])) && (!ws ==> s@[b - 1] != c)),
        decreases b,
    {
        let ch = s.get_char(b - 1);
        let drop_it = if ws {
            is_ws_exec(ch)
        } else {
            ch == c
        };
        if !drop_it {
            break;
        }
        proof {
            let u = t.take(b - a as int);
            assert(u.last() == s@[b - 1]);
            assert(u.drop_last() =~= t.take(b - 1 - a as int));
        }
        b = b - 1;
    }
    proof {
        let u = t.take(b - a as int);
        if b > a {
            assert(u.last() == s@[b - 1]);
        }
        if ws {
            assert(spec_trim_end(t) == u);
            assert(u =~= s@.subrange(a as int, b as int));
        } else {
            assert(spec_trim_end_char(t, c) == u);
            assert(u =~= s@.subrange(a as int, b as int));
        }
    }
    (a, b)
}

/// `s` with ASCII whitespace removed from both ends.
pub fn trim(s: &str) -> (r: String)
    ensures
        r@ == spec_trim(s@),
{
    let (a, b) = trim_bounds(s, true, ' ');
    s.substring_char(a, b).to_owned()
}

/// `s` with runs of `c` removed from both ends.
pub fn trim_matches_char(s: &str, c: char) -> (r: String)
    ensures
        r@ == spec_trim_char(s@, c),
{
    let (a, b) = trim_bounds(s, false, c);
    s.substring_char(a, b).to_owned()
}

/// `s` with its trailing run of `c` removed.
pub fn trim_end_matches_char(s: &str, c: char) -> (r: String)
    ensures
        r@ == spec_trim_end_char(s@, c),
{
    let n = s.unicode_len();
    proof {
        assert(s@.take(n as int) =~= s@);
    }
    let mut b: usize = n;
    while b > 0
        invariant
            0 <= b <= n,
            n == s@.len(),
            spec_trim_end_char(s@, c) == spec_trim_end_char(s@.take(b as int), c),
        ensures
            0 <= b <= n,
            n == s@.len(),
            spec_trim_end_char(s@, c) == spec_trim_end_char(s@.take(b as int), c),
            b == 0 || s@[b - 1] != c,
        decreases b,
    {
        if s.get_char(b - 1) != c {
            break;
        }
        proof {
            let u = s@.take(b as int);
            assert(u.last() == s@[b - 1]);
            assert(u.drop_last() =~= s@.take(b - 1 as int));
        }
        b = b - 1;
    }
    proof {
        let u = s@.take(b as int);
        if b > 0 {
            assert(u.last() == s@[b - 1]);
        }
        assert(spec_trim_end_char(s@, c) == u);
        assert(u =~= s@.subrange(0, b as int));
    }
    s.substring_char(0, b).to_owned()
}

/// `s` with its leading run of `c` removed.
pub fn trim_start_matches_char(s: &str, c: char) -> (r: String)
    ensures
        r@ == spec_trim_start_char(s@, c),
{
    let n = s.unicode_len();
    proof {
        assert(s@.skip(0) =~= s@);
    }
    let mut a: usize = 0;
    while a < n
        invariant
            0 <= a <= n,
            n == s@.len(),
            spec_trim_start_char(s@, c) == spec_trim_start_char(s@.skip(a as int), c),
        ensures
            0 <= a <= n,
            n == s@.len(),
            spec_trim_start_char(s@, c) == spec_trim_start_char(s@.skip(a as int), c),
            a == n || s@[a as int] != c,
        decreases n - a,
    {
        if s.get_char(a) != c {
            break;
        }
        proof {
            assert(s@.skip(a as int).skip(1) =~= s@.skip(a + 1 as int));
        }
        a = a + 1;
    }
    proof {
        let t = s@.skip(a as int);
        if a < n {
            assert(t[0] == s@[a as int]);
        }
        assert(spec_trim_start_char(s@, c) == t);
        assert(t =~= s@.subrange(a as int, n as int));
    }
    s.substring_char(a, n).to_owned()
}

/// The length of the leading whitespace-free run of `s`.
pub open spec fn word_end(s: Seq<char>) -> nat
    decreases s.len(),
{
    if s.len() == 0 || is_ws(s[0]) {
        0
    } else {
        1 + word_end(s.skip(1))
    }
}

/// A word never runs past the end of the text.
pub proof fn lemma_word_end_bound(s: Seq<char>)
    ensures
        word_end(s) <= s.len(),
    decreases s.len(),
{
    if s.len() > 0 && !is_ws(s[0]) {
        lemma_word_end_bound(s.skip(1));
    }
}

/// A whitespace-free prefix ending at the text's end or at whitespace is
/// exactly the leading word.
pub proof fn lemma_word_end_at(s: Seq<char>, k: int)
    requires
        0 <= k <= s.len(),
        forall|j: int| 0 <= j < k ==> !is_ws(#[trigger] s[j]),
        k == s.len() || is_ws(s[k]),
    ensures
        word_end(s) == k,
    decreases s.len(),
{
    if k > 0 {
        lemma_word_end_at(s.skip(1), k - 1);
    }
}

/// The whitespace-separated words of `s`, in order, each nonempty.
pub open spec fn spec_words(s: Seq<char>) -> Seq<Seq<char>>
    decreases s.len(),
    via spec_words_decreases
{
    if s.len() == 0 {
        Seq::empty()
    } else if is_ws(s[0]) {
        spec_words(s.skip(1))
    } else {
        seq![s.take(word_end(s) as int)] + spec_words(s.skip(word_end(s) as int))
    }
}

#[via_fn]
proof fn spec_words_decreases(s: Seq<char>) {
    if s.len() > 0 && !is_ws(s[0]) {
        lemma_word_end_bound(s);
    }
}

/// Splits the text from `start` on into its whitespace-separated words.
fn words_from(s: &str, start: usize) -> (r: Vec<String>)
    requires
        start <= s@.len(),
    ensures
        r.deep_view() == spec_words(s@.skip(start as int)),
    decreases s@.len() - start,
{
    let ghost t = s@.skip(start as int);
    let n = s.unicode_len();
    if start == n {
        let r: Vec<String> = Vec::new();
        proof {
            assert(r.deep_view() =~= spec_words(t));
        }
        return r;
    }
    let c = s.get_char(start);
    if is_ws_exec(c) {
        let r = words_from(s, start + 1);
        proof {
            assert(t.skip(1) =~= s@.skip(start + 1 as int));
        }
        return r;
    }
    // scan to the end of the word
    let mut e: usize = start;
    while e < n
        invariant
            start <= e <= n,
            n == s@.len(),
            forall|j: int| start <= j < e ==> !is_ws(#[trigger] s@[j]),
        ensures
            start <= e <= n,
            n == s@.len(),
            forall|j: int| start <= j < e ==> !is_ws(#[trigger] s@[j]),
            e == n || is_ws(s@[e as int]),
        decreases n - e,
    {
        if is_ws_exec(s.get_char(e)) {
            break;
        }
        e = e + 1;
    }
    proof {
        assert forall|j: int| 0 <= j < e - start implies !is_ws(#[trigger] t[j]) by {
            assert(t[j] == s@[start + j]);
        }
        if e < n {
            assert(t[e - start] == s@[e as int]);
        }
        lemma_word_end_at(t, e - start);
    }
    let w = s.substring_char(start, e).to_owned();
    let rest = words_from(s, e);
    let ghost prev = rest@;
    let ghost dvprev = rest.deep_view();
    let mut out = rest;
    out.insert(0, w);
    proof {
        assert(dvprev == spec_words(s@.skip(e as int)));
        assert(dvprev =~= dv_seq(prev));
        lemma_dv_insert(prev, 0, out@[0]);
        lemma_vec_dv(out);
        assert(out@[0]@ =~= t.take(word_end(t) as int));
        assert(t.skip(word_end(t) as int) =~= s@.skip(e as int));
        assert(out.deep_view() =~= seq![t.take(word_end(t) as int)] + spec_words(
            t.skip(word_end(t) as int),
        ));
        assert(out.deep_view() =~= spec_words(t));
    }
    out
}

/// The whitespace-separated words of `s`, in order.
pub fn words(s: &str) -> (r: Vec<String>)
    ensures
        r.deep_view() == spec_words(s@),
{
    let r = words_from(s, 0);
    proof {
        assert(s@.skip(0) =~= s@);
    }
    r
}

} // verus!
