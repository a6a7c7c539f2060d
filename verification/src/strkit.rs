//! Verified string primitives: substring tests, token replacement,
//! whitespace splitting, trimming, joining and lexicographic comparison.
//!
//! Every executable function is specified against a recursive spec function
//! over `Seq<char>`, so that the text-generation and decision modules can
//! state their contracts in terms of these definitions.
use vstd::prelude::*;

verus! {

/// `pat` occurs in `s` at position `i`.
pub open spec fn occurs_at(s: Seq<char>, pat: Seq<char>, i: int) -> bool {
    0 <= i && i + pat.len() <= s.len() && s.subrange(i, i + pat.len() as int) == pat
}

/// `pat` occurs somewhere in `s`.
pub open spec fn has_occurrence(s: Seq<char>, pat: Seq<char>) -> bool {
    exists|i: int| occurs_at(s, pat, i)
}

/// `pre` is a prefix of `s`.
pub open spec fn is_prefix_of(pre: Seq<char>, s: Seq<char>) -> bool {
    pre.len() <= s.len() && s.subrange(0, pre.len() as int) == pre
}

/// Leftmost, non-overlapping replacement of every occurrence of `pat` by `rep`.
pub open spec fn spec_replace(s: Seq<char>, pat: Seq<char>, rep: Seq<char>) -> Seq<char>
    recommends
        pat.len() > 0,
    decreases s.len(),
{
    if pat.len() == 0 || s.len() < pat.len() {
        s
    } else if s.subrange(0, pat.len() as int) == pat {
        rep + spec_replace(s.skip(pat.len() as int), pat, rep)
    } else {
        seq![s[0]] + spec_replace(s.skip(1), pat, rep)
    }
}

/// True iff `a@ == b@`.
pub fn str_eq(a: &str, b: &str) -> (r: bool)
    ensures
        r == (a@ == b@),
{
    let an: usize = a.unicode_len();
    let bn: usize = b.unicode_len();
    if an != bn {
        assert(a@ != b@);
        return false;
    }
    let mut i: usize = 0;
    while i < an
        invariant
            an == a@.len(),
            an == b@.len(),
            i <= an,
            forall|k: int| 0 <= k < i ==> a@[k] == b@[k],
        decreases an - i,
    {
        if a.get_char(i) != b.get_char(i) {
            return false;
        }
        i += 1;
    }
    proof {
        assert(a@ =~= b@);
    }
    true
}

/// True iff `pat` occurs in `s` at position `i`.
pub fn match_at(s: &str, pat: &str, i: usize) -> (r: bool)
    requires
        i + pat@.len() <= s@.len(),
    ensures
        r == occurs_at(s@, pat@, i as int),
{
    let n: usize = s.unicode_len();
    let m: usize = pat.unicode_len();
    let mut j: usize = 0;
    while j < m
        invariant
            n == s@.len(),
            m == pat@.len(),
            i + m <= n,
            j <= m,
            forall|k: int| 0 <= k < j ==> s@[i + k] == pat@[k],
        decreases m - j,
    {
        if s.get_char(i + j) != pat.get_char(j) {
            assert(s@.subrange(i as int, i + m) != pat@) by {
                assert(s@.subrange(i as int, i + m)[j as int] == s@[i + j]);
            }
            return false;
        }
        j += 1;
    }
    proof {
        assert(s@.subrange(i as int, i + m) =~= pat@);
    }
    true
}

/// True iff `pat` occurs somewhere in `s`.
pub fn contains_str(s: &str, pat: &str) -> (r: bool)
    requires
        pat@.len() > 0,
    ensures
        r == has_occurrence(s@, pat@),
{
    let n: usize = s.unicode_len();
    let m: usize = pat.unicode_len();
    if m > n {
        assert(!has_occurrence(s@, pat@));
        return false;
    }
    let last: usize = n - m;
    let mut i: usize = 0;
    while i <= last
        invariant
            n == s@.len(),
            m == pat@.len(),
            0 < m <= n,
            last == n - m,
            i <= last + 1,
            forall|k: int| 0 <= k < i ==> !occurs_at(s@, pat@, k),
        decreases last + 1 - i,
    {
        if match_at(s, pat, i) {
            return true;
        }
        i += 1;
    }
    proof {
        assert(forall|k: int| !occurs_at(s@, pat@, k));
    }
    false
}

/// True iff `pre` is a prefix of `s`.
pub fn starts_with(s: &str, pre: &str) -> (r: bool)
    ensures
        r == is_prefix_of(pre@, s@),
{
    let n: usize = s.unicode_len();
    let m: usize = pre.unicode_len();
    if m > n {
        return false;
    }
    match_at(s, pre, 0)
}

/// Replace every occurrence of `pat` in `s` by `rep`, left to right.
pub fn replace_token(s: &str, pat: &str, rep: &str) -> (r: String)
    requires
        pat@.len() > 0,
    ensures
        r@ == spec_replace(s@, pat@, rep@),
{
    let n: usize = s.unicode_len();
    let m: usize = pat.unicode_len();
    let mut out = String::new();
    let mut i: usize = 0;
    proof {
        assert(s@.skip(0) =~= s@);
        assert(Seq::<char>::empty() + spec_replace(s@, pat@, rep@) =~= spec_replace(
            s@,
            pat@,
            rep@,
        ));
    }
    while i < n
        invariant
            n == s@.len(),
            m == pat@.len(),
            m > 0,
            i <= n,
            spec_replace(s@, pat@, rep@) == out@ + spec_replace(
                s@.skip(i as int),
                pat@,
                rep@,
            ),
        decreases n - i,
    {
        let ghost prev_out = out@;
        let ghost tail = s@.skip(i as int);
        if m <= n - i && match_at(s, pat, i) {
            out.append(rep);
            proof {
                assert(tail.len() >= m);
                assert(tail.subrange(0, m as int) =~= s@.subrange(i as int, i + m));
                assert(tail.subrange(0, m as int) == pat@);
                assert(tail.skip(m as int) =~= s@.skip(i + m));
                assert(spec_replace(tail, pat@, rep@) == rep@ + spec_replace(
                    s@.skip(i + m),
                    pat@,
                    rep@,
                ));
                assert(prev_out + spec_replace(tail, pat@, rep@) =~= (prev_out + rep@)
                    + spec_replace(s@.skip(i + m), pat@, rep@));
            }
            i += m;
        } else {
            let piece = s.substring_char(i, i + 1);
            out.append(piece);
            proof {
                assert(piece@ =~= seq![s@[i as int]]);
                if tail.len() >= m {
                    assert(tail.subrange(0, m as int) =~= s@.subrange(i as int, i + m));
                    assert(tail.subrange(0, m as int) != pat@);
                    assert(tail[0] == s@[i as int]);
                    assert(spec_replace(tail, pat@, rep@) == seq![s@[i as int]] + spec_replace(
                        tail.skip(1),
                        pat@,
                        rep@,
                    ));
                } else {
                    // the remainder is shorter than the token: it is copied whole
                    assert(spec_replace(tail, pat@, rep@) == tail);
                    assert(tail.len() >= 1);
                    assert(spec_replace(tail.skip(1), pat@, rep@) == tail.skip(1));
                    assert(tail =~= seq![tail[0]] + tail.skip(1));
                }
                assert(tail.skip(1) =~= s@.skip(i + 1));
                assert(prev_out + spec_replace(tail, pat@, rep@) =~= (prev_out + piece@)
                    + spec_replace(s@.skip(i + 1), pat@, rep@));
            }
            i += 1;
        }
    }
    proof {
        assert(s@.skip(n as int) =~= Seq::<char>::empty());
        assert(spec_replace(s@.skip(n as int), pat@, rep@) == s@.skip(n as int));
        assert(out@ + s@.skip(n as int) =~= out@);
    }
    out
}

/// Every occurrence of `pat` being absent, replacement leaves `s` unchanged.
pub proof fn lemma_replace_absent(s: Seq<char>, pat: Seq<char>, rep: Seq<char>)
    requires
        pat.len() > 0,
        !has_occurrence(s, pat),
    ensures
        spec_replace(s, pat, rep) == s,
    decreases s.len(),
{
    if s.len() < pat.len() {
    } else {
        assert(!occurs_at(s, pat, 0));
        assert(s.subrange(0, pat.len() as int) != pat);
        assert forall|i: int| !occurs_at(s.skip(1), pat, i) by {
            if occurs_at(s.skip(1), pat, i) {
                assert(s.subrange(i + 1, i + 1 + pat.len()) =~= s.skip(1).subrange(
                    i,
                    i + pat.len(),
                ));
                assert(occurs_at(s, pat, i + 1));
            }
        }
        lemma_replace_absent(s.skip(1), pat, rep);
        assert(seq![s[0]] + s.skip(1) =~= s);
    }
}

/// If the replaced text starts with a proper suffix of the token, that suffix
/// was already at the front of the input: the replacement cannot fabricate it,
/// since the replacement text starts with a character foreign to the token.
proof fn lemma_replace_prefix_traces(u: Seq<char>, pat: Seq<char>, rep: Seq<char>, j: int)
    requires
        0 < j < pat.len(),
        rep.len() > 0,
        forall|k: int| 0 <= k < pat.len() ==> rep[0] != pat[k],
        is_prefix_of(pat.skip(j), spec_replace(u, pat, rep)),
    ensures
        is_prefix_of(pat.skip(j), u),
    decreases u.len(),
{
    let t = spec_replace(u, pat, rep);
    let suf = pat.skip(j);
    assert(suf.len() == pat.len() - j);
    assert(suf[0] == pat[j]);
    if u.len() < pat.len() {
        // replacement is the identity here
    } else if u.subrange(0, pat.len() as int) == pat {
        assert(t == rep + spec_replace(u.skip(pat.len() as int), pat, rep));
        assert(t[0] == rep[0]);
        assert(t.subrange(0, suf.len() as int)[0] == t[0]);
        assert(t[0] == pat[j]);
        assert(false);
    } else {
        let t1 = spec_replace(u.skip(1), pat, rep);
        assert(t == seq![u[0]] + t1);
        assert(t.subrange(0, suf.len() as int)[0] == t[0]);
        assert(u[0] == pat[j]);
        if j + 1 == pat.len() {
            assert(u.subrange(0, 1) =~= suf);
        } else {
            let suf1 = pat.skip(j + 1);
            assert forall|k: int| 0 <= k < suf1.len() implies t1.subrange(
                0,
                suf1.len() as int,
            )[k] == suf1[k] by {
                assert(t1[k] == t[k + 1]);
                assert(t[k + 1] == t.subrange(0, suf.len() as int)[k + 1]);
                assert(suf[k + 1] == pat[j + 1 + k]);
            }
            assert(t1.subrange(0, suf1.len() as int) =~= suf1);
            lemma_replace_prefix_traces(u.skip(1), pat, rep, j + 1);
            assert forall|k: int| 0 <= k < suf.len() implies u.subrange(
                0,
                suf.len() as int,
            )[k] == suf[k] by {
                if k >= 1 {
                    assert(u.skip(1).subrange(0, suf1.len() as int)[k - 1] == suf1[k - 1]);
                    assert(u[k] == pat[j + k]);
                }
            }
            assert(u.subrange(0, suf.len() as int) =~= suf);
        }
    }
}

/// After replacement no occurrence of the token remains, provided the
/// replacement text contains no first-character of the token and starts with
/// a character that is foreign to the token.
pub proof fn lemma_replace_leaves_no_token(s: Seq<char>, pat: Seq<char>, rep: Seq<char>)
    requires
        pat.len() > 0,
        rep.len() > 0,
        forall|k: int| 0 <= k < rep.len() ==> rep[k] != pat[0],
        forall|k: int| 0 <= k < pat.len() ==> rep[0] != pat[k],
    ensures
        !has_occurrence(spec_replace(s, pat, rep), pat),
    decreases s.len(),
{
    let t = spec_replace(s, pat, rep);
    if s.len() < pat.len() {
        assert forall|i: int| !occurs_at(t, pat, i) by {}
    } else if s.subrange(0, pat.len() as int) == pat {
        let t1 = spec_replace(s.skip(pat.len() as int), pat, rep);
        lemma_replace_leaves_no_token(s.skip(pat.len() as int), pat, rep);
        assert(t == rep + t1);
        assert forall|i: int| !occurs_at(t, pat, i) by {
            if occurs_at(t, pat, i) {
                if i < rep.len() {
                    assert(t.subrange(i, i + pat.len())[0] == t[i]);
                    assert(rep[i] == pat[0]);
                } else {
                    assert(t1.subrange(i - rep.len(), i - rep.len() + pat.len()) =~= t.subrange(
                        i,
                        i + pat.len(),
                    ));
                    assert(occurs_at(t1, pat, i - rep.len()));
                }
            }
        }
    } else {
        let t1 = spec_replace(s.skip(1), pat, rep);
        lemma_replace_leaves_no_token(s.skip(1), pat, rep);
        assert(t == seq![s[0]] + t1);
        assert forall|i: int| !occurs_at(t, pat, i) by {
            if occurs_at(t, pat, i) {
                if i >= 1 {
                    assert(t1.subrange(i - 1, i - 1 + pat.len()) =~= t.subrange(i, i + pat.len()));
                    assert(occurs_at(t1, pat, i - 1));
                } else {
                    assert(t.subrange(0, pat.len() as int) == pat);
                    assert(t.subrange(0, pat.len() as int)[0] == t[0]);
                    assert(s[0] == pat[0]);
                    if pat.len() == 1 {
                        assert(s.subrange(0, 1) =~= pat);
                    } else {
                        let suf = pat.skip(1);
                        assert forall|k: int| 0 <= k < suf.len() implies t1.subrange(
                            0,
                            suf.len() as int,
                        )[k] == suf[k] by {
                            assert(t1[k] == t[k + 1]);
                            assert(t[k + 1] == t.subrange(0, pat.len() as int)[k + 1]);
                        }
                        assert(t1.subrange(0, suf.len() as int) =~= suf);
                        lemma_replace_prefix_traces(s.skip(1), pat, rep, 1);
                        assert forall|k: int| 0 <= k < pat.len() implies s.subrange(
                            0,
                            pat.len() as int,
                        )[k] == pat[k] by {
                            if k >= 1 {
                                assert(s.skip(1).subrange(0, suf.len() as int)[k - 1] == suf[k
                                    - 1]);
                            }
                        }
                        assert(s.subrange(0, pat.len() as int) =~= pat);
                    }
                }
            }
        }
    }
}

/// An ASCII whitespace character, as the probing commands emit them.
pub open spec fn is_space(c: char) -> bool {
    c == ' ' || c == '\n' || c == '\t' || c == '\r'
}

/// `s` with leading whitespace removed.
pub open spec fn spec_trim_start(s: Seq<char>) -> Seq<char>
    decreases s.len(),
{
    if s.len() > 0 && is_space(s[0]) {
        spec_trim_start(s.skip(1))
    } else {
        s
    }
}

/// `s` with trailing whitespace removed.
pub open spec fn spec_trim_end(s: Seq<char>) -> Seq<char>
    decreases s.len(),
{
    if s.len() > 0 && is_space(s.last()) {
        spec_trim_end(s.drop_last())
    } else {
        s
    }
}

/// `s` with whitespace removed at both ends.
pub open spec fn spec_trim(s: Seq<char>) -> Seq<char> {
    spec_trim_end(spec_trim_start(s))
}

pub proof fn lemma_trim_start_skip(s: Seq<char>, lo: int)
    requires
        0 <= lo <= s.len(),
        forall|k: int| 0 <= k < lo ==> is_space(s[k]),
        lo < s.len() ==> !is_space(s[lo]),
    ensures
        spec_trim_start(s) == s.skip(lo),
    decreases lo,
{
    if lo == 0 {
        assert(s.skip(0) =~= s);
    } else {
        assert(is_space(s[0]));
        lemma_trim_start_skip(s.skip(1), lo - 1);
        assert(s.skip(1).skip(lo - 1) =~= s.skip(lo));
    }
}

pub proof fn lemma_trim_end_take(s: Seq<char>, hi: int)
    requires
        0 <= hi <= s.len(),
        forall|k: int| hi <= k < s.len() ==> is_space(s[k]),
        hi > 0 ==> !is_space(s[hi - 1]),
    ensures
        spec_trim_end(s) == s.take(hi),
    decreases s.len(),
{
    if hi == s.len() {
        assert(s.take(hi) =~= s);
        if s.len() > 0 {
            assert(!is_space(s.last()));
        }
    } else {
        assert(is_space(s.last()));
        lemma_trim_end_take(s.drop_last(), hi);
        assert(s.drop_last() =~= s.take(s.len() - 1));
        assert(s.drop_last().take(hi) =~= s.take(hi));
    }
}

/// Remove ASCII whitespace at both ends of `s`.
pub fn trim(s: &str) -> (r: String)
    ensures
        r@ == spec_trim(s@),
{
    let n: usize = s.unicode_len();
    let mut lo: usize = 0;
    while lo < n && is_space_char(s.get_char(lo))
        invariant
            n == s@.len(),
            lo <= n,
            forall|k: int| 0 <= k < lo ==> is_space(s@[k]),
        decreases n - lo,
    {
        lo += 1;
    }
    proof {
        lemma_trim_start_skip(s@, lo as int);
    }
    if lo == n {
        proof {
            assert(s@.skip(n as int) =~= Seq::<char>::empty());
            assert(spec_trim(s@) =~= Seq::<char>::empty());
        }
        return String::new();
    }
    let mut hi: usize = n;
    while hi > lo && is_space_char(s.get_char(hi - 1))
        invariant
            n == s@.len(),
            lo < n,
            lo <= hi <= n,
            forall|k: int| hi <= k < n ==> is_space(s@[k]),
        decreases hi,
    {
        hi -= 1;
    }
    // the character at `lo` is not whitespace, so the window is nonempty
    proof {
        if hi == lo {
            assert(is_space(s@[lo as int]));
            assert(false);
        }
        let t = s@.skip(lo as int);
        lemma_trim_end_take(t, hi - lo);
        assert(t.take(hi - lo) =~= s@.subrange(lo as int, hi as int));
    }
    let r = s.substring_char(lo, hi);
    String::from_str(r)
}

/// `s` with every leading `c` removed.
pub open spec fn spec_trim_leading(s: Seq<char>, c: char) -> Seq<char>
    decreases s.len(),
{
    if s.len() > 0 && s[0] == c {
        spec_trim_leading(s.skip(1), c)
    } else {
        s
    }
}

proof fn lemma_trim_leading_skip(s: Seq<char>, c: char, lo: int)
    requires
        0 <= lo <= s.len(),
        forall|k: int| 0 <= k < lo ==> s[k] == c,
        lo < s.len() ==> s[lo] != c,
    ensures
        spec_trim_leading(s, c) == s.skip(lo),
    decreases lo,
{
    if lo == 0 {
        assert(s.skip(0) =~= s);
    } else {
        lemma_trim_leading_skip(s.skip(1), c, lo - 1);
        assert(s.skip(1).skip(lo - 1) =~= s.skip(lo));
    }
}

/// Remove every leading occurrence of `c` from `s`.
pub fn trim_leading(s: &str, c: char) -> (r: String)
    ensures
        r@ == spec_trim_leading(s@, c),
{
    let n: usize = s.unicode_len();
    let mut lo: usize = 0;
    while lo < n && s.get_char(lo) == c
        invariant
            n == s@.len(),
            lo <= n,
            forall|k: int| 0 <= k < lo ==> s@[k] == c,
        decreases n - lo,
    {
        lo += 1;
    }
    proof {
        lemma_trim_leading_skip(s@, c, lo as int);
    }
    let r = s.substring_char(lo, n);
    proof {
        assert(r@ =~= s@.skip(lo as int));
    }
    String::from_str(r)
}

/// Executable test for [`is_space`].
pub fn is_space_char(c: char) -> (r: bool)
    ensures
        r == is_space(c),
{
    c == ' ' || c == '\n' || c == '\t' || c == '\r'
}

/// Length of the maximal whitespace-free prefix of `s`.
pub open spec fn word_end(s: Seq<char>) -> int
    decreases s.len(),
{
    if s.len() == 0 || is_space(s[0]) {
        0
    } else {
        1 + word_end(s.skip(1))
    }
}

proof fn lemma_word_end(s: Seq<char>, w: int)
    requires
        0 <= w <= s.len(),
        forall|k: int| 0 <= k < w ==> !is_space(s[k]),
        w < s.len() ==> is_space(s[w]),
    ensures
        word_end(s) == w,
    decreases w,
{
    if w == 0 {
    } else {
        lemma_word_end(s.skip(1), w - 1);
    }
}

/// The whitespace-separated words of `s`, in order.
pub open spec fn spec_split_ws(s: Seq<char>) -> Seq<Seq<char>>
    decreases s.len(),
{
    if s.len() == 0 {
        Seq::<Seq<char>>::empty()
    } else if is_space(s[0]) {
        spec_split_ws(s.skip(1))
    } else if 1 <= word_end(s) <= s.len() {
        seq![s.take(word_end(s))] + spec_split_ws(s.skip(word_end(s)))
    } else {
        // unreachable: the first character is not whitespace
        Seq::<Seq<char>>::empty()
    }
}

proof fn lemma_word_end_bounds(s: Seq<char>)
    ensures
        0 <= word_end(s) <= s.len(),
        s.len() > 0 && !is_space(s[0]) ==> word_end(s) >= 1,
    decreases s.len(),
{
    if s.len() == 0 || is_space(s[0]) {
    } else {
        lemma_word_end_bounds(s.skip(1));
    }
}

/// The view of a vector of strings: the sequence of their views.
pub open spec fn views_of(v: Seq<String>) -> Seq<Seq<char>> {
    v.map_values(|x: String| x@)
}

/// Appending a string appends its view.
pub broadcast proof fn lemma_views_push(v: Seq<String>, s: String)
    ensures
        #[trigger] views_of(v.push(s)) == views_of(v).push(s@),
{
    assert(views_of(v.push(s)) =~= views_of(v).push(s@));
}

/// An empty vector of strings has an empty view.
pub broadcast proof fn lemma_views_empty(v: Seq<String>)
    ensures
        v.len() == 0 ==> #[trigger] views_of(v) == Seq::<Seq<char>>::empty(),
{
    if v.len() == 0 {
        assert(views_of(v) =~= Seq::<Seq<char>>::empty());
    }
}

/// Split `s` at ASCII whitespace, dropping empty fragments.
pub fn split_whitespace(s: &str) -> (r: Vec<String>)
    ensures
        views_of(r@) == spec_split_ws(s@),
{
    let n: usize = s.unicode_len();
    let mut out: Vec<String> = Vec::new();
    let mut i: usize = 0;
    proof {
        assert(s@.skip(0) =~= s@);
        assert(views_of(out@) + spec_split_ws(s@) =~= spec_split_ws(s@));
    }
    while i < n
        invariant
            n == s@.len(),
            i <= n,
            spec_split_ws(s@) == views_of(out@) + spec_split_ws(s@.skip(i as int)),
        decreases n - i,
    {
        let ghost tail = s@.skip(i as int);
        if is_space_char(s.get_char(i)) {
            proof {
                assert(tail[0] == s@[i as int]);
                assert(tail.skip(1) =~= s@.skip(i + 1));
            }
            i += 1;
        } else {
            let mut j: usize = i + 1;
            while j < n && !is_space_char(s.get_char(j))
                invariant
                    n == s@.len(),
                    i < j <= n,
                    forall|k: int| i <= k < j ==> !is_space(s@[k]),
                decreases n - j,
            {
                j += 1;
            }
            let word = s.substring_char(i, j);
            let ghost prev = out@;
            out.push(String::from_str(word));
            proof {
                assert forall|k: int| 0 <= k < j - i implies !is_space(tail[k]) by {
                    assert(tail[k] == s@[i + k]);
                }
                if j < n {
                    assert(tail[j - i] == s@[j as int]);
                }
                lemma_word_end(tail, j - i);
                assert(tail.take(j - i) =~= s@.subrange(i as int, j as int));
                assert(tail.skip(j - i) =~= s@.skip(j as int));
                assert(spec_split_ws(tail) == seq![tail.take(j - i)] + spec_split_ws(
                    s@.skip(j as int),
                ));
                assert(views_of(out@) =~= views_of(prev) + seq![word@]);
                assert(views_of(prev) + spec_split_ws(tail) =~= views_of(out@) + spec_split_ws(
                    s@.skip(j as int),
                ));
            }
            i = j;
        }
    }
    proof {
        assert(s@.skip(n as int) =~= Seq::<char>::empty());
        assert(views_of(out@) + spec_split_ws(s@.skip(n as int)) =~= views_of(out@));
    }
    out
}

/// Length of the prefix of `s` before the first newline, or all of `s`.
pub open spec fn line_end(s: Seq<char>) -> int
    decreases s.len(),
{
    if s.len() == 0 || s[0] == '\n' {
        0
    } else {
        1 + line_end(s.skip(1))
    }
}

pub proof fn lemma_line_end(s: Seq<char>, w: int)
    requires
        0 <= w <= s.len(),
        forall|k: int| 0 <= k < w ==> s[k] != '\n',
        w < s.len() ==> s[w] == '\n',
    ensures
        line_end(s) == w,
    decreases w,
{
    if w == 0 {
    } else {
        lemma_line_end(s.skip(1), w - 1);
    }
}

pub proof fn lemma_line_end_bounds(s: Seq<char>)
    ensures
        0 <= line_end(s) <= s.len(),
    decreases s.len(),
{
    if s.len() == 0 || s[0] == '\n' {
    } else {
        lemma_line_end_bounds(s.skip(1));
    }
}

/// The newline-separated lines of `s`; a trailing newline ends the last line
/// rather than opening an empty one.
pub open spec fn spec_split_lines(s: Seq<char>) -> Seq<Seq<char>>
    decreases s.len(),
{
    if s.len() == 0 {
        Seq::<Seq<char>>::empty()
    } else if 0 <= line_end(s) <= s.len() {
        let e = line_end(s);
        if e == s.len() {
            seq![s]
        } else {
            seq![s.take(e)] + spec_split_lines(s.skip(e + 1))
        }
    } else {
        // unreachable: line_end stays within bounds
        Seq::<Seq<char>>::empty()
    }
}

/// Split `s` at newlines, as the probing commands' output is read.
pub fn split_lines(s: &str) -> (r: Vec<String>)
    ensures
        views_of(r@) == spec_split_lines(s@),
{
    let n: usize = s.unicode_len();
    let mut out: Vec<String> = Vec::new();
    let mut i: usize = 0;
    proof {
        assert(s@.skip(0) =~= s@);
        assert(views_of(out@) + spec_split_lines(s@) =~= spec_split_lines(s@));
    }
    while i < n
        invariant
            n == s@.len(),
            i <= n,
            spec_split_lines(s@) == views_of(out@) + spec_split_lines(s@.skip(i as int)),
        decreases n - i,
    {
        let ghost tail = s@.skip(i as int);
        let mut j: usize = i;
        while j < n && s.get_char(j) != '\n'
            invariant
                n == s@.len(),
                i <= j <= n,
                forall|k: int| i <= k < j ==> s@[k] != '\n',
            decreases n - j,
        {
            j += 1;
        }
        let line = s.substring_char(i, j);
        let ghost prev = out@;
        out.push(String::from_str(line));
        proof {
            assert forall|k: int| 0 <= k < j - i implies tail[k] != '\n' by {
                assert(tail[k] == s@[i + k]);
            }
            if j < n {
                assert(tail[j - i] == s@[j as int]);
            }
            lemma_line_end(tail, j - i);
            assert(views_of(out@) =~= views_of(prev) + seq![line@]);
            if j == n {
                assert(tail.take(j - i) =~= tail);
                assert(line@ =~= tail);
                assert(spec_split_lines(tail) == seq![tail]);
                assert(views_of(prev) + spec_split_lines(tail) =~= views_of(out@)
                    + spec_split_lines(s@.skip(n as int)));
                assert(s@.skip(n as int) =~= Seq::<char>::empty());
            } else {
                assert(tail.take(j - i) =~= s@.subrange(i as int, j as int));
                assert(tail.skip(j - i + 1) =~= s@.skip(j + 1));
                assert(spec_split_lines(tail) == seq![tail.take(j - i)] + spec_split_lines(
                    s@.skip(j + 1),
                ));
                assert(views_of(prev) + spec_split_lines(tail) =~= views_of(out@)
                    + spec_split_lines(s@.skip(j + 1)));
            }
        }
        if j == n {
            i = n;
        } else {
            i = j + 1;
        }
    }
    proof {
        assert(s@.skip(n as int) =~= Seq::<char>::empty());
        assert(views_of(out@) + spec_split_lines(s@.skip(n as int)) =~= views_of(out@));
    }
    out
}

/// The words of `ps` after the first, each preceded by `sep`.
pub open spec fn spec_join_tail(ps: Seq<Seq<char>>, sep: Seq<char>) -> Seq<char>
    decreases ps.len(),
{
    if ps.len() == 0 {
        Seq::<char>::empty()
    } else {
        sep + ps[0] + spec_join_tail(ps.skip(1), sep)
    }
}

/// The words of `ps` joined by `sep`.
pub open spec fn spec_join(ps: Seq<Seq<char>>, sep: Seq<char>) -> Seq<char> {
    if ps.len() == 0 {
        Seq::<char>::empty()
    } else {
        ps[0] + spec_join_tail(ps.skip(1), sep)
    }
}

/// Join the strings of `parts` with `sep` between neighbours.
pub fn join(parts: &Vec<String>, sep: &str) -> (r: String)
    ensures
        r@ == spec_join(views_of(parts@), sep@),
{
    let ghost ps = views_of(parts@);
    let mut out = String::new();
    if parts.len() == 0 {
        return out;
    }
    out.append(parts[0].as_str());
    let mut i: usize = 1;
    proof {
        assert(Seq::<char>::empty() + ps[0] =~= ps[0]);
    }
    while i < parts.len()
        invariant
            parts@.len() == ps.len(),
            ps == views_of(parts@),
            1 <= i <= ps.len(),
            spec_join(ps, sep@) == out@ + spec_join_tail(ps.skip(i as int), sep@),
        decreases parts@.len() - i,
    {
        let ghost prev = out@;
        out.append(sep);
        out.append(parts[i].as_str());
        proof {
            let tail = ps.skip(i as int);
            assert(tail[0] == ps[i as int]);
            assert(tail.skip(1) =~= ps.skip(i + 1));
            assert(spec_join_tail(tail, sep@) == sep@ + tail[0] + spec_join_tail(
                ps.skip(i + 1),
                sep@,
            ));
            assert(prev + spec_join_tail(tail, sep@) =~= out@ + spec_join_tail(
                ps.skip(i + 1),
                sep@,
            ));
        }
        i += 1;
    }
    proof {
        assert(ps.skip(ps.len() as int) =~= Seq::<Seq<char>>::empty());
        assert(out@ + spec_join_tail(ps.skip(ps.len() as int), sep@) =~= out@);
    }
    out
}

/// The view of a vector of string pairs: the sequence of view pairs.
pub open spec fn pair_views(v: Seq<(String, String)>) -> Seq<(Seq<char>, Seq<char>)> {
    Seq::new(v.len(), |i: int| (v[i].0@, v[i].1@))
}

/// Appending a pair appends its views.
pub broadcast proof fn lemma_pair_views_push(v: Seq<(String, String)>, p: (String, String))
    ensures
        #[trigger] pair_views(v.push(p)) == pair_views(v).push((p.0@, p.1@)),
{
    assert forall|idx: int| 0 <= idx < v.push(p).len() implies pair_views(v.push(p))[idx]
        == pair_views(v).push((p.0@, p.1@))[idx] by {
        if idx < v.len() {
            assert(v.push(p)[idx] == v[idx]);
        } else {
            assert(v.push(p)[idx] == p);
        }
    }
    assert(pair_views(v.push(p)) =~= pair_views(v).push((p.0@, p.1@)));
}

/// An empty vector of pairs has an empty view.
pub broadcast proof fn lemma_pair_views_empty(v: Seq<(String, String)>)
    ensures
        v.len() == 0 ==> #[trigger] pair_views(v) == Seq::<(Seq<char>, Seq<char>)>::empty(),
{
    if v.len() == 0 {
        assert(pair_views(v) =~= Seq::<(Seq<char>, Seq<char>)>::empty());
    }
}

/// The character of one decimal digit.
pub open spec fn digit_char(d: nat) -> char {
    if d == 0 {
        '0'
    } else if d == 1 {
        '1'
    } else if d == 2 {
        '2'
    } else if d == 3 {
        '3'
    } else if d == 4 {
        '4'
    } else if d == 5 {
        '5'
    } else if d == 6 {
        '6'
    } else if d == 7 {
        '7'
    } else if d == 8 {
        '8'
    } else {
        '9'
    }
}

/// The decimal numeral of `n`, most significant digit first.
pub open spec fn spec_decimal(n: nat) -> Seq<char>
    decreases n,
{
    if n < 10 {
        seq![digit_char(n)]
    } else {
        spec_decimal(n / 10).push(digit_char(n % 10))
    }
}

fn digit_str(d: u64) -> (r: &'static str)
    requires
        d < 10,
    ensures
        r@ == seq![digit_char(d as nat)],
{
    proof {
        reveal_strlit("0");
        reveal_strlit("1");
        reveal_strlit("2");
        reveal_strlit("3");
        reveal_strlit("4");
        reveal_strlit("5");
        reveal_strlit("6");
        reveal_strlit("7");
        reveal_strlit("8");
        reveal_strlit("9");
    }
    let r: &'static str = if d == 0 {
        "0"
    } else if d == 1 {
        "1"
    } else if d == 2 {
        "2"
    } else if d == 3 {
        "3"
    } else if d == 4 {
        "4"
    } else if d == 5 {
        "5"
    } else if d == 6 {
        "6"
    } else if d == 7 {
        "7"
    } else if d == 8 {
        "8"
    } else {
        "9"
    };
    proof {
        assert(r@ =~= seq![digit_char(d as nat)]);
    }
    r
}

/// Render `n` in decimal.
pub fn decimal_string(n: u64) -> (r: String)
    ensures
        r@ == spec_decimal(n as nat),
    decreases n,
{
    if n < 10 {
        String::from_str(digit_str(n))
    } else {
        let mut s = decimal_string(n / 10);
        s.append(digit_str(n % 10));
        proof {
            assert(s@ =~= spec_decimal((n / 10) as nat).push(digit_char((n % 10) as nat)));
        }
        s
    }
}

/// Strict lexicographic order on character sequences, by code point.
pub open spec fn lex_lt(a: Seq<char>, b: Seq<char>) -> bool
    decreases a.len(),
{
    if b.len() == 0 {
        false
    } else if a.len() == 0 {
        true
    } else if (a[0] as u32) < (b[0] as u32) {
        true
    } else if a[0] == b[0] {
        lex_lt(a.skip(1), b.skip(1))
    } else {
        false
    }
}

/// The lexicographic order is asymmetric.
pub proof fn lemma_lex_asymmetric(a: Seq<char>, b: Seq<char>)
    requires
        lex_lt(a, b),
    ensures
        !lex_lt(b, a),
    decreases a.len(),
{
    if a.len() == 0 || b.len() == 0 {
    } else if a[0] == b[0] {
        lemma_lex_asymmetric(a.skip(1), b.skip(1));
    }
}

/// True iff `a@` precedes `b@` lexicographically.
pub fn str_lt(a: &str, b: &str) -> (r: bool)
    ensures
        r == lex_lt(a@, b@),
{
    let an: usize = a.unicode_len();
    let bn: usize = b.unicode_len();
    let mut i: usize = 0;
    proof {
        assert(a@.skip(0) =~= a@);
        assert(b@.skip(0) =~= b@);
    }
    while i < an && i < bn
        invariant
            an == a@.len(),
            bn == b@.len(),
            i <= an,
            i <= bn,
            forall|k: int| 0 <= k < i ==> a@[k] == b@[k],
            lex_lt(a@, b@) == lex_lt(a@.skip(i as int), b@.skip(i as int)),
        decreases an - i,
    {
        let ca = a.get_char(i);
        let cb = b.get_char(i);
        let ghost ta = a@.skip(i as int);
        let ghost tb = b@.skip(i as int);
        proof {
            assert(ta[0] == a@[i as int]);
            assert(tb[0] == b@[i as int]);
            assert(ta.skip(1) =~= a@.skip(i + 1));
            assert(tb.skip(1) =~= b@.skip(i + 1));
        }
        if (ca as u32) < (cb as u32) {
            return true;
        }
        if ca != cb {
            return false;
        }
        i += 1;
    }
    proof {
        let ta = a@.skip(i as int);
        let tb = b@.skip(i as int);
        if i == an {
            assert(ta =~= Seq::<char>::empty());
        } else {
            assert(tb =~= Seq::<char>::empty());
        }
    }
    an < bn
}

/// Replacement is idempotent whenever the replacement text cannot recreate
/// the token: doing it a second time changes nothing.
pub proof fn lemma_replace_idempotent(s: Seq<char>, pat: Seq<char>, rep: Seq<char>)
    requires
        pat.len() > 0,
        rep.len() > 0,
        forall|k: int| 0 <= k < rep.len() ==> rep[k] != pat[0],
        forall|k: int| 0 <= k < pat.len() ==> rep[0] != pat[k],
    ensures
        spec_replace(spec_replace(s, pat, rep), pat, rep) == spec_replace(s, pat, rep),
{
    lemma_replace_leaves_no_token(s, pat, rep);
    lemma_replace_absent(spec_replace(s, pat, rep), pat, rep);
}

} // verus!
