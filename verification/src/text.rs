//! Verified text utilities: whitespace trimming, substring replacement,
//! prefix tests and equality helpers over `String` values.
use vstd::prelude::*;
use vstd::string::*;

verus! {

/// The Unicode `White_Space` characters, the ones removed by trimming.
pub open spec fn is_ws_char(c: char) -> bool {
    c == '\u{0009}' || c == '\u{000A}' || c == '\u{000B}' || c == '\u{000C}' || c == '\u{000D}'
        || c == ' ' || c == '\u{0085}' || c == '\u{00A0}' || c == '\u{1680}' || c == '\u{2000}'
        || c == '\u{2001}' || c == '\u{2002}' || c == '\u{2003}' || c == '\u{2004}'
        || c == '\u{2005}' || c == '\u{2006}' || c == '\u{2007}' || c == '\u{2008}'
        || c == '\u{2009}' || c == '\u{200A}' || c == '\u{2028}' || c == '\u{2029}'
        || c == '\u{202F}' || c == '\u{205F}' || c == '\u{3000}'
}

fn is_ws(c: char) -> (r: bool)
    ensures
        r == is_ws_char(c),
{
    c == '\u{0009}' || c == '\u{000A}' || c == '\u{000B}' || c == '\u{000C}' || c == '\u{000D}'
        || c == ' ' || c == '\u{0085}' || c == '\u{00A0}' || c == '\u{1680}' || c == '\u{2000}'
        || c == '\u{2001}' || c == '\u{2002}' || c == '\u{2003}' || c == '\u{2004}'
        || c == '\u{2005}' || c == '\u{2006}' || c == '\u{2007}' || c == '\u{2008}'
        || c == '\u{2009}' || c == '\u{200A}' || c == '\u{2028}' || c == '\u{2029}'
        || c == '\u{202F}' || c == '\u{205F}' || c == '\u{3000}'
}

/// The sequence with its leading whitespace removed.
pub open spec fn ltrim_spec(s: Seq<char>) -> Seq<char>
    decreases s.len(),
{
    if s.len() > 0 && is_ws_char(s[0]) {
        ltrim_spec(s.skip(1))
    } else {
        s
    }
}

/// The sequence with its trailing whitespace removed.
pub open spec fn rtrim_spec(s: Seq<char>) -> Seq<char>
    decreases s.len(),
{
    if s.len() > 0 && is_ws_char(s.last()) {
        rtrim_spec(s.drop_last())
    } else {
        s
    }
}

/// The sequence with leading and trailing whitespace removed.
pub open spec fn trim_spec(s: Seq<char>) -> Seq<char> {
    rtrim_spec(ltrim_spec(s))
}

proof fn lemma_ltrim_skip(s: Seq<char>, k: int)
    requires
        0 <= k <= s.len(),
        forall|i: int| 0 <= i < k ==> is_ws_char(s[i]),
        k == s.len() || !is_ws_char(s[k]),
    ensures
        ltrim_spec(s) == s.skip(k),
    decreases k,
{
    if k == 0 {
        assert(s.skip(0) =~= s);
        if s.len() > 0 && is_ws_char(s[0]) {
            // contradiction with k == 0 and !is_ws_char(s[0]) unless len == 0
        }
    } else {
        assert(is_ws_char(s[0]));
        let t = s.skip(1);
        assert(forall|i: int| 0 <= i < k - 1 ==> is_ws_char(t[i]));
        lemma_ltrim_skip(t, k - 1);
        assert(t.skip(k - 1) =~= s.skip(k));
    }
}

proof fn lemma_rtrim_take(s: Seq<char>, k: int)
    requires
        0 <= k <= s.len(),
        forall|i: int| k <= i < s.len() ==> is_ws_char(s[i]),
        k == 0 || !is_ws_char(s[k - 1]),
    ensures
        rtrim_spec(s) == s.take(k),
    decreases s.len() - k,
{
    if k == s.len() {
        assert(s.take(k) =~= s);
        if s.len() > 0 && is_ws_char(s.last()) {
            // contradiction: s.last() == s[k-1] is not whitespace unless k == 0
        }
    } else {
        assert(is_ws_char(s.last()));
        let t = s.drop_last();
        lemma_rtrim_take(t, k);
        assert(t.take(k) =~= s.take(k));
    }
}

/// Remove leading and trailing whitespace, as the sanitize configuration does
/// before reading an attribute value.
pub fn trim(s: &str) -> (r: String)
    ensures
        r@ == trim_spec(s@),
{
    let n = s.unicode_len();
    let mut f: usize = 0;
    while f < n && is_ws(s.get_char(f))
        invariant
            0 <= f <= n,
            n == s@.len(),
            forall|i: int| 0 <= i < f ==> is_ws_char(s@[i]),
        decreases n - f,
    {
        f = f + 1;
    }
    if f == n {
        proof {
            lemma_ltrim_skip(s@, n as int);
            assert(s@.skip(n as int) =~= Seq::<char>::empty());
            assert(rtrim_spec(Seq::<char>::empty()) =~= Seq::<char>::empty());
        }
        return String::new();
    }
    // s has a non-whitespace character at index f; find the last one.
    let mut l: usize = n - 1;
    while is_ws(s.get_char(l))
        invariant
            0 <= f <= l < n,
            n == s@.len(),
            !is_ws_char(s@[f as int]),
            forall|i: int| l < i < n ==> is_ws_char(s@[i]),
        decreases l,
    {
        // l never passes f, since s[f] is not whitespace
        l = l - 1;
    }
    let r = s.substring_char(f, l + 1).to_owned();
    proof {
        lemma_ltrim_skip(s@, f as int);
        let t = s@.skip(f as int);
        assert(forall|i: int| (l + 1 - f) <= i < t.len() ==> is_ws_char(t[i]));
        assert(!is_ws_char(t[l - f as int]));
        lemma_rtrim_take(t, l + 1 - f as int);
        assert(t.take(l + 1 - f as int) =~= s@.subrange(f as int, l + 1 as int));
    }
    r
}

/// One round of replacement: each leftmost, non-overlapping occurrence of
/// `pat` becomes `rep`; other characters are kept.
pub open spec fn replace_spec(s: Seq<char>, pat: Seq<char>, rep: Seq<char>) -> Seq<char>
    decreases s.len(),
{
    if s.len() == 0 {
        Seq::empty()
    } else if 0 < pat.len() <= s.len() && s.take(pat.len() as int) == pat {
        rep + replace_spec(s.skip(pat.len() as int), pat, rep)
    } else {
        seq![s[0]] + replace_spec(s.skip(1), pat, rep)
    }
}

/// Whether `pat` occurs in `s` at position `at`.
spec fn matches_at(s: Seq<char>, pat: Seq<char>, at: int) -> bool {
    0 <= at && at + pat.len() <= s.len() && s.subrange(at, at + pat.len()) == pat
}

fn match_at(s: &str, n: usize, pat: &str, m: usize, at: usize) -> (r: bool)
    requires
        n == s@.len(),
        m == pat@.len(),
        at < n,
    ensures
        r == matches_at(s@, pat@, at as int),
{
    if m > n - at {
        assert(!matches_at(s@, pat@, at as int));
        return false;
    }
    let mut j: usize = 0;
    while j < m
        invariant
            0 <= j <= m,
            n == s@.len(),
            m == pat@.len(),
            at + m <= n,
            forall|i: int| 0 <= i < j ==> s@[at + i] == pat@[i],
        decreases m - j,
    {
        if s.get_char(at + j) != pat.get_char(j) {
            assert(s@.subrange(at as int, at + m) !~= pat@) by {
                assert(s@.subrange(at as int, at + m)[j as int] != pat@[j as int]);
            }
            return false;
        }
        j = j + 1;
    }
    assert(s@.subrange(at as int, at + m) =~= pat@);
    true
}

/// Replace every occurrence of `pat` (leftmost first, non-overlapping)
/// with `rep`, as the sanitize configuration rewrites identifiers.
pub fn replace_all(s: &str, pat: &str, rep: &str) -> (r: String)
    requires
        pat@.len() > 0,
    ensures
        r@ == replace_spec(s@, pat@, rep@),
{
    let n = s.unicode_len();
    let m = pat.unicode_len();
    let mut r = String::new();
    let mut i: usize = 0;
    proof {
        assert(s@.skip(0) =~= s@);
        assert(r@ + replace_spec(s@, pat@, rep@) =~= replace_spec(s@, pat@, rep@));
    }
    while i < n
        invariant
            0 <= i <= n,
            n == s@.len(),
            m == pat@.len(),
            m > 0,
            replace_spec(s@, pat@, rep@) == r@ + replace_spec(s@.skip(i as int), pat@, rep@),
        decreases n - i,
    {
        let ghost t = s@.skip(i as int);
        if match_at(s, n, pat, m, i) {
            proof {
                assert(t.take(m as int) =~= s@.subrange(i as int, i + m));
                assert(t.skip(m as int) =~= s@.skip(i + m));
            }
            r.append(rep);
            i = i + m;
        } else {
            proof {
                if 0 < pat@.len() <= t.len() && t.take(m as int) == pat@ {
                    assert(t.take(m as int) =~= s@.subrange(i as int, i + m));
                    assert(false);
                }
                assert(t.skip(1) =~= s@.skip(i + 1));
                assert(seq![t[0]] =~= s@.subrange(i as int, i + 1));
            }
            let c = s.substring_char(i, i + 1);
            r.append(c);
            i = i + 1;
        }
    }
    proof {
        assert(s@.skip(n as int) =~= Seq::<char>::empty());
    }
    r
}

/// Whether `s` begins with `pat`.
pub open spec fn starts_with_spec(s: Seq<char>, pat: Seq<char>) -> bool {
    s.len() >= pat.len() && s.take(pat.len() as int) == pat
}

/// Prefix test, used to accept only instance references rooted under the
/// external module path.
pub fn starts_with(s: &str, pat: &str) -> (r: bool)
    ensures
        r == starts_with_spec(s@, pat@),
{
    let n = s.unicode_len();
    let m = pat.unicode_len();
    if m > n {
        return false;
    }
    if m == 0 {
        assert(s@.take(0) =~= pat@);
        return true;
    }
    let r = match_at(s, n, pat, m, 0);
    proof {
        assert(s@.subrange(0, m as int) =~= s@.take(m as int));
    }
    r
}

/// Equality of a `String` with a given string slice, by contents.
pub fn str_eq(a: &String, b: &str) -> (r: bool)
    ensures
        r == (a@ == b@),
{
    let bs = String::from_str(b);
    *a == bs
}

} // verus!
