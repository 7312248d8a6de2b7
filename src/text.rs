use vstd::prelude::*;

verus! {

/// The Unicode White_Space characters, as `char::is_whitespace` lists them.
pub open spec fn space_char(c: char) -> bool {
    ('\u{9}' <= c && c <= '\u{d}') || c == ' ' || c == '\u{85}' || c == '\u{a0}'
        || c == '\u{1680}' || ('\u{2000}' <= c && c <= '\u{200a}') || c == '\u{2028}'
        || c == '\u{2029}' || c == '\u{202f}' || c == '\u{205f}' || c == '\u{3000}'
}

/// A double or a single quote.
pub open spec fn quote_char(c: char) -> bool {
    c == '"' || c == '\''
}

/// What `trim_matching` strips: white space, or quotes when `quotes` is set.
pub open spec fn strippable(c: char, quotes: bool) -> bool {
    if quotes {
        quote_char(c)
    } else {
        space_char(c)
    }
}

/// `s[a..b]` is what is left of `s` once strippable characters are taken off
/// both ends.
pub open spec fn trim_bounds(s: Seq<char>, quotes: bool, a: int, b: int) -> bool {
    &&& 0 <= a <= b <= s.len()
    &&& forall|j: int| 0 <= j < a ==> strippable(#[trigger] s[j], quotes)
    &&& forall|j: int| b <= j < s.len() ==> strippable(#[trigger] s[j], quotes)
    &&& a < b ==> !strippable(s[a], quotes) && !strippable(s[b - 1], quotes)
}

/// `s` without its leading and trailing strippable characters.
pub open spec fn trimmed(s: Seq<char>, quotes: bool) -> Seq<char> {
    let ab = choose|ab: (int, int)| trim_bounds(s, quotes, ab.0, ab.1);
    s.subrange(ab.0, ab.1)
}

/// `k` is the position of the first comma of `s`, or its length when it has none.
pub open spec fn comma_at(s: Seq<char>, k: int) -> bool {
    &&& 0 <= k <= s.len()
    &&& forall|j: int| 0 <= j < k ==> #[trigger] s[j] != ','
    &&& k == s.len() || s[k] == ','
}

/// The part of `s` before its first comma (all of `s` when it has none).
pub open spec fn before_comma(s: Seq<char>) -> Seq<char> {
    let k = choose|k: int| comma_at(s, k);
    s.subrange(0, k)
}

/// `t` occurs in `s` as a contiguous run.
pub open spec fn has_infix(s: Seq<char>, t: Seq<char>) -> bool {
    exists|i: int| 0 <= i && i + t.len() <= s.len() && #[trigger] s.subrange(i, i + t.len()) == t
}

/// Whether `c` is white space in Unicode's sense.
pub fn is_space(c: char) -> (r: bool)
    ensures
        r == space_char(c),
{
    ('\u{9}' <= c && c <= '\u{d}') || c == ' ' || c == '\u{85}' || c == '\u{a0}'
        || c == '\u{1680}' || ('\u{2000}' <= c && c <= '\u{200a}') || c == '\u{2028}'
        || c == '\u{2029}' || c == '\u{202f}' || c == '\u{205f}' || c == '\u{3000}'
}

fn is_strippable(c: char, quotes: bool) -> (r: bool)
    ensures
        r == strippable(c, quotes),
{
    if quotes {
        c == '"' || c == '\''
    } else {
        is_space(c)
    }
}

/// Takes white space (or, with `quotes`, quote characters) off both ends of `s`.
pub fn trim_matching(s: &str, quotes: bool) -> (r: &str)
    ensures
        r@ == trimmed(s@, quotes),
{
    let n = s.unicode_len();
    let mut a: usize = 0;
    while a < n && is_strippable(s.get_char(a), quotes)
        invariant
            n == s@.len(),
            a <= n,
            forall|j: int| 0 <= j < a ==> strippable(#[trigger] s@[j], quotes),
        decreases n - a,
    {
        a = a + 1;
    }
    let mut b: usize = n;
    while b > a && is_strippable(s.get_char(b - 1), quotes)
        invariant
            n == s@.len(),
            a <= b <= n,
            forall|j: int| b <= j < n ==> strippable(#[trigger] s@[j], quotes),
        decreases b,
    {
        b = b - 1;
    }
    proof {
        assert(trim_bounds(s@, quotes, a as int, b as int));
        lemma_trim_bounds_unique(s@, quotes, a as int, b as int);
    }
    s.substring_char(a, b)
}

proof fn lemma_trim_bounds_unique(s: Seq<char>, quotes: bool, a: int, b: int)
    requires
        trim_bounds(s, quotes, a, b),
    ensures
        trimmed(s, quotes) == s.subrange(a, b),
{
    assert(trim_bounds(s, quotes, (a, b).0, (a, b).1));
    let ab = choose|ab: (int, int)| trim_bounds(s, quotes, ab.0, ab.1);
    assert(trim_bounds(s, quotes, ab.0, ab.1));
    if a < b {
        assert(ab.0 == a) by {
            if ab.0 < a {
                assert(strippable(s[ab.0], quotes));
            } else if ab.0 > a {
                assert(strippable(s[a], quotes));
            }
        }
        assert(ab.1 == b) by {
            if ab.1 < b {
                assert(strippable(s[b - 1], quotes));
            } else if ab.1 > b {
                assert(strippable(s[ab.1 - 1], quotes));
            }
        }
    } else {
        if ab.0 < ab.1 {
            if ab.0 < a {
                assert(strippable(s[ab.0], quotes));
            } else {
                assert(strippable(s[ab.0], quotes));
            }
        }
        assert(s.subrange(a, b) =~= Seq::<char>::empty());
        assert(s.subrange(ab.0, ab.1) =~= Seq::<char>::empty());
    }
}

/// The part of `s` before its first comma.
pub fn field_before_comma(s: &str) -> (r: &str)
    ensures
        r@ == before_comma(s@),
{
    let n = s.unicode_len();
    let mut k: usize = 0;
    while k < n && s.get_char(k) != ','
        invariant
            n == s@.len(),
            k <= n,
            forall|j: int| 0 <= j < k ==> #[trigger] s@[j] != ',',
        decreases n - k,
    {
        k = k + 1;
    }
    proof {
        assert(comma_at(s@, k as int));
        let c = choose|c: int| comma_at(s@, c);
        assert(comma_at(s@, c));
        if c < k {
            assert(s@[c] != ',');
        } else if c > k {
            assert(s@[k as int] == ',');
        }
    }
    s.substring_char(0, k)
}

fn matches_at(s: &str, t: &str, i: usize) -> (r: bool)
    requires
        i + t@.len() <= s@.len(),
        s@.len() <= usize::MAX,
    ensures
        r == (s@.subrange(i as int, i + t@.len()) == t@),
{
    let m = t.unicode_len();
    let mut j: usize = 0;
    while j < m
        invariant
            m == t@.len(),
            i + m <= s@.len(),
            s@.len() <= usize::MAX,
            j <= m,
            forall|x: int| 0 <= x < j ==> s@[i + x] == t@[x],
        decreases m - j,
    {
        if s.get_char(i + j) != t.get_char(j) {
            assert(s@.subrange(i as int, i + m)[j as int] != t@[j as int]);
            return false;
        }
        j = j + 1;
    }
    assert(s@.subrange(i as int, i + m) =~= t@);
    true
}

/// Whether `a` and `b` hold the same characters.
pub fn same_text(a: &str, b: &str) -> (r: bool)
    ensures
        r == (a@ == b@),
{
    let n = a.unicode_len();
    let m = b.unicode_len();
    if n != m {
        return false;
    }
    let r = matches_at(a, b, 0);
    assert(a@.subrange(0, n as int) =~= a@);
    r
}

/// `rel` put under the directory `base`: a `/` goes between them unless `base`
/// is empty or already ends in a separator.
pub open spec fn joined(base: Seq<char>, rel: Seq<char>) -> Seq<char> {
    if base.len() == 0 || base.last() == '/' || base.last() == '\\' {
        base + rel
    } else {
        base + seq!['/'] + rel
    }
}

/// Puts the relative path `rel` under the directory `base`.
pub fn join_path(base: &str, rel: &str) -> (r: String)
    ensures
        r@ == joined(base@, rel@),
{
    let n = base.unicode_len();
    let mut r = String::from_str(base);
    if n > 0 {
        let c = base.get_char(n - 1);
        if c != '/' && c != '\\' {
            proof {
                reveal_strlit("/");
            }
            r.append("/");
            assert("/"@ =~= seq!['/']);
        }
    }
    r.append(rel);
    r
}

/// Whether `t` occurs in `s`.
pub fn contains_text(s: &str, t: &str) -> (r: bool)
    ensures
        r == has_infix(s@, t@),
{
    let n = s.unicode_len();
    let m = t.unicode_len();
    if m > n {
        return false;
    }
    if m == 0 {
        assert(s@.subrange(0int, 0int + t@.len()) =~= t@);
        return true;
    }
    let mut i: usize = 0;
    while i <= n - m
        invariant
            n == s@.len(),
            m == t@.len(),
            0 < m <= n,
            i <= n - m + 1,
            forall|x: int| 0 <= x < i ==> #[trigger] s@.subrange(x, x + m) != t@,
        decreases n - i,
    {
        if matches_at(s, t, i) {
            return true;
        }
        i = i + 1;
    }
    assert forall|x: int| 0 <= x && x + t@.len() <= s@.len() implies #[trigger] s@.subrange(x, x + t@.len()) != t@ by {
        assert(x < i);
    }
    false
}

} // verus!
