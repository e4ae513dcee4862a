//! Small verified utilities over strings, used by the field extractors.

use vstd::prelude::*;
use vstd::string::*;

verus! {

/// Index of the last occurrence of `c` in `s`, if any.
pub open spec fn rfind(s: Seq<char>, c: char) -> Option<int>
    decreases s.len(),
{
    if s.len() == 0 {
        None
    } else if s[s.len() - 1] == c {
        Some(s.len() - 1)
    } else {
        rfind(s.subrange(0, s.len() - 1), c)
    }
}

/// `rfind` finds an occurrence, and nothing occurs to its right.
pub proof fn lemma_rfind(s: Seq<char>, c: char)
    ensures
        match rfind(s, c) {
            Some(k) => 0 <= k < s.len() && s[k] == c && (forall|j: int|
                k < j < s.len() ==> s[j] != c),
            None => forall|j: int| 0 <= j < s.len() ==> s[j] != c,
        },
    decreases s.len(),
{
    if s.len() == 0 {
    } else if s[s.len() - 1] == c {
    } else {
        let t = s.subrange(0, s.len() - 1);
        lemma_rfind(t, c);
        assert(forall|j: int| 0 <= j < t.len() ==> t[j] == s[j]);
    }
}

/// The characterization is also complete: a last occurrence is what
/// `rfind` returns.
pub proof fn lemma_rfind_is(s: Seq<char>, c: char, k: int)
    requires
        0 <= k < s.len(),
        s[k] == c,
        forall|j: int| k < j < s.len() ==> s[j] != c,
    ensures
        rfind(s, c) == Some(k),
{
    lemma_rfind(s, c);
    match rfind(s, c) {
        None => {
            assert(s[k] != c);
        },
        Some(k2) => {
            if k2 < k {
                assert(s[k] != c);
            } else if k2 > k {
                assert(s[k2] != c);
            }
        },
    }
}

/// Last occurrence of `c` in `s`, scanning from the right.
pub fn rfind_char(s: &str, c: char) -> (r: Option<usize>)
    ensures
        r matches Some(k) ==> rfind(s@, c) == Some(k as int),
        r is None ==> rfind(s@, c) is None,
{
    let n = s.unicode_len();
    let mut i = n;
    while i > 0
        invariant
            i <= n,
            n == s@.len(),
            forall|j: int| i <= j < n ==> s@[j] != c,
        decreases i,
    {
        let ch = s.get_char(i - 1);
        if ch == c {
            proof {
                lemma_rfind_is(s@, c, i - 1);
            }
            return Some(i - 1);
        }
        i = i - 1;
    }
    proof {
        lemma_rfind(s@, c);
    }
    None
}

/// Character-wise equality of two strings.
pub fn str_eq(a: &str, b: &str) -> (r: bool)
    ensures
        r == (a@ == b@),
{
    let n = a.unicode_len();
    let m = b.unicode_len();
    if n != m {
        return false;
    }
    let mut i: usize = 0;
    while i < n
        invariant
            i <= n,
            n == a@.len(),
            n == b@.len(),
            forall|j: int| 0 <= j < i ==> a@[j] == b@[j],
        decreases n - i,
    {
        if a.get_char(i) != b.get_char(i) {
            return false;
        }
        i = i + 1;
    }
    proof {
        assert(a@ =~= b@);
    }
    true
}

/// `s` ends with `suffix`.
pub open spec fn ends_with(s: Seq<char>, suffix: Seq<char>) -> bool {
    s.len() >= suffix.len() && s.subrange(s.len() - suffix.len(), s.len() as int) == suffix
}

/// Whether the window of `s` starting at `i` spells out "failed",
/// accepting either case for each letter.
pub open spec fn failed_at(s: Seq<char>, i: int) -> bool {
    &&& (s[i] == 'f' || s[i] == 'F')
    &&& (s[i + 1] == 'a' || s[i + 1] == 'A')
    &&& (s[i + 2] == 'i' || s[i + 2] == 'I')
    &&& (s[i + 3] == 'l' || s[i + 3] == 'L')
    &&& (s[i + 4] == 'e' || s[i + 4] == 'E')
    &&& (s[i + 5] == 'd' || s[i + 5] == 'D')
}

/// `s` contains the substring "failed" in any casing.
pub open spec fn contains_failed(s: Seq<char>) -> bool {
    exists|i: int| 0 <= i && i + 6 <= s.len() && failed_at(s, i)
}

/// Case-insensitive test for an embedded "failed": the normalization a
/// task's state cell undergoes before it selects the failed variant.
pub fn state_is_failed(s: &str) -> (r: bool)
    ensures
        r == contains_failed(s@),
{
    let n = s.unicode_len();
    if n < 6 {
        return false;
    }
    let mut i: usize = 0;
    while i <= n - 6
        invariant
            n == s@.len(),
            n >= 6,
            i <= n,
            forall|j: int| 0 <= j < i ==> !failed_at(s@, j),
        decreases n - i,
    {
        let c0 = s.get_char(i);
        let c1 = s.get_char(i + 1);
        let c2 = s.get_char(i + 2);
        let c3 = s.get_char(i + 3);
        let c4 = s.get_char(i + 4);
        let c5 = s.get_char(i + 5);
        if (c0 == 'f' || c0 == 'F') && (c1 == 'a' || c1 == 'A') && (c2 == 'i' || c2 == 'I') && (c3
            == 'l' || c3 == 'L') && (c4 == 'e' || c4 == 'E') && (c5 == 'd' || c5 == 'D') {
            assert(failed_at(s@, i as int));
            return true;
        }
        i = i + 1;
    }
    assert(forall|j: int| 0 <= j && j + 6 <= s@.len() ==> !failed_at(s@, j));
    false
}

/// Pushing one string onto a vector of strings pushes its view onto the
/// deep view.
pub proof fn lemma_push_deep_view(pre: Vec<String>, post: Vec<String>, x: String)
    requires
        post@ == pre@.push(x),
    ensures
        post.deep_view() == pre.deep_view().push(x@),
{
    assert forall|k: int| 0 <= k < post@.len() implies post.deep_view()[k]
        == pre.deep_view().push(x@)[k] by {
        if k < pre@.len() {
            assert(post@[k] == pre@[k]);
        } else {
            assert(post@[k] == x);
        }
    }
    assert(post.deep_view() =~= pre.deep_view().push(x@));
}

/// Copies a vector of strings.
pub fn clone_strings(v: &Vec<String>) -> (r: Vec<String>)
    ensures
        r.deep_view() == v.deep_view(),
{
    let mut r: Vec<String> = Vec::new();
    assert(r.deep_view() =~= v.deep_view().subrange(0, 0));
    let mut i: usize = 0;
    while i < v.len()
        invariant
            i <= v.len(),
            r.deep_view() == v.deep_view().subrange(0, i as int),
        decreases v.len() - i,
    {
        let s = v[i].clone();
        assert(s@ == v.deep_view()[i as int]);
        let ghost pre = r;
        r.push(s);
        proof {
            lemma_push_deep_view(pre, r, s);
            assert(v.deep_view().subrange(0, i + 1) =~= v.deep_view().subrange(0, i as int).push(
                v.deep_view()[i as int],
            ));
        }
        i = i + 1;
    }
    assert(v.deep_view().subrange(0, v@.len() as int) =~= v.deep_view());
    r
}

/// Concatenates copies of two vectors of strings.
pub fn concat_strings(a: &Vec<String>, b: &Vec<String>) -> (r: Vec<String>)
    ensures
        r.deep_view() == a.deep_view() + b.deep_view(),
{
    let mut r = clone_strings(a);
    assert(r.deep_view() =~= a.deep_view() + b.deep_view().subrange(0, 0));
    let mut i: usize = 0;
    while i < b.len()
        invariant
            i <= b.len(),
            r.deep_view() == a.deep_view() + b.deep_view().subrange(0, i as int),
        decreases b.len() - i,
    {
        let s = b[i].clone();
        assert(s@ == b.deep_view()[i as int]);
        let ghost pre = r;
        r.push(s);
        proof {
            lemma_push_deep_view(pre, r, s);
            assert(a.deep_view() + b.deep_view().subrange(0, i + 1) =~= (a.deep_view()
                + b.deep_view().subrange(0, i as int)).push(b.deep_view()[i as int]));
        }
        i = i + 1;
    }
    assert(b.deep_view().subrange(0, b@.len() as int) =~= b.deep_view());
    r
}

/// First index at or after `from` where `pat` occurs as a substring of `s`.
pub open spec fn find_sub(s: Seq<char>, pat: Seq<char>, from: int) -> Option<int>
    decreases s.len() - from + 1,
{
    if from < 0 || from + pat.len() > s.len() {
        None
    } else if s.subrange(from, from + pat.len()) == pat {
        Some(from)
    } else {
        find_sub(s, pat, from + 1)
    }
}

/// `find_sub` finds an occurrence, and nothing occurs before it.
pub proof fn lemma_find_sub(s: Seq<char>, pat: Seq<char>, from: int)
    requires
        0 <= from,
    ensures
        match find_sub(s, pat, from) {
            Some(k) => from <= k && k + pat.len() <= s.len() && s.subrange(k, k + pat.len()) == pat
                && (forall|j: int| from <= j < k ==> #[trigger] s.subrange(j, j + pat.len()) != pat),
            None => forall|j: int|
                from <= j && j + pat.len() <= s.len() ==> #[trigger] s.subrange(j, j + pat.len()) != pat,
        },
    decreases s.len() - from + 1,
{
    if from + pat.len() > s.len() {
    } else if s.subrange(from, from + pat.len()) == pat {
    } else {
        lemma_find_sub(s, pat, from + 1);
    }
}

/// The characterization is complete: the first occurrence is what
/// `find_sub` returns.
pub proof fn lemma_find_sub_is(s: Seq<char>, pat: Seq<char>, from: int, k: int)
    requires
        0 <= from <= k,
        k + pat.len() <= s.len(),
        s.subrange(k, k + pat.len()) == pat,
        forall|j: int| from <= j < k ==> #[trigger] s.subrange(j, j + pat.len()) != pat,
    ensures
        find_sub(s, pat, from) == Some(k),
{
    lemma_find_sub(s, pat, from);
    match find_sub(s, pat, from) {
        None => {
            assert(s.subrange(k, k + pat.len()) != pat);
        },
        Some(k2) => {
            if k2 < k {
                assert(s.subrange(k2, k2 + pat.len()) != pat);
            } else if k2 > k {
                assert(s.subrange(k, k + pat.len()) != pat);
            }
        },
    }
}

/// First occurrence of `pat` in `s` at or after `from`.
pub fn find_substr(s: &str, pat: &str, from: usize) -> (r: Option<usize>)
    ensures
        r matches Some(k) ==> find_sub(s@, pat@, from as int) == Some(k as int),
        r is None ==> find_sub(s@, pat@, from as int) is None,
{
    let n = s.unicode_len();
    let m = pat.unicode_len();
    if from > n || m > n - from {
        return None;
    }
    if m == 0 {
        proof {
            assert(s@.subrange(from as int, from as int) =~= pat@);
        }
        return Some(from);
    }
    let mut i = from;
    while i <= n - m
        invariant
            from <= i,
            1 <= m <= n,
            i <= n - m + 1,
            n == s@.len(),
            m == pat@.len(),
            forall|j: int| from <= j < i ==> #[trigger] s@.subrange(j, j + pat@.len()) != pat@,
        decreases n - i + 1,
    {
        if str_eq(s.substring_char(i, i + m), pat) {
            proof {
                lemma_find_sub_is(s@, pat@, from as int, i as int);
            }
            return Some(i);
        }
        i = i + 1;
    }
    proof {
        lemma_find_sub(s@, pat@, from as int);
        if let Some(k) = find_sub(s@, pat@, from as int) {
            assert(s@.subrange(k, k + pat@.len()) != pat@);
        }
    }
    None
}

/// Whitespace as the parameter micro-parser understands it.
pub open spec fn is_ws(c: char) -> bool {
    c == ' ' || c == '\n' || c == '\t' || c == '\r'
}

/// First index at or after `i` whose character is not a colon or space.
pub open spec fn skip_colon_space(s: Seq<char>, i: int) -> int
    decreases s.len() - i,
{
    if i < 0 || i >= s.len() {
        s.len() as int
    } else if s[i] == ':' || s[i] == ' ' {
        skip_colon_space(s, i + 1)
    } else {
        i
    }
}

/// First index at or after `i` holding whitespace.
pub open spec fn first_ws(s: Seq<char>, i: int) -> int
    decreases s.len() - i,
{
    if i < 0 || i >= s.len() {
        s.len() as int
    } else if is_ws(s[i]) {
        i
    } else {
        first_ws(s, i + 1)
    }
}

/// The single token of a parameter value: what stands between the leading
/// colon-and-space and the first whitespace after it.
pub open spec fn token_of(s: Seq<char>) -> Seq<char> {
    s.subrange(skip_colon_space(s, 0), first_ws(s, skip_colon_space(s, 0)))
}

/// Extracts the token of a parameter value cell.
pub fn value_token(s: &str) -> (r: String)
    ensures
        r@ == token_of(s@),
{
    let n = s.unicode_len();
    let mut i: usize = 0;
    loop
        invariant_except_break
            i <= n,
            n == s@.len(),
            skip_colon_space(s@, 0) == skip_colon_space(s@, i as int),
        ensures
            i <= n,
            n == s@.len(),
            skip_colon_space(s@, 0) == i as int,
        decreases n - i,
    {
        if i >= n {
            break;
        }
        let c = s.get_char(i);
        if !(c == ':' || c == ' ') {
            break;
        }
        i = i + 1;
    }
    let start = i;
    let mut j = start;
    loop
        invariant_except_break
            start <= j <= n,
            n == s@.len(),
            first_ws(s@, start as int) == first_ws(s@, j as int),
        ensures
            start <= j <= n,
            n == s@.len(),
            first_ws(s@, start as int) == j as int,
        decreases n - j,
    {
        if j >= n {
            break;
        }
        let c = s.get_char(j);
        if c == ' ' || c == '\n' || c == '\t' || c == '\r' {
            break;
        }
        j = j + 1;
    }
    let sub = s.substring_char(start, j);
    String::from_str(sub)
}

} // verus!
