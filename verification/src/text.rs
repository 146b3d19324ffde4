//! Character-level helpers on strings: searching, trimming, slicing.
use vstd::prelude::*;

verus! {

/// The position of the first `c` in `s`, if any.
pub open spec fn first_index_of(s: Seq<char>, c: char) -> Option<int>
    decreases s.len(),
{
    if s.len() == 0 {
        None
    } else {
        match first_index_of(s.drop_last(), c) {
            Some(i) => Some(i),
            None => if s.last() == c {
                Some(s.len() - 1)
            } else {
                None
            },
        }
    }
}

pub proof fn lemma_first_index_of(s: Seq<char>, c: char)
    ensures
        match first_index_of(s, c) {
            Some(k) => 0 <= k < s.len() && s[k] == c && forall|j: int| 0 <= j < k ==> s[j] != c,
            None => forall|j: int| 0 <= j < s.len() ==> s[j] != c,
        },
    decreases s.len(),
{
    if s.len() > 0 {
        lemma_first_index_of(s.drop_last(), c);
        assert(forall|j: int| 0 <= j < s.len() - 1 ==> s.drop_last()[j] == s[j]);
    }
}

/// Finds the first `c` in `s`.
pub fn find_char(s: &str, c: char) -> (r: Option<usize>)
    ensures
        match r {
            Some(i) => first_index_of(s@, c) == Some(i as int),
            None => first_index_of(s@, c) is None,
        },
{
    let n = s.unicode_len();
    let mut i: usize = 0;
    while i < n
        invariant
            n == s@.len(),
            i <= n,
            forall|j: int| 0 <= j < i ==> s@[j] != c,
        decreases n - i,
    {
        if s.get_char(i) == c {
            proof {
                lemma_first_index_of(s@, c);
            }
            return Some(i);
        }
        i = i + 1;
    }
    proof {
        lemma_first_index_of(s@, c);
    }
    None
}

/// The whitespace of Unicode (the `White_Space` property).
pub open spec fn is_whitespace(c: char) -> bool {
    ('\u{9}' <= c && c <= '\u{d}') || c == ' ' || c == '\u{85}' || c == '\u{a0}' || c == '\u{1680}'
        || ('\u{2000}' <= c && c <= '\u{200a}') || c == '\u{2028}' || c == '\u{2029}' || c
        == '\u{202f}' || c == '\u{205f}' || c == '\u{3000}'
}

pub fn is_whitespace_char(c: char) -> (b: bool)
    ensures
        b == is_whitespace(c),
{
    ('\u{9}' <= c && c <= '\u{d}') || c == ' ' || c == '\u{85}' || c == '\u{a0}' || c == '\u{1680}'
        || ('\u{2000}' <= c && c <= '\u{200a}') || c == '\u{2028}' || c == '\u{2029}' || c
        == '\u{202f}' || c == '\u{205f}' || c == '\u{3000}'
}

/// `s` without the whitespace at either end: from its first non-whitespace
/// character through its last one, or nothing when it is all whitespace.
pub open spec fn trim_spec(s: Seq<char>) -> Seq<char> {
    if exists|i: int| 0 <= i < s.len() && !is_whitespace(s[i]) {
        let a = choose|a: int|
            0 <= a < s.len() && !is_whitespace(s[a]) && forall|j: int| 0 <= j < a ==> is_whitespace(s[j]);
        let b = choose|b: int|
            0 <= b < s.len() && !is_whitespace(s[b]) && forall|j: int| b < j < s.len() ==> is_whitespace(s[j]);
        s.subrange(a, b + 1)
    } else {
        seq![]
    }
}

/// Removes leading and trailing whitespace.
pub fn trim(s: &str) -> (t: &str)
    ensures
        t@ == trim_spec(s@),
{
    let n = s.unicode_len();
    let mut a: usize = 0;
    while a < n
        invariant
            n == s@.len(),
            a <= n,
            forall|j: int| 0 <= j < a ==> is_whitespace(s@[j]),
        ensures
            a <= n,
            forall|j: int| 0 <= j < a ==> is_whitespace(s@[j]),
            a < n ==> !is_whitespace(s@[a as int]),
        decreases n - a,
    {
        if !is_whitespace_char(s.get_char(a)) {
            break;
        }
        a = a + 1;
    }
    if a == n {
        proof {
            assert(!exists|i: int| 0 <= i < s@.len() && !is_whitespace(s@[i]));
        }
        return s.substring_char(0, 0);
    }
    let mut b: usize = n;
    while b > a + 1
        invariant
            n == s@.len(),
            a < b <= n,
            !is_whitespace(s@[a as int]),
            forall|j: int| b <= j < n ==> is_whitespace(s@[j]),
        ensures
            a < b <= n,
            forall|j: int| b <= j < n ==> is_whitespace(s@[j]),
            !is_whitespace(s@[b - 1]),
        decreases b,
    {
        if !is_whitespace_char(s.get_char(b - 1)) {
            break;
        }
        b = b - 1;
    }
    proof {
        let aa = choose|x: int|
            0 <= x < s@.len() && !is_whitespace(s@[x]) && forall|j: int| 0 <= j < x ==> is_whitespace(s@[j]);
        let bb = choose|x: int|
            0 <= x < s@.len() && !is_whitespace(s@[x]) && forall|j: int| x < j < s@.len() ==> is_whitespace(s@[j]);
        assert(0 <= a < s@.len() && !is_whitespace(s@[a as int]) && forall|j: int| 0 <= j < a ==> is_whitespace(s@[j]));
        assert(0 <= b - 1 < s@.len() && !is_whitespace(s@[b - 1]) && forall|j: int| b - 1 < j < s@.len() ==> is_whitespace(s@[j]));
        if aa < a {
            assert(is_whitespace(s@[aa]));
        }
        if aa > a {
            assert(is_whitespace(s@[a as int]));
        }
        if bb < b - 1 {
            assert(is_whitespace(s@[b - 1]));
        }
        if bb > b - 1 {
            assert(is_whitespace(s@[bb]));
        }
    }
    s.substring_char(a, b)
}

} // verus!

verus! {

/// Exact equality of two strings.
pub fn str_eq(a: &str, b: &str) -> (r: bool)
    ensures
        r == (a@ == b@),
{
    let n = a.unicode_len();
    if n != b.unicode_len() {
        return false;
    }
    let mut i: usize = 0;
    while i < n
        invariant
            n == a@.len(),
            n == b@.len(),
            i <= n,
            forall|j: int| 0 <= j < i ==> a@[j] == b@[j],
        decreases n - i,
    {
        if a.get_char(i) != b.get_char(i) {
            return false;
        }
        i = i + 1;
    }
    assert(a@ =~= b@);
    true
}

/// Whether `s` ends with `c`.
pub fn ends_with_char(s: &str, c: char) -> (r: bool)
    ensures
        r == (s@.len() > 0 && s@.last() == c),
{
    let n = s.unicode_len();
    n > 0 && s.get_char(n - 1) == c
}


/// `needle` stands in `hay` from position `i` on.
pub open spec fn occurs_at(hay: Seq<char>, needle: Seq<char>, i: int) -> bool {
    0 <= i && i + needle.len() <= hay.len() && hay.subrange(i, i + needle.len()) == needle
}

/// `needle` stands somewhere in `hay` (the empty text stands everywhere).
pub open spec fn occurs(hay: Seq<char>, needle: Seq<char>) -> bool {
    exists|i: int| #[trigger] occurs_at(hay, needle, i)
}

fn matches_at(hay: &str, needle: &str, i: usize) -> (r: bool)
    requires
        i + needle@.len() <= hay@.len(),
    ensures
        r == occurs_at(hay@, needle@, i as int),
{
    let m = needle.unicode_len();
    let n = hay.unicode_len();
    let mut j: usize = 0;
    while j < m
        invariant
            n == hay@.len(),
            m == needle@.len(),
            i + m <= hay@.len(),
            j <= m,
            forall|k: int| 0 <= k < j ==> hay@[i + k] == needle@[k],
        decreases m - j,
    {
        if hay.get_char(i + j) != needle.get_char(j) {
            proof {
                assert(hay@.subrange(i as int, i + m)[j as int] != needle@[j as int]);
            }
            return false;
        }
        j = j + 1;
    }
    assert(hay@.subrange(i as int, i + m) =~= needle@);
    true
}

/// Whether `needle` stands somewhere in `hay`.
pub fn str_contains(hay: &str, needle: &str) -> (r: bool)
    ensures
        r == occurs(hay@, needle@),
{
    let n = hay.unicode_len();
    let m = needle.unicode_len();
    if m > n {
        assert forall|i: int| !occurs_at(hay@, needle@, i) by {}
        return false;
    }
    if m == 0 {
        assert(occurs_at(hay@, needle@, 0)) by {
            assert(hay@.subrange(0, 0) =~= needle@);
        }
        return true;
    }
    let mut i: usize = 0;
    while i <= n - m
        invariant
            n == hay@.len(),
            m == needle@.len(),
            1 <= m <= n,
            i <= n - m + 1,
            forall|k: int| 0 <= k < i ==> !occurs_at(hay@, needle@, k),
        decreases n - m + 1 - i,
    {
        if matches_at(hay, needle, i) {
            return true;
        }
        i = i + 1;
    }
    assert forall|k: int| !occurs_at(hay@, needle@, k) by {
        if 0 <= k < i {
        }
    }
    false
}
} // verus!
