//! Verified text utilities on `&str` and its `Seq<char>` view: substring
//! containment (used by the exclusion rules), suffix matching (used by the
//! content-type rules), whitespace trimming (used on probe output) and the
//! position of the last occurrence of a character (used to find a path's
//! extension).

use vstd::prelude::*;

verus! {

/// The needle occurs in the haystack starting at position `i`.
pub open spec fn occurs_at(hay: Seq<char>, needle: Seq<char>, i: int) -> bool {
    0 <= i && i + needle.len() <= hay.len() && hay.subrange(i, i + needle.len()) == needle
}

/// The needle occurs somewhere in the haystack.
pub open spec fn has_substr(hay: Seq<char>, needle: Seq<char>) -> bool {
    exists|i: int| occurs_at(hay, needle, i)
}

/// The suffix ends the haystack.
pub open spec fn has_suffix(hay: Seq<char>, suffix: Seq<char>) -> bool {
    suffix.len() <= hay.len() && hay.subrange(hay.len() - suffix.len(), hay.len() as int)
        == suffix
}

/// ASCII whitespace, the only whitespace the external probes emit.
pub open spec fn is_blank(c: char) -> bool {
    c == ' ' || c == '\t' || c == '\n' || c == '\r'
}

/// The sequence with its leading blanks removed.
pub open spec fn trim_start_spec(s: Seq<char>) -> Seq<char>
    decreases s.len(),
{
    if s.len() > 0 && is_blank(s[0]) {
        trim_start_spec(s.drop_first())
    } else {
        s
    }
}

/// The sequence with its trailing blanks removed.
pub open spec fn trim_end_spec(s: Seq<char>) -> Seq<char>
    decreases s.len(),
{
    if s.len() > 0 && is_blank(s.last()) {
        trim_end_spec(s.drop_last())
    } else {
        s
    }
}

/// The sequence with leading and trailing blanks removed.
pub open spec fn trim_spec(s: Seq<char>) -> Seq<char> {
    trim_end_spec(trim_start_spec(s))
}

/// Position of the last occurrence of `c` in `s`, or `-1` if `c` does not
/// occur.
pub open spec fn last_pos(s: Seq<char>, c: char) -> int
    decreases s.len(),
{
    if s.len() == 0 {
        -1
    } else if s.last() == c {
        s.len() - 1
    } else {
        last_pos(s.drop_last(), c)
    }
}

/// `last_pos` finds an occurrence and nothing follows it.
pub proof fn lemma_last_pos(s: Seq<char>, c: char)
    ensures
        -1 <= last_pos(s, c) < s.len(),
        last_pos(s, c) >= 0 ==> s[last_pos(s, c)] == c,
        forall|k: int| last_pos(s, c) < k < s.len() ==> s[k] != c,
    decreases s.len(),
{
    if s.len() > 0 && s.last() != c {
        lemma_last_pos(s.drop_last(), c);
        assert(forall|k: int| 0 <= k < s.len() - 1 ==> s[k] == s.drop_last()[k]);
    }
}

/// Any position that holds `c` with no later occurrence is `last_pos`.
pub proof fn lemma_last_pos_found(s: Seq<char>, c: char, p: int)
    requires
        0 <= p < s.len(),
        s[p] == c,
        forall|k: int| p < k < s.len() ==> s[k] != c,
    ensures
        last_pos(s, c) == p,
    decreases s.len(),
{
    if p < s.len() - 1 {
        lemma_last_pos_found(s.drop_last(), c, p);
    }
}

fn char_eq_at(a: &str, b: &str, i: usize, j: usize) -> (r: bool)
    requires
        i < a@.len(),
        j < b@.len(),
    ensures
        r == (a@[i as int] == b@[j as int]),
{
    a.get_char(i) == b.get_char(j)
}

/// Character-for-character equality of two string slices.
pub fn str_eq(a: &str, b: &str) -> (r: bool)
    ensures
        r == (a@ == b@),
{
    let a_len = a.unicode_len();
    let b_len = b.unicode_len();
    if a_len != b_len {
        return false;
    }
    let mut i: usize = 0;
    while i < a_len
        invariant
            a_len == a@.len(),
            a@.len() == b@.len(),
            i <= a_len,
            forall|k: int| 0 <= k < i ==> a@[k] == b@[k],
        decreases a_len - i,
    {
        if !char_eq_at(a, b, i, i) {
            return false;
        }
        i += 1;
    }
    proof {
        assert(a@ =~= b@);
    }
    true
}

fn matches_at(hay: &str, needle: &str, at: usize, needle_len: usize) -> (r: bool)
    requires
        needle_len == needle@.len(),
        at + needle_len <= hay@.len(),
        hay@.len() <= usize::MAX,
    ensures
        r == occurs_at(hay@, needle@, at as int),
{
    let mut j: usize = 0;
    while j < needle_len
        invariant
            needle_len == needle@.len(),
            at + needle_len <= hay@.len(),
            hay@.len() <= usize::MAX,
            j <= needle_len,
            forall|k: int| 0 <= k < j ==> hay@[at + k] == needle@[k],
        decreases needle_len - j,
    {
        if !char_eq_at(hay, needle, at + j, j) {
            proof {
                assert(hay@.subrange(at as int, at + needle_len)[j as int]
                    == hay@[at + j]);
            }
            return false;
        }
        j += 1;
    }
    proof {
        assert(hay@.subrange(at as int, at + needle_len) =~= needle@);
    }
    true
}

/// Whether the haystack contains the needle as a contiguous substring.
///
/// This is the exclusion test of the crawler: a path is excluded when its
/// rendering contains one of the exclude fragments.
pub fn contains_substr(hay: &str, needle: &str) -> (r: bool)
    ensures
        r == has_substr(hay@, needle@),
{
    let hay_len = hay.unicode_len();
    let needle_len = needle.unicode_len();
    if needle_len > hay_len {
        return false;
    }
    let last_start = hay_len - needle_len;
    let mut i: usize = 0;
    loop
        invariant
            hay_len == hay@.len(),
            needle_len == needle@.len(),
            needle_len <= hay_len,
            last_start == hay_len - needle_len,
            i <= last_start,
            forall|k: int| 0 <= k < i ==> !occurs_at(hay@, needle@, k),
        ensures
            forall|k: int| 0 <= k <= last_start ==> !occurs_at(hay@, needle@, k),
        decreases last_start - i,
    {
        if matches_at(hay, needle, i, needle_len) {
            return true;
        }
        if i == last_start {
            break;
        }
        i += 1;
    }
    false
}

/// Whether the haystack ends with the given suffix.
pub fn ends_with(hay: &str, suffix: &str) -> (r: bool)
    ensures
        r == has_suffix(hay@, suffix@),
{
    let hay_len = hay.unicode_len();
    let suffix_len = suffix.unicode_len();
    if suffix_len > hay_len {
        return false;
    }
    let start = hay_len - suffix_len;
    if matches_at(hay, suffix, start, suffix_len) {
        proof {
            assert(hay@.subrange(hay@.len() - suffix@.len(), hay@.len() as int)
                =~= hay@.subrange(start as int, start + suffix@.len()));
        }
        true
    } else {
        proof {
            assert(hay@.subrange(hay@.len() - suffix@.len(), hay@.len() as int)
                =~= hay@.subrange(start as int, start + suffix@.len()));
        }
        false
    }
}

proof fn lemma_trim_start_range(s: Seq<char>, i: int)
    requires
        0 <= i <= s.len(),
        forall|k: int| 0 <= k < i ==> is_blank(s[k]),
        i < s.len() ==> !is_blank(s[i]),
    ensures
        trim_start_spec(s) == s.subrange(i, s.len() as int),
    decreases i,
{
    if i == 0 {
        assert(s.subrange(0, s.len() as int) =~= s);
    } else {
        let t = s.drop_first();
        assert(forall|k: int| 0 <= k < i - 1 ==> t[k] == s[k + 1]);
        lemma_trim_start_range(t, i - 1);
        assert(t.subrange(i - 1, t.len() as int) =~= s.subrange(i, s.len() as int));
    }
}

proof fn lemma_trim_end_range(s: Seq<char>, j: int)
    requires
        0 <= j <= s.len(),
        forall|k: int| j <= k < s.len() ==> is_blank(s[k]),
        j > 0 ==> !is_blank(s[j - 1]),
    ensures
        trim_end_spec(s) == s.subrange(0, j),
    decreases s.len() - j,
{
    if j == s.len() {
        assert(s.subrange(0, j) =~= s);
    } else {
        let t = s.drop_last();
        lemma_trim_end_range(t, j);
        assert(t.subrange(0, j) =~= s.subrange(0, j));
    }
}

fn is_blank_char(c: char) -> (r: bool)
    ensures
        r == is_blank(c),
{
    c == ' ' || c == '\t' || c == '\n' || c == '\r'
}

/// The slice with leading and trailing ASCII whitespace removed.
///
/// The external probes terminate their single-line answer with a newline;
/// this strips it (and any stray spaces) before the answer is compared
/// against the content-type rules.
pub fn trim_blank(s: &str) -> (r: &str)
    ensures
        r@ == trim_spec(s@),
{
    let n = s.unicode_len();
    let mut i: usize = 0;
    while i < n && is_blank_char(s.get_char(i))
        invariant
            n == s@.len(),
            i <= n,
            forall|k: int| 0 <= k < i ==> is_blank(s@[k]),
        decreases n - i,
    {
        i += 1;
    }
    let mut j: usize = n;
    while j > i && is_blank_char(s.get_char(j - 1))
        invariant
            n == s@.len(),
            i <= j <= n,
            forall|k: int| j <= k < n ==> is_blank(s@[k]),
        decreases j,
    {
        j -= 1;
    }
    let r = s.substring_char(i, j);
    proof {
        let mid = s@.subrange(i as int, s@.len() as int);
        lemma_trim_start_range(s@, i as int);
        if i == j {
            assert(forall|k: int| 0 <= k < mid.len() ==> is_blank(mid[k]));
            lemma_trim_end_range(mid, 0);
        } else {
            assert(mid[j - i - 1] == s@[j - 1]);
            assert(forall|k: int| j - i <= k < mid.len() ==> is_blank(mid[k]));
            lemma_trim_end_range(mid, j - i);
        }
        assert(mid.subrange(0, j - i) =~= s@.subrange(i as int, j as int));
    }
    r
}

/// Position of the last occurrence of `c` in `s`, if any.
pub fn rfind(s: &str, c: char) -> (r: Option<usize>)
    ensures
        match r {
            Some(p) => last_pos(s@, c) == p as int,
            None => last_pos(s@, c) == -1,
        },
{
    let n = s.unicode_len();
    let mut i: usize = n;
    while i > 0
        invariant
            n == s@.len(),
            i <= n,
            forall|k: int| i <= k < n ==> s@[k] != c,
        decreases i,
    {
        i -= 1;
        if s.get_char(i) == c {
            proof {
                lemma_last_pos_found(s@, c, i as int);
            }
            return Some(i);
        }
    }
    proof {
        lemma_last_pos(s@, c);
    }
    None
}

} // verus!
