//! Verified text helpers shared by the engine: substring search, locating a
//! separator character, path prefix/suffix tests that respect `/` component
//! boundaries, and membership in a comma-separated list.

use vstd::prelude::*;
use vstd::string::StrSliceExecFns;

verus! {

/// `needle` occurs in `hay` starting at position `i`.
pub open spec fn matches_at(hay: Seq<char>, needle: Seq<char>, i: int) -> bool {
    &&& 0 <= i
    &&& i + needle.len() <= hay.len()
    &&& hay.subrange(i, i + needle.len()) == needle
}

/// `needle` occurs somewhere in `hay` (an empty needle always occurs).
pub open spec fn contains_seq(hay: Seq<char>, needle: Seq<char>) -> bool {
    exists|i: int| matches_at(hay, needle, i)
}

/// Index of the first occurrence of `c` in `s`, or `s.len()` if absent.
pub open spec fn first_occurrence(s: Seq<char>, c: char) -> int
    decreases s.len(),
{
    if s.len() == 0 {
        0
    } else if s[0] == c {
        0
    } else {
        1 + first_occurrence(s.drop_first(), c)
    }
}

/// `first_occurrence` is exactly the position characterized pointwise: no `c`
/// before it, and `c` (or the end of the string) at it.
pub proof fn lemma_first_occurrence(s: Seq<char>, c: char, i: int)
    requires
        0 <= i <= s.len(),
        forall|k: int| 0 <= k < i ==> s[k] != c,
        i == s.len() || s[i] == c,
    ensures
        first_occurrence(s, c) == i,
    decreases s.len(),
{
    if s.len() == 0 {
    } else if s[0] == c {
        assert(i == 0);
    } else {
        assert(i >= 1);
        let t = s.drop_first();
        assert(forall|k: int| 0 <= k < i - 1 ==> t[k] == s[k + 1] && t[k] != c);
        assert(i - 1 == t.len() || t[i - 1] == c);
        lemma_first_occurrence(t, c, i - 1);
    }
}

/// Finds the first occurrence of `c` in `s` at or after `from`.
pub fn find_char(s: &str, c: char, from: usize) -> (r: Option<usize>)
    requires
        from <= s@.len(),
    ensures
        match r {
            Some(i) => {
                &&& from <= i < s@.len()
                &&& s@[i as int] == c
                &&& forall|k: int| from <= k < i ==> s@[k] != c
            },
            None => forall|k: int| from <= k < s@.len() ==> s@[k] != c,
        },
{
    let n = s.unicode_len();
    let mut i = from;
    while i < n
        invariant
            from <= i <= n,
            n == s@.len(),
            forall|k: int| from <= k < i ==> s@[k] != c,
        decreases n - i,
    {
        if s.get_char(i) == c {
            return Some(i);
        }
        i = i + 1;
    }
    None
}

/// `needle` occurs in `hay` at position `i`, tested character by character.
pub fn match_at(hay: &str, needle: &str, i: usize) -> (r: bool)
    requires
        i + needle@.len() <= hay@.len(),
    ensures
        r == matches_at(hay@, needle@, i as int),
{
    let m = needle.unicode_len();
    let n = hay.unicode_len();
    let mut j: usize = 0;
    while j < m
        invariant
            0 <= j <= m,
            m == needle@.len(),
            n == hay@.len(),
            i + m <= n,
            forall|k: int| 0 <= k < j ==> hay@[i + k] == needle@[k],
        decreases m - j,
    {
        if hay.get_char(i + j) != needle.get_char(j) {
            assert(hay@.subrange(i as int, i + needle@.len()) != needle@) by {
                assert(hay@.subrange(i as int, i + needle@.len())[j as int] != needle@[j as int]);
            }
            return false;
        }
        j = j + 1;
    }
    assert(hay@.subrange(i as int, i + needle@.len()) =~= needle@);
    true
}

/// Substring search: does `hay` contain `needle`?
pub fn str_contains(hay: &str, needle: &str) -> (r: bool)
    ensures
        r == contains_seq(hay@, needle@),
{
    let n = hay.unicode_len();
    let m = needle.unicode_len();
    if m > n {
        return false;
    }
    if m == 0 {
        assert(hay@.subrange(0, 0) =~= needle@);
        assert(matches_at(hay@, needle@, 0));
        return true;
    }
    let mut i: usize = 0;
    while i <= n - m
        invariant
            0 <= i <= n - m + 1,
            0 < m <= n,
            n == hay@.len(),
            m == needle@.len(),
            forall|k: int| 0 <= k < i ==> !matches_at(hay@, needle@, k),
        decreases n - i,
    {
        if match_at(hay, needle, i) {
            return true;
        }
        i = i + 1;
    }
    assert(forall|k: int| matches_at(hay@, needle@, k) ==> 0 <= k <= n - m);
    false
}

/// The two strings hold the same characters, through the standard `==` on
/// `String`.
pub fn string_eq(a: &String, b: &String) -> (r: bool)
    ensures
        r == (a@ == b@),
{
    *a == *b
}

/// The two strings hold the same characters.
pub fn str_eq(a: &str, b: &str) -> (r: bool)
    ensures
        r == (a@ == b@),
{
    let n = a.unicode_len();
    if n != b.unicode_len() {
        assert(a@ != b@);
        return false;
    }
    let r = match_at(a, b, 0);
    if r {
        assert(a@.subrange(0, a@.len() as int) =~= a@);
    } else {
        assert(a@.subrange(0, a@.len() as int) =~= a@);
    }
    r
}

/// `p` ends with the path `q`, where the boundary between path components is
/// a `/` character: either the strings are equal or the suffix starts right
/// after a `/`. An empty `q` is a suffix of every path.
pub open spec fn spec_path_ends_with(p: Seq<char>, q: Seq<char>) -> bool {
    if q.len() == 0 {
        true
    } else {
        &&& q.len() <= p.len()
        &&& p.subrange(p.len() - q.len(), p.len() as int) == q
        &&& (p.len() == q.len() || p[p.len() - q.len() - 1] == '/')
    }
}

/// `p` starts with the path `q`, on `/` component boundaries.
pub open spec fn spec_path_starts_with(p: Seq<char>, q: Seq<char>) -> bool {
    if q.len() == 0 {
        true
    } else {
        &&& q.len() <= p.len()
        &&& p.subrange(0, q.len() as int) == q
        &&& (p.len() == q.len() || p[q.len() as int] == '/' || p[q.len() - 1] == '/')
    }
}

/// Path suffix test with `/` as the component separator.
pub fn path_ends_with(p: &str, q: &str) -> (r: bool)
    ensures
        r == spec_path_ends_with(p@, q@),
{
    let m = q.unicode_len();
    if m == 0 {
        return true;
    }
    let n = p.unicode_len();
    if m > n {
        return false;
    }
    if !match_at(p, q, n - m) {
        return false;
    }
    n == m || p.get_char(n - m - 1) == '/'
}

/// Path prefix test with `/` as the component separator.
pub fn path_starts_with(p: &str, q: &str) -> (r: bool)
    ensures
        r == spec_path_starts_with(p@, q@),
{
    let m = q.unicode_len();
    if m == 0 {
        return true;
    }
    let n = p.unicode_len();
    if m > n {
        return false;
    }
    if !match_at(p, q, 0) {
        return false;
    }
    n == m || p.get_char(m) == '/' || p.get_char(m - 1) == '/'
}

/// `[i, j)` delimits one piece of the comma-separated list `s`: it abuts a
/// comma (or an end of the string) on both sides and holds no comma itself.
pub open spec fn is_csv_piece(s: Seq<char>, i: int, j: int) -> bool {
    &&& 0 <= i <= j <= s.len()
    &&& (i == 0 || s[i - 1] == ',')
    &&& (j == s.len() || s[j] == ',')
    &&& forall|k: int| i <= k < j ==> s[k] != ','
}

/// `name` is one of the comma-separated pieces of `s`.
pub open spec fn csv_contains(s: Seq<char>, name: Seq<char>) -> bool {
    exists|i: int, j: int| is_csv_piece(s, i, j) && s.subrange(i, j) == name
}

/// Splits `s` on commas and reports whether any piece equals `name`.
pub fn csv_contains_name(s: &str, name: &str) -> (r: bool)
    ensures
        r == csv_contains(s@, name@),
{
    let n = s.unicode_len();
    let name_len = name.unicode_len();
    let mut pos: usize = 0;
    loop
        invariant
            0 <= pos <= n,
            n == s@.len(),
            name_len == name@.len(),
            pos == 0 || s@[pos - 1] == ',',
            forall|i: int, j: int|
                is_csv_piece(s@, i, j) && i < pos ==> s@.subrange(i, j) != name@,
        decreases n - pos,
    {
        let end = match find_char(s, ',', pos) {
            Some(idx) => idx,
            None => n,
        };
        // [pos, end) is the piece starting at pos; no other piece starts in (pos, end].
        assert(is_csv_piece(s@, pos as int, end as int));
        if end - pos == name_len && match_at(s, name, pos) {
            return true;
        }
        assert(s@.subrange(pos as int, end as int) != name@) by {
            if end - pos == name_len {
                assert(!matches_at(s@, name@, pos as int));
            } else {
                assert(s@.subrange(pos as int, end as int).len() != name@.len());
            }
        }
        assert(forall|i: int, j: int|
            is_csv_piece(s@, i, j) && i < end + 1 ==> s@.subrange(i, j) != name@) by {
            assert forall|i: int, j: int|
                is_csv_piece(s@, i, j) && i < end + 1 implies s@.subrange(i, j) != name@ by {
                if i < pos {
                } else if i == pos {
                    // The right end of the piece at pos is forced to be end.
                    if j < end {
                        assert(s@[j] == ',');
                    } else if j > end {
                        assert((end as int) < s@.len() && s@[end as int] == ',');
                    }
                    assert(j == end);
                } else {
                    // No piece can start strictly inside (pos, end]:
                    // its preceding character would have to be a comma.
                    assert(s@[i - 1] == ',');
                    assert(pos <= i - 1 < end);
                    assert(false);
                }
            }
        }
        if end == n {
            return false;
        }
        pos = end + 1;
    }
}

} // verus!
