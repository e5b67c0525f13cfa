//! Locating the separators of the listen-spec grammar inside a string.
//!
//! The grammar needs three searches: the first occurrence of `://`, the first
//! occurrence of `/`, and the last occurrence of `:`.  Each search has a
//! spec-level definition (a total function of the character sequence) and an
//! executable scanner proved to return exactly that definition's value.  The
//! spec functions return `-1` for "not found" so that they stay total.

use vstd::prelude::*;

verus! {

/// The three-character protocol separator `://` starts at index `i` of `s`.
pub open spec fn is_sep_at(s: Seq<char>, i: int) -> bool {
    &&& 0 <= i
    &&& i + 3 <= s.len()
    &&& s[i] == ':'
    &&& s[i + 1] == '/'
    &&& s[i + 2] == '/'
}

/// Index of the first `://` at or after `i`, or `-1` if there is none.
pub open spec fn first_sep_from(s: Seq<char>, i: int) -> int
    decreases s.len() - i,
{
    if i < 0 || i + 3 > s.len() {
        -1
    } else if is_sep_at(s, i) {
        i
    } else {
        first_sep_from(s, i + 1)
    }
}

/// Index of the first `://` in `s`, or `-1` if there is none.
pub open spec fn first_sep(s: Seq<char>) -> int {
    first_sep_from(s, 0)
}

/// Index of the first occurrence of `c` at or after `i`, or `-1`.
pub open spec fn first_char_from(s: Seq<char>, c: char, i: int) -> int
    decreases s.len() - i,
{
    if i < 0 || i >= s.len() {
        -1
    } else if s[i] == c {
        i
    } else {
        first_char_from(s, c, i + 1)
    }
}

/// Index of the first occurrence of `c` in `s`, or `-1`.
pub open spec fn first_char(s: Seq<char>, c: char) -> int {
    first_char_from(s, c, 0)
}

/// Index of the last occurrence of `c` strictly below `i`, or `-1`.
pub open spec fn last_char_before(s: Seq<char>, c: char, i: int) -> int
    decreases i,
{
    if i <= 0 || i > s.len() {
        -1
    } else if s[i - 1] == c {
        i - 1
    } else {
        last_char_before(s, c, i - 1)
    }
}

/// Index of the last occurrence of `c` in `s`, or `-1`.
pub open spec fn last_char(s: Seq<char>, c: char) -> int {
    last_char_before(s, c, s.len() as int)
}

/// `first_sep` finds a real separator, and the earliest one.
pub proof fn lemma_first_sep_spec(s: Seq<char>)
    ensures
        first_sep(s) < 0 ==> forall|j: int| !is_sep_at(s, j),
        first_sep(s) >= 0 ==> is_sep_at(s, first_sep(s)) && (forall|j: int|
            0 <= j < first_sep(s) ==> !is_sep_at(s, j)),
{
    lemma_first_sep_from_spec(s, 0);
}

proof fn lemma_first_sep_from_spec(s: Seq<char>, i: int)
    requires
        0 <= i,
    ensures
        first_sep_from(s, i) < 0 ==> forall|j: int| j >= i ==> !is_sep_at(s, j),
        first_sep_from(s, i) >= 0 ==> is_sep_at(s, first_sep_from(s, i)) && first_sep_from(s, i)
            >= i && (forall|j: int| i <= j < first_sep_from(s, i) ==> !is_sep_at(s, j)),
    decreases s.len() - i,
{
    if i + 3 > s.len() {
        assert(forall|j: int| j >= i ==> !is_sep_at(s, j));
    } else if is_sep_at(s, i) {
    } else {
        lemma_first_sep_from_spec(s, i + 1);
    }
}

/// `first_char` finds a real occurrence, and the earliest one.
pub proof fn lemma_first_char_spec(s: Seq<char>, c: char)
    ensures
        first_char(s, c) < 0 ==> forall|j: int| 0 <= j < s.len() ==> s[j] != c,
        first_char(s, c) >= 0 ==> first_char(s, c) < s.len() && s[first_char(s, c)] == c && (
        forall|j: int| 0 <= j < first_char(s, c) ==> s[j] != c),
{
    lemma_first_char_from_spec(s, c, 0);
}

proof fn lemma_first_char_from_spec(s: Seq<char>, c: char, i: int)
    requires
        0 <= i,
    ensures
        first_char_from(s, c, i) < 0 ==> forall|j: int| i <= j < s.len() ==> s[j] != c,
        first_char_from(s, c, i) >= 0 ==> i <= first_char_from(s, c, i) < s.len() && s[
            first_char_from(s, c, i)] == c && (forall|j: int|
            i <= j < first_char_from(s, c, i) ==> s[j] != c),
    decreases s.len() - i,
{
    if i >= s.len() {
    } else if s[i] == c {
    } else {
        lemma_first_char_from_spec(s, c, i + 1);
    }
}

/// `last_char` finds a real occurrence, and the latest one.
pub proof fn lemma_last_char_spec(s: Seq<char>, c: char)
    ensures
        last_char(s, c) < 0 ==> forall|j: int| 0 <= j < s.len() ==> s[j] != c,
        last_char(s, c) >= 0 ==> last_char(s, c) < s.len() && s[last_char(s, c)] == c && (forall|
            j: int,
        | last_char(s, c) < j < s.len() ==> s[j] != c),
{
    lemma_last_char_before_spec(s, c, s.len() as int);
}

proof fn lemma_last_char_before_spec(s: Seq<char>, c: char, i: int)
    requires
        i <= s.len(),
    ensures
        last_char_before(s, c, i) < 0 ==> forall|j: int| 0 <= j < i ==> s[j] != c,
        last_char_before(s, c, i) >= 0 ==> last_char_before(s, c, i) < i && s[last_char_before(
            s,
            c,
            i,
        )] == c && (forall|j: int| last_char_before(s, c, i) < j < i ==> s[j] != c),
    decreases i,
{
    if i <= 0 {
    } else if s[i - 1] == c {
    } else {
        lemma_last_char_before_spec(s, c, i - 1);
    }
}

/// Scan for the first `://` in `s`.
pub fn find_sep(s: &str) -> (r: Option<usize>)
    ensures
        first_sep(s@) >= 0 ==> r == Some(first_sep(s@) as usize),
        first_sep(s@) < 0 ==> r is None,
{
    let n = s.unicode_len();
    let mut i: usize = 0;
    while i < n
        invariant
            n == s@.len(),
            i <= n,
            first_sep(s@) == first_sep_from(s@, i as int),
        decreases n - i,
    {
        if n - i < 3 {
            assert(first_sep_from(s@, i as int) == -1);
            return None;
        }
        let c0 = s.get_char(i);
        let c1 = s.get_char(i + 1);
        let c2 = s.get_char(i + 2);
        if c0 == ':' && c1 == '/' && c2 == '/' {
            assert(is_sep_at(s@, i as int));
            return Some(i);
        }
        assert(!is_sep_at(s@, i as int));
        i = i + 1;
    }
    None
}

/// Scan for the first occurrence of `c` in `s`.
pub fn find_char(s: &str, c: char) -> (r: Option<usize>)
    ensures
        first_char(s@, c) >= 0 ==> r == Some(first_char(s@, c) as usize),
        first_char(s@, c) < 0 ==> r is None,
{
    let n = s.unicode_len();
    let mut i: usize = 0;
    while i < n
        invariant
            n == s@.len(),
            i <= n,
            first_char(s@, c) == first_char_from(s@, c, i as int),
        decreases n - i,
    {
        if s.get_char(i) == c {
            return Some(i);
        }
        i = i + 1;
    }
    None
}

/// Scan for the last occurrence of `c` in `s`.
pub fn rfind_char(s: &str, c: char) -> (r: Option<usize>)
    ensures
        last_char(s@, c) >= 0 ==> r == Some(last_char(s@, c) as usize),
        last_char(s@, c) < 0 ==> r is None,
{
    let n = s.unicode_len();
    let mut i: usize = n;
    while i > 0
        invariant
            n == s@.len(),
            i <= n,
            last_char(s@, c) == last_char_before(s@, c, i as int),
        decreases i,
    {
        if s.get_char(i - 1) == c {
            return Some(i - 1);
        }
        i = i - 1;
    }
    None
}

} // verus!
