//! Character-level helpers on strings, with their specifications.

use vstd::prelude::*;
use vstd::string::*;

verus! {

/// `i` is the position of the first occurrence of `c` in `s`.
pub open spec fn is_first_index(s: Seq<char>, c: char, i: int) -> bool {
    &&& 0 <= i < s.len()
    &&& s[i] == c
    &&& forall|j: int| 0 <= j < i ==> s[j] != c
}

/// Position of the first occurrence of `c` in `s`, or -1 when there is none.
pub open spec fn first_index(s: Seq<char>, c: char) -> int {
    if s.contains(c) {
        choose|i: int| is_first_index(s, c, i)
    } else {
        -1
    }
}

/// The first occurrence of a character is unique, and `first_index` finds it.
pub proof fn lemma_first_index(s: Seq<char>, c: char)
    ensures
        s.contains(c) <==> first_index(s, c) >= 0,
        s.contains(c) ==> is_first_index(s, c, first_index(s, c)),
        forall|i: int| #[trigger] is_first_index(s, c, i) ==> i == first_index(s, c),
{
    if s.contains(c) {
        let k = choose|k: int| 0 <= k < s.len() && s[k] == c;
        lemma_some_first_index(s, c, k);
        let i = first_index(s, c);
        assert(is_first_index(s, c, i));
        assert forall|j: int| #[trigger] is_first_index(s, c, j) implies j == i by {
            if j < i {
                assert(s[j] == c);
            } else if i < j {
                assert(s[i] == c);
            }
        }
    }
}

proof fn lemma_some_first_index(s: Seq<char>, c: char, k: int)
    requires
        0 <= k < s.len(),
        s[k] == c,
    ensures
        exists|i: int| is_first_index(s, c, i),
    decreases k,
{
    if exists|j: int| 0 <= j < k && s[j] == c {
        let j = choose|j: int| 0 <= j < k && s[j] == c;
        lemma_some_first_index(s, c, j);
    } else {
        assert(is_first_index(s, c, k));
    }
}

/// Finds the first occurrence of `c` in `s`, counted in characters.
pub fn find_char(s: &str, c: char) -> (r: Option<usize>)
    ensures
        match r {
            Some(i) => is_first_index(s@, c, i as int),
            None => !s@.contains(c),
        },
{
    let n = s.unicode_len();
    let mut i: usize = 0;
    while i < n
        invariant
            n == s@.len(),
            i <= n,
            forall|j: int| 0 <= j < i ==> s@[j] != c,
        decreases n - i,
    {
        if s.get_char(i) == c {
            return Some(i);
        }
        i = i + 1;
    }
    None
}

/// Whether `c` occurs in `s`.
pub fn contains_char(s: &str, c: char) -> (r: bool)
    ensures
        r == s@.contains(c),
{
    match find_char(s, c) {
        Some(i) => {
            assert(s@[i as int] == c);
            true
        },
        None => false,
    }
}

/// Character-wise equality of two strings.
pub fn str_eq(a: &str, b: &str) -> (r: bool)
    ensures
        r == (a@ == b@),
{
    let n = a.unicode_len();
    let m = b.unicode_len();
    if n != m {
        return false;
    }
    let mut i: usize = 0;
    while i < n
        invariant
            n == a@.len(),
            m == b@.len(),
            n == m,
            i <= n,
            forall|j: int| 0 <= j < i ==> a@[j] == b@[j],
        decreases n - i,
    {
        if a.get_char(i) != b.get_char(i) {
            return false;
        }
        i = i + 1;
    }
    assert(a@ =~= b@);
    true
}

/// A new string holding the characters of `a` followed by those of `b`.
pub fn concat2(a: &str, b: &str) -> (r: String)
    ensures
        r@ == a@ + b@,
{
    let mut s = String::from_str(a);
    s.append(b);
    s
}

/// A new string holding the characters of `a`, `b` and `c` in order.
pub fn concat3(a: &str, b: &str, c: &str) -> (r: String)
    ensures
        r@ == a@ + b@ + c@,
{
    let mut s = String::from_str(a);
    s.append(b);
    s.append(c);
    s
}

} // verus!

verus! {

/// `i` is the position of the last occurrence of `c` in `s`.
pub open spec fn is_last_index(s: Seq<char>, c: char, i: int) -> bool {
    &&& 0 <= i < s.len()
    &&& s[i] == c
    &&& forall|j: int| i < j < s.len() ==> s[j] != c
}

/// What follows the last occurrence of `c` in `s`; all of `s` when `c` does
/// not occur in it.
pub open spec fn spec_after_last(s: Seq<char>, c: char) -> Seq<char> {
    if s.contains(c) {
        s.skip((choose|i: int| is_last_index(s, c, i)) + 1)
    } else {
        s
    }
}

/// The last occurrence of a character is unique.
pub proof fn lemma_last_index_unique(s: Seq<char>, c: char, i: int, k: int)
    requires
        is_last_index(s, c, i),
        is_last_index(s, c, k),
    ensures
        i == k,
{
    if i < k {
        assert(s[k] == c);
    } else if k < i {
        assert(s[i] == c);
    }
}

/// The last segment of `s` when it is split at every `c` (the whole of `s`
/// when `c` does not occur).
pub fn after_last(s: &str, c: char) -> (r: &str)
    ensures
        r@ == spec_after_last(s@, c),
{
    let n = s.unicode_len();
    let mut i: usize = n;
    while i > 0
        invariant
            n == s@.len(),
            i <= n,
            forall|j: int| i <= j < n ==> s@[j] != c,
        decreases i,
    {
        if s.get_char(i - 1) == c {
            proof {
                let k = choose|k: int| is_last_index(s@, c, k);
                assert(is_last_index(s@, c, i - 1));
                lemma_last_index_unique(s@, c, i - 1, k);
            }
            return s.substring_char(i, n);
        }
        i = i - 1;
    }
    assert(!s@.contains(c));
    s
}

} // verus!
