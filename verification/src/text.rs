//! Small verified helpers over strings and character sequences that the
//! rest of the library builds on: counting and locating characters, string
//! equality, and concatenation.

use vstd::prelude::*;
use vstd::string::StrSliceExecFns;
use vstd::string::StringExecFns;

verus! {

/// How many times `c` occurs in `s`.
pub open spec fn count_char(s: Seq<char>, c: char) -> nat
    decreases s.len(),
{
    if s.len() == 0 {
        0
    } else {
        count_char(s.drop_last(), c) + (if s.last() == c {
            1nat
        } else {
            0nat
        })
    }
}

/// The index of the first occurrence of `c` in `s`; `s.len()` if absent.
pub open spec fn first_idx(s: Seq<char>, c: char) -> int
    decreases s.len(),
{
    if s.len() == 0 {
        0
    } else if s[0] == c {
        0
    } else {
        1 + first_idx(s.drop_first(), c)
    }
}

pub proof fn lemma_count_push(s: Seq<char>, x: char, c: char)
    ensures
        count_char(s.push(x), c) == count_char(s, c) + (if x == c {
            1nat
        } else {
            0nat
        }),
{
    assert(s.push(x).drop_last() =~= s);
}

pub proof fn lemma_count_concat(a: Seq<char>, b: Seq<char>, c: char)
    ensures
        count_char(a + b, c) == count_char(a, c) + count_char(b, c),
    decreases b.len(),
{
    if b.len() == 0 {
        assert(a + b =~= a);
    } else {
        lemma_count_concat(a, b.drop_last(), c);
        assert((a + b).drop_last() =~= a + b.drop_last());
        assert((a + b).last() == b.last());
    }
}

/// `c` is absent from `s` exactly when its count is zero.
pub proof fn lemma_count_zero(s: Seq<char>, c: char)
    ensures
        (count_char(s, c) == 0) <==> (forall|j: int| 0 <= j < s.len() ==> s[j] != c),
    decreases s.len(),
{
    if s.len() > 0 {
        lemma_count_zero(s.drop_last(), c);
        assert(forall|j: int| 0 <= j < s.len() - 1 ==> s[j] == s.drop_last()[j]);
        if count_char(s, c) == 0 {
            assert forall|j: int| 0 <= j < s.len() implies s[j] != c by {
                if j < s.len() - 1 {
                    assert(s.drop_last()[j] != c);
                }
            }
        }
    }
}

/// Where `c` occurs at all, `first_idx` points at its first occurrence.
pub proof fn lemma_first_idx(s: Seq<char>, c: char)
    requires
        count_char(s, c) > 0,
    ensures
        0 <= first_idx(s, c) < s.len(),
        s[first_idx(s, c)] == c,
        forall|j: int| 0 <= j < first_idx(s, c) ==> s[j] != c,
    decreases s.len(),
{
    lemma_count_zero(s, c);
    let i = choose|i: int| 0 <= i < s.len() && s[i] == c;
    if s.len() == 0 || s[0] == c {
    } else {
        let t = s.drop_first();
        assert(0 <= i - 1 < t.len() && t[i - 1] == c);
        lemma_count_zero(t, c);
        lemma_first_idx(t, c);
        let fi = first_idx(t, c);
        assert(s[1 + fi] == t[fi]);
        assert forall|j: int| 0 <= j < first_idx(s, c) implies s[j] != c by {
            if j >= 1 {
                assert(s[j] == t[j - 1]);
            }
        }
    }
}

/// `first_idx` is the unique position with nothing matching before it.
pub proof fn lemma_first_idx_unique(s: Seq<char>, c: char, i: int)
    requires
        0 <= i < s.len(),
        s[i] == c,
        forall|j: int| 0 <= j < i ==> s[j] != c,
    ensures
        first_idx(s, c) == i,
    decreases s.len(),
{
    if s[0] == c {
    } else {
        let t = s.drop_first();
        assert(t[i - 1] == c);
        assert forall|j: int| 0 <= j < i - 1 implies t[j] != c by {
            assert(s[j + 1] == t[j]);
        }
        lemma_first_idx_unique(t, c, i - 1);
    }
}

/// Counts the occurrences of `c` in `s`.
pub fn count_char_exec(s: &str, c: char) -> (n: usize)
    ensures
        n == count_char(s@, c),
{
    let len = s.unicode_len();
    let mut n: usize = 0;
    let mut i: usize = 0;
    while i < len
        invariant
            i <= len,
            n <= i,
            len == s@.len(),
            n == count_char(s@.subrange(0, i as int), c),
        decreases len - i,
    {
        let ch = s.get_char(i);
        proof {
            lemma_count_push(s@.subrange(0, i as int), s@[i as int], c);
            assert(s@.subrange(0, i as int).push(s@[i as int]) =~= s@.subrange(0, i as int + 1));
        }
        if ch == c {
            n = n + 1;
        }
        i = i + 1;
    }
    proof {
        assert(s@.subrange(0, len as int) =~= s@);
    }
    n
}

/// The index of the first occurrence of `c`, which must be present.
pub fn find_char(s: &str, c: char) -> (idx: usize)
    requires
        count_char(s@, c) > 0,
    ensures
        idx as int == first_idx(s@, c),
        idx < s@.len(),
        s@[idx as int] == c,
{
    proof {
        lemma_first_idx(s@, c);
    }
    let len = s.unicode_len();
    let mut i: usize = 0;
    while i < len
        invariant
            i <= len,
            len == s@.len(),
            forall|j: int| 0 <= j < i ==> s@[j] != c,
            count_char(s@, c) > 0,
        decreases len - i,
    {
        if s.get_char(i) == c {
            proof {
                lemma_first_idx_unique(s@, c, i as int);
            }
            return i;
        }
        i = i + 1;
    }
    proof {
        lemma_first_idx(s@, c);
        assert(false);
    }
    0
}

/// Character-for-character string equality.
pub fn str_eq(a: &str, b: &str) -> (r: bool)
    ensures
        r == (a@ == b@),
{
    let alen = a.unicode_len();
    let blen = b.unicode_len();
    if alen != blen {
        return false;
    }
    let mut i: usize = 0;
    while i < alen
        invariant
            i <= alen,
            alen == a@.len(),
            alen == b@.len(),
            forall|j: int| 0 <= j < i ==> a@[j] == b@[j],
        decreases alen - i,
    {
        if a.get_char(i) != b.get_char(i) {
            return false;
        }
        i = i + 1;
    }
    proof {
        assert(a@ =~= b@);
    }
    true
}

/// The concatenation of three strings.
pub fn concat3(a: &str, b: &str, c: &str) -> (r: String)
    ensures
        r@ == a@ + b@ + c@,
{
    let mut r = String::new();
    r.append(a);
    r.append(b);
    r.append(c);
    r
}

} // verus!
