//! Small verified helpers for moving between strings and character vectors.
//! All of the library's text manipulation happens on `Vec<char>`, whose view
//! is the same `Seq<char>` that string views use.

use vstd::prelude::*;

verus! {

/// Builds a `String` from a vector of characters.
///
/// Relies on `String: FromIterator<char>`: collecting characters yields the
/// string made of exactly those characters, in order.
#[verifier::external_body]
pub fn chars_to_string(v: &Vec<char>) -> (r: String)
    ensures
        r@ == v@,
{
    v.iter().collect()
}

/// Collects the characters of a string slice into a vector.
pub fn str_chars(s: &str) -> (r: Vec<char>)
    ensures
        r@ == s@,
{
    let n = s.unicode_len();
    let mut r: Vec<char> = Vec::new();
    let mut i: usize = 0;
    while i < n
        invariant
            n == s@.len(),
            i <= n,
            r@ == s@.take(i as int),
        decreases n - i,
    {
        let c = s.get_char(i);
        r.push(c);
        i = i + 1;
        proof {
            assert(r@ =~= s@.take(i as int));
        }
    }
    proof {
        assert(r@ =~= s@);
    }
    r
}

/// Copies the characters `v[from..to]` into a fresh vector.
pub fn char_range(v: &Vec<char>, from: usize, to: usize) -> (r: Vec<char>)
    requires
        from <= to <= v@.len(),
    ensures
        r@ == v@.subrange(from as int, to as int),
{
    let mut r: Vec<char> = Vec::new();
    let mut i: usize = from;
    while i < to
        invariant
            from <= i <= to <= v@.len(),
            r@ == v@.subrange(from as int, i as int),
        decreases to - i,
    {
        r.push(v[i]);
        i = i + 1;
        proof {
            assert(r@ =~= v@.subrange(from as int, i as int));
        }
    }
    r
}

/// Appends every character of `src` to `dst`.
pub fn push_chars(dst: &mut Vec<char>, src: &Vec<char>)
    ensures
        final(dst)@ == old(dst)@ + src@,
{
    let n = src.len();
    let mut i: usize = 0;
    while i < n
        invariant
            n == src@.len(),
            i <= n,
            dst@ == old(dst)@ + src@.take(i as int),
        decreases n - i,
    {
        dst.push(src[i]);
        i = i + 1;
        proof {
            assert(old(dst)@ + src@.take(i as int) =~= dst@);
        }
    }
    proof {
        assert(old(dst)@ + src@ =~= dst@);
    }
}

/// Whether two character vectors hold the same text.
pub fn chars_eq(a: &Vec<char>, b: &Vec<char>) -> (r: bool)
    ensures
        r == (a@ == b@),
{
    if a.len() != b.len() {
        return false;
    }
    let mut i: usize = 0;
    while i < a.len()
        invariant
            a@.len() == b@.len(),
            i <= a@.len(),
            forall|j: int| 0 <= j < i ==> a@[j] == b@[j],
        decreases a@.len() - i,
    {
        if a[i] != b[i] {
            return false;
        }
        i = i + 1;
    }
    proof {
        assert(a@ =~= b@);
    }
    true
}

/// Index of the first occurrence of `c` in `s`, or `s.len()` when there is
/// none.
pub open spec fn index_of_char(s: Seq<char>, c: char) -> int
    decreases s.len(),
{
    if s.len() == 0 {
        0
    } else if s[0] == c {
        0
    } else {
        1 + index_of_char(s.subrange(1, s.len() as int), c)
    }
}

pub proof fn lemma_index_of_char(s: Seq<char>, c: char)
    ensures
        0 <= index_of_char(s, c) <= s.len(),
        index_of_char(s, c) < s.len() ==> s[index_of_char(s, c)] == c,
        forall|j: int| 0 <= j < index_of_char(s, c) ==> s[j] != c,
    decreases s.len(),
{
    if s.len() > 0 && s[0] != c {
        let sub = s.subrange(1, s.len() as int);
        lemma_index_of_char(sub, c);
        assert forall|j: int| 0 <= j < index_of_char(s, c) implies s[j] != c by {
            if j > 0 {
                assert(sub[j - 1] != c);
            }
        }
    }
}

/// Finds the first occurrence of `c` in `v`.
pub fn find_char(v: &Vec<char>, c: char) -> (r: usize)
    ensures
        r == index_of_char(v@, c),
        r <= v@.len(),
{
    proof {
        lemma_index_of_char(v@, c);
    }
    let mut i: usize = 0;
    while i < v.len()
        invariant
            i <= v@.len(),
            forall|j: int| 0 <= j < i ==> v@[j] != c,
            0 <= index_of_char(v@, c) <= v@.len(),
            index_of_char(v@, c) < v@.len() ==> v@[index_of_char(v@, c)] == c,
            forall|j: int| 0 <= j < index_of_char(v@, c) ==> v@[j] != c,
        decreases v@.len() - i,
    {
        if v[i] == c {
            return i;
        }
        i = i + 1;
    }
    i
}

/// Appends a copy of every string of `src` to `dst`.
pub fn push_strings(dst: &mut Vec<String>, src: &Vec<String>)
    ensures
        final(dst)@ == old(dst)@ + src@,
{
    let n = src.len();
    let mut i: usize = 0;
    while i < n
        invariant
            n == src@.len(),
            i <= n,
            dst@ == old(dst)@ + src@.take(i as int),
        decreases n - i,
    {
        let s = src[i].clone();
        dst.push(s);
        i = i + 1;
        proof {
            assert(old(dst)@ + src@.take(i as int) =~= dst@);
        }
    }
    proof {
        assert(old(dst)@ + src@ =~= dst@);
    }
}

} // verus!
