//! Character-level helpers on string slices, specified over `Seq<char>`.

use vstd::prelude::*;
use vstd::std_specs::iter::IteratorSpec;
use vstd::string::StrSliceExecFns;
use vstd::string::StringSliceAdditionalSpecFns;

verus! {

/// Index of the last occurrence of `c` in `s`, or `-1` where `c` does not occur.
pub open spec fn last_index_of(s: Seq<char>, c: char) -> int
    decreases s.len(),
{
    if s.len() == 0 {
        -1
    } else if s.last() == c {
        s.len() - 1
    } else {
        last_index_of(s.drop_last(), c)
    }
}

/// Whether `s` is not empty and its last character is `c`.
pub open spec fn ends_with(s: Seq<char>, c: char) -> bool {
    s.len() > 0 && s.last() == c
}

/// Whether `s` is not empty and its first character is `c`.
pub open spec fn starts_with(s: Seq<char>, c: char) -> bool {
    s.len() > 0 && s.first() == c
}

/// What `last_index_of` finds is an occurrence of `c` with none after it, and
/// it finds one exactly when `c` occurs.
pub proof fn lemma_last_index_of(s: Seq<char>, c: char)
    ensures
        -1 <= last_index_of(s, c) < s.len(),
        last_index_of(s, c) >= 0 <==> s.contains(c),
        last_index_of(s, c) >= 0 ==> s[last_index_of(s, c)] == c,
        forall|j: int| last_index_of(s, c) < j < s.len() ==> s[j] != c,
    decreases s.len(),
{
    if s.len() == 0 {
    } else if s.last() == c {
    } else {
        let t = s.drop_last();
        lemma_last_index_of(t, c);
        if s.contains(c) {
            let i = choose|i: int| 0 <= i < s.len() && s[i] == c;
            assert(t[i] == c);
        }
        if t.contains(c) {
            let i = choose|i: int| 0 <= i < t.len() && t[i] == c;
            assert(s[i] == c);
        }
        assert forall|j: int| last_index_of(s, c) < j < s.len() implies s[j] != c by {
            if j < t.len() {
                assert(t[j] != c);
            }
        }
    }
}

proof fn lemma_same_bytes_same_chars(a: Seq<char>, b: Seq<char>)
    requires
        vstd::utf8::encode_utf8(a) == vstd::utf8::encode_utf8(b),
    ensures
        a == b,
{
    vstd::utf8::encode_utf8_decode_utf8(a);
    vstd::utf8::encode_utf8_decode_utf8(b);
}

/// Whether `a` and `b` hold the same characters.
pub fn str_eq(a: &str, b: &str) -> (same: bool)
    ensures
        same == (a@ == b@),
{
    let x = a.as_bytes();
    let y = b.as_bytes();
    if x.len() != y.len() {
        return false;
    }
    let mut i: usize = 0;
    while i < x.len()
        invariant
            i <= x.len(),
            x.len() == y.len(),
            x@ == a.spec_bytes(),
            y@ == b.spec_bytes(),
            forall|j: int| 0 <= j < i ==> x@[j] == y@[j],
        decreases x.len() - i,
    {
        if x[i] != y[i] {
            return false;
        }
        i += 1;
    }
    proof {
        assert(x@ =~= y@);
        lemma_same_bytes_same_chars(a@, b@);
    }
    true
}

/// Where `c` occurs last in `s`, counted in characters.
pub fn find_last(s: &str, c: char) -> (found: Option<usize>)
    ensures
        match found {
            Some(i) => i == last_index_of(s@, c),
            None => last_index_of(s@, c) == -1,
        },
{
    broadcast use vstd::string::group_string_axioms;

    let n = s.unicode_len();
    let mut rest = s.chars();
    let mut found: Option<usize> = None;
    let mut i: usize = 0;
    while i < n
        invariant
            i <= n,
            n == s@.len(),
            rest.remaining() == s@.subrange(i as int, n as int),
            match found {
                Some(k) => k == last_index_of(s@.take(i as int), c),
                None => last_index_of(s@.take(i as int), c) == -1,
            },
        decreases n - i,
    {
        let next = rest.next();
        proof {
            assert(s@.take(i + 1).drop_last() =~= s@.take(i as int));
            assert(s@.subrange(i as int, n as int).drop_first() =~= s@.subrange(i + 1, n as int));
        }
        if next == Some(c) {
            found = Some(i);
        }
        i += 1;
    }
    proof {
        assert(s@.take(n as int) =~= s@);
    }
    found
}

/// Whether `c` occurs in `s`.
pub fn contains_char(s: &str, c: char) -> (found: bool)
    ensures
        found == s@.contains(c),
{
    proof {
        lemma_last_index_of(s@, c);
    }
    find_last(s, c).is_some()
}

/// Whether `s` ends with the character `c`.
pub fn ends_with_char(s: &str, c: char) -> (ends: bool)
    ensures
        ends == ends_with(s@, c),
{
    proof {
        lemma_last_index_of(s@, c);
    }
    let n = s.unicode_len();
    match find_last(s, c) {
        Some(i) => i + 1 == n,
        None => false,
    }
}

/// `s` without its first character where that character is `c`; `s` itself otherwise.
pub fn strip_leading<'a>(s: &'a str, c: char) -> (rest: &'a str)
    ensures
        rest@ == (if starts_with(s@, c) {
            s@.drop_first()
        } else {
            s@
        }),
{
    broadcast use vstd::string::group_string_axioms;

    let mut chars = s.chars();
    if chars.next() == Some(c) {
        let n = s.unicode_len();
        s.substring_char(1, n)
    } else {
        s
    }
}

/// What follows the last `c` in `s`, or `None` where `c` does not occur.
pub fn after_last<'a>(s: &'a str, c: char) -> (tail: Option<&'a str>)
    ensures
        match tail {
            Some(t) => last_index_of(s@, c) >= 0 && t@ == s@.subrange(
                last_index_of(s@, c) + 1,
                s@.len() as int,
            ),
            None => last_index_of(s@, c) == -1,
        },
{
    proof {
        lemma_last_index_of(s@, c);
    }
    let n = s.unicode_len();
    match find_last(s, c) {
        Some(i) => Some(s.substring_char(i + 1, n)),
        None => None,
    }
}

} // verus!
