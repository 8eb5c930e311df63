//! Character-level helpers shared by the match predicates and the editors.

use vstd::prelude::*;
use vstd::string::StrSliceExecFns;

verus! {

/// Length of the run of characters equal to `c` at the front of `s`.
pub open spec fn run_of(s: Seq<char>, c: char) -> nat
    decreases s.len(),
{
    if s.len() == 0 || s[0] != c {
        0
    } else {
        1 + run_of(s.skip(1), c)
    }
}

/// How many of the leading characters of `s` equal its first character;
/// zero for an empty sequence.
pub open spec fn leading_run(s: Seq<char>) -> nat {
    if s.len() == 0 {
        0
    } else {
        run_of(s, s[0])
    }
}

/// A run length is pinned down by its two boundary facts: everything before
/// `n` equals `c`, and position `n` (if any) does not.
proof fn lemma_run_of_unique(s: Seq<char>, c: char, n: nat)
    requires
        n <= s.len(),
        forall|j: int| 0 <= j < n ==> s[j] == c,
        n < s.len() ==> s[n as int] != c,
    ensures
        run_of(s, c) == n,
    decreases s.len(),
{
    if n == 0 {
    } else {
        assert(s[0] == c);
        let t = s.skip(1);
        assert forall|j: int| 0 <= j < n - 1 implies t[j] == c by {
            assert(t[j] == s[j + 1]);
        }
        if n < s.len() {
            assert(t[(n - 1) as int] == s[n as int]);
        }
        lemma_run_of_unique(t, c, (n - 1) as nat);
    }
}

/// Counts how many leading characters of `s` equal its first character.
pub fn leading_run_count(s: &str) -> (n: usize)
    ensures
        n == leading_run(s@),
{
    let len: usize = s.unicode_len();
    if len == 0 {
        return 0;
    }
    let c0: char = s.get_char(0);
    let mut i: usize = 1;
    while i < len
        invariant
            1 <= i <= len,
            len == s@.len(),
            s@.len() > 0,
            c0 == s@[0],
            forall|j: int| 0 <= j < i ==> s@[j] == c0,
        decreases len - i,
    {
        if s.get_char(i) != c0 {
            proof {
                lemma_run_of_unique(s@, c0, i as nat);
            }
            return i;
        }
        i = i + 1;
    }
    proof {
        lemma_run_of_unique(s@, c0, i as nat);
    }
    i
}

/// True iff `p` is a prefix of `s`, character for character.
pub fn starts_with_chars(s: &str, p: &str) -> (r: bool)
    ensures
        r == p@.is_prefix_of(s@),
{
    let slen: usize = s.unicode_len();
    let plen: usize = p.unicode_len();
    if plen > slen {
        return false;
    }
    let mut i: usize = 0;
    while i < plen
        invariant
            0 <= i <= plen,
            plen == p@.len(),
            slen == s@.len(),
            plen <= slen,
            forall|j: int| 0 <= j < i ==> p@[j] == s@[j],
        decreases plen - i,
    {
        if s.get_char(i) != p.get_char(i) {
            assert(!p@.is_prefix_of(s@)) by {
                assert(p@.len() <= s@.len());
                assert(s@.subrange(0, p@.len() as int)[i as int] == s@[i as int]);
            }
            return false;
        }
        i = i + 1;
    }
    assert(p@.is_prefix_of(s@)) by {
        assert(p@ =~= s@.subrange(0, p@.len() as int));
    }
    true
}

/// True iff `p` is a suffix of `s`, character for character.
pub fn ends_with_chars(s: &str, p: &str) -> (r: bool)
    ensures
        r == p@.is_suffix_of(s@),
{
    let slen: usize = s.unicode_len();
    let plen: usize = p.unicode_len();
    if plen > slen {
        return false;
    }
    let off: usize = slen - plen;
    let mut i: usize = 0;
    while i < plen
        invariant
            0 <= i <= plen,
            plen == p@.len(),
            slen == s@.len(),
            plen <= slen,
            off == slen - plen,
            forall|j: int| 0 <= j < i ==> p@[j] == s@[off + j],
        decreases plen - i,
    {
        if s.get_char(off + i) != p.get_char(i) {
            assert(!p@.is_suffix_of(s@)) by {
                assert(s@.subrange(off as int, s@.len() as int)[i as int] == s@[off + i]);
            }
            return false;
        }
        i = i + 1;
    }
    assert(p@.is_suffix_of(s@)) by {
        assert(p@ =~= s@.subrange(off as int, s@.len() as int));
    }
    true
}

} // verus!
