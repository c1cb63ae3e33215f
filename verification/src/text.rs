//! Character-level string surgery used for diacritic handling and the
//! inventory grid: replacing a span by repeated copies of a symbol, testing
//! for a substring, and deleting every occurrence of one.

use vstd::prelude::*;
use vstd::string::{StrSliceExecFns, StringExecFns};

verus! {

/// `n` copies of `p`, concatenated.
pub open spec fn repeat_seq(p: Seq<char>, n: nat) -> Seq<char>
    decreases n,
{
    if n == 0 {
        Seq::empty()
    } else {
        repeat_seq(p, (n - 1) as nat) + p
    }
}

/// Replaces the characters of `symbols` between the character positions
/// `start` and `end` by `end - start` copies of `phoneme`.
pub fn repeating_replace(symbols: &str, phoneme: &str, start: usize, end: usize) -> (r: String)
    requires
        start <= end <= symbols@.len(),
    ensures
        r@ == symbols@.subrange(0, start as int) + repeat_seq(phoneme@, (end - start) as nat)
            + symbols@.subrange(end as int, symbols@.len() as int),
{
    let len = symbols.unicode_len();
    let mut r = String::new();
    r.append(symbols.substring_char(0, start));
    let mut n: usize = 0;
    while n < end - start
        invariant
            start <= end <= symbols@.len(),
            n <= end - start,
            r@ == symbols@.subrange(0, start as int) + repeat_seq(phoneme@, n as nat),
        decreases end - start - n,
    {
        r.append(phoneme);
        n += 1;
    }
    r.append(symbols.substring_char(end, len));
    r
}

/// Replaces the span in place.
pub fn repeating_replace_in_place(symbols: &mut String, phoneme: &str, start: usize, end: usize)
    requires
        start <= end <= old(symbols)@.len(),
    ensures
        final(symbols)@ == old(symbols)@.subrange(0, start as int) + repeat_seq(
            phoneme@,
            (end - start) as nat,
        ) + old(symbols)@.subrange(end as int, old(symbols)@.len() as int),
{
    let replaced = repeating_replace(symbols.as_str(), phoneme, start, end);
    *symbols = replaced;
}

/// `pattern` occurs in `s` as a contiguous run of characters.
pub open spec fn contains_seq(s: Seq<char>, pattern: Seq<char>) -> bool {
    exists|i: int|
        0 <= i <= s.len() - pattern.len() && (#[trigger] s.subrange(i, i + pattern.len() as int))
            == pattern
}

/// Whether `pattern` occurs in `s` as a contiguous run of characters.
pub fn contains_substring(s: &str, pattern: &str) -> (r: bool)
    ensures
        r == contains_seq(s@, pattern@),
{
    let n = s.unicode_len();
    let m = pattern.unicode_len();
    if m > n {
        return false;
    }
    if m == 0 {
        proof {
            assert(s@.subrange(0, 0 + pattern@.len() as int) =~= pattern@);
            assert(contains_seq(s@, pattern@));
        }
        return true;
    }
    let mut i: usize = 0;
    while i <= n - m
        invariant
            1 <= m <= n,
            n == s@.len(),
            m == pattern@.len(),
            i <= n - m + 1,
            forall|x: int|
                0 <= x < i ==> (#[trigger] s@.subrange(x, x + pattern@.len() as int)) != pattern@,
        decreases n - m + 1 - i,
    {
        if match_at(s, pattern, i) {
            return true;
        }
        i += 1;
    }
    false
}

/// Whether `pattern` occurs in `s` starting at character position `i`.
fn match_at(s: &str, pattern: &str, i: usize) -> (r: bool)
    requires
        i + pattern@.len() <= s@.len(),
    ensures
        r == (s@.subrange(i as int, i + pattern@.len() as int) == pattern@),
{
    let n = s.unicode_len();
    let m = pattern.unicode_len();
    let mut j: usize = 0;
    while j < m
        invariant
            i + pattern@.len() <= s@.len(),
            n == s@.len(),
            m == pattern@.len(),
            j <= m,
            forall|x: int| 0 <= x < j ==> s@[i + x] == pattern@[x],
        decreases m - j,
    {
        if s.get_char(i + j) != pattern.get_char(j) {
            proof {
                assert(s@.subrange(i as int, i + pattern@.len() as int)[j as int] != pattern@[
                j as int]);
            }
            return false;
        }
        j += 1;
    }
    proof {
        assert(s@.subrange(i as int, i + pattern@.len() as int) =~= pattern@);
    }
    true
}

/// `s` with every occurrence of `pattern` deleted, scanning left to right
/// and never re-examining replaced text. An empty pattern deletes nothing.
pub open spec fn remove_all_seq(s: Seq<char>, pattern: Seq<char>) -> Seq<char>
    decreases s.len(),
{
    if pattern.len() == 0 || s.len() < pattern.len() {
        s
    } else if s.subrange(0, pattern.len() as int) == pattern {
        remove_all_seq(s.skip(pattern.len() as int), pattern)
    } else {
        seq![s[0]] + remove_all_seq(s.skip(1), pattern)
    }
}

/// Deletes every occurrence of `pattern` from `s`, scanning left to right.
pub fn remove_matches_str(s: &str, pattern: &str) -> (r: String)
    ensures
        r@ == remove_all_seq(s@, pattern@),
{
    let n = s.unicode_len();
    let m = pattern.unicode_len();
    if m == 0 {
        return s.to_owned();
    }
    let mut r = String::new();
    let mut seg_start: usize = 0;
    let mut i: usize = 0;
    proof {
        assert(s@.skip(0) =~= s@);
        assert(r@ + s@.subrange(0, 0) + remove_all_seq(s@, pattern@) =~= remove_all_seq(
            s@,
            pattern@,
        ));
    }
    while i < n
        invariant
            m == pattern@.len(),
            m > 0,
            n == s@.len(),
            seg_start <= i <= n,
            r@ + s@.subrange(seg_start as int, i as int) + remove_all_seq(
                s@.skip(i as int),
                pattern@,
            ) == remove_all_seq(s@, pattern@),
        decreases n - i,
    {
        if m <= n - i && match_at(s, pattern, i) {
            proof {
                let tail = s@.skip(i as int);
                assert(tail.subrange(0, pattern@.len() as int) =~= s@.subrange(
                    i as int,
                    i + pattern@.len() as int,
                ));
                assert(tail.skip(pattern@.len() as int) =~= s@.skip(i + pattern@.len() as int));
                assert(remove_all_seq(tail, pattern@) == remove_all_seq(
                    s@.skip(i + pattern@.len() as int),
                    pattern@,
                ));
            }
            r.append(s.substring_char(seg_start, i));
            i += m;
            seg_start = i;
            proof {
                assert(r@ + s@.subrange(seg_start as int, i as int) =~= r@);
            }
        } else {
            proof {
                let tail = s@.skip(i as int);
                if m <= n - i {
                    assert(tail.subrange(0, pattern@.len() as int) =~= s@.subrange(
                        i as int,
                        i + pattern@.len() as int,
                    ));
                } else {
                    assert(tail.len() < pattern@.len());
                }
                if tail.len() >= pattern@.len() {
                    assert(tail.skip(1) =~= s@.skip(i + 1));
                    assert(tail[0] == s@[i as int]);
                    assert(remove_all_seq(tail, pattern@) == seq![s@[i as int]] + remove_all_seq(
                        s@.skip(i + 1),
                        pattern@,
                    ));
                } else {
                    assert(tail.skip(1) =~= s@.skip(i + 1));
                    assert(s@.skip(i + 1).len() < pattern@.len());
                    assert(remove_all_seq(tail, pattern@) == tail);
                    assert(tail =~= seq![s@[i as int]] + s@.skip(i + 1));
                }
                assert(s@.subrange(seg_start as int, i as int).push(s@[i as int]) =~= s@.subrange(
                    seg_start as int,
                    i + 1,
                ));
            }
            i += 1;
        }
    }
    proof {
        assert(s@.skip(n as int) =~= Seq::<char>::empty());
        assert(remove_all_seq(s@.skip(n as int), pattern@) =~= Seq::<char>::empty());
    }
    r.append(s.substring_char(seg_start, n));
    r
}

} // verus!
