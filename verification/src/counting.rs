//! Counting occurrences of a marker in a row of cells, with the lemmas the
//! board's placement and movement proofs need.

use vstd::prelude::*;

verus! {

/// How many entries of `s` equal `ch`.
pub open spec fn count_ch(s: Seq<char>, ch: char) -> int
    decreases s.len(),
{
    if s.len() == 0 {
        0
    } else {
        count_ch(s.drop_last(), ch) + if s.last() == ch {
            1int
        } else {
            0int
        }
    }
}

/// Appending one entry raises the count of its marker by one and leaves
/// every other count unchanged.
pub proof fn lemma_count_push(s: Seq<char>, ch: char, x: char)
    ensures
        count_ch(s.push(x), ch) == count_ch(s, ch) + if x == ch {
            1int
        } else {
            0int
        },
{
    assert(s.push(x).drop_last() =~= s);
    assert(s.push(x).last() == x);
}

/// Overwriting one entry moves the counts by the entry that leaves and the
/// entry that arrives.
pub proof fn lemma_count_update(s: Seq<char>, ch: char, j: int, x: char)
    requires
        0 <= j < s.len(),
    ensures
        count_ch(s.update(j, x), ch) == count_ch(s, ch) - (if s[j] == ch {
            1int
        } else {
            0int
        }) + (if x == ch {
            1int
        } else {
            0int
        }),
    decreases s.len(),
{
    let u = s.update(j, x);
    if j == s.len() - 1 {
        assert(u.drop_last() =~= s.drop_last());
        assert(u.last() == x);
    } else {
        assert(u.drop_last() =~= s.drop_last().update(j, x));
        assert(u.last() == s.last());
        lemma_count_update(s.drop_last(), ch, j, x);
    }
}

/// Removing the entry at `k` by swapping in the last entry, as
/// `Vec::swap_remove` does, keeps the entries pairwise distinct, keeps every
/// surviving entry an entry of the old sequence, and drops the removed entry
/// entirely.
pub proof fn lemma_swap_remove_distinct(s: Seq<usize>, k: int)
    requires
        0 <= k < s.len(),
        s.no_duplicates(),
    ensures
        s.update(k, s.last()).drop_last().no_duplicates(),
        forall|m: int|
            0 <= m < s.len() - 1 ==> s.contains(#[trigger] s.update(k, s.last()).drop_last()[m])
                && s.update(k, s.last()).drop_last()[m] != s[k],
{
    let t = s.update(k, s.last()).drop_last();
    assert forall|m: int| 0 <= m < s.len() - 1 implies s.contains(#[trigger] t[m]) && t[m] != s[k]
        by {
        if m == k {
            assert(t[m] == s[s.len() - 1]);
        } else {
            assert(t[m] == s[m]);
        }
    }
    assert forall|m1: int, m2: int|
        0 <= m1 < t.len() && 0 <= m2 < t.len() && m1 != m2 implies t[m1] != t[m2] by {
        let i1 = if m1 == k {
            s.len() - 1
        } else {
            m1
        };
        let i2 = if m2 == k {
            s.len() - 1
        } else {
            m2
        };
        assert(t[m1] == s[i1]);
        assert(t[m2] == s[i2]);
    }
}

} // verus!
