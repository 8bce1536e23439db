//! Finding a key in a sequence: the first and the last position that holds it.
//! Characters in a text, ids in a log and names in a list are all found this
//! way.

use vstd::prelude::*;

verus! {

/// Position of the last occurrence of `k` in `s`, or -1 where there is none.
pub open spec fn last_index_of<K>(s: Seq<K>, k: K) -> int
    decreases s.len(),
{
    if s.len() == 0 {
        -1
    } else if s.last() == k {
        s.len() - 1
    } else {
        last_index_of(s.drop_last(), k)
    }
}

/// Position of the first occurrence of `k` in `s`, or -1 where there is none.
pub open spec fn first_index_of<K>(s: Seq<K>, k: K) -> int
    decreases s.len(),
{
    if s.len() == 0 {
        -1
    } else if first_index_of(s.drop_last(), k) >= 0 {
        first_index_of(s.drop_last(), k)
    } else if s.last() == k {
        s.len() - 1
    } else {
        -1
    }
}

/// `last_index_of` is the greatest position that holds `k`.
pub proof fn lemma_last_index_of<K>(s: Seq<K>, k: K)
    ensures
        -1 <= last_index_of(s, k) < s.len(),
        last_index_of(s, k) >= 0 ==> s[last_index_of(s, k)] == k,
        forall|j: int| last_index_of(s, k) < j < s.len() ==> s[j] != k,
    decreases s.len(),
{
    if s.len() > 0 && s.last() != k {
        let t = s.drop_last();
        lemma_last_index_of(t, k);
        assert forall|j: int| last_index_of(s, k) < j < s.len() implies s[j] != k by {
            if j < t.len() {
                assert(t[j] == s[j]);
            }
        }
    }
}

/// `first_index_of` is the least position that holds `k`.
pub proof fn lemma_first_index_of<K>(s: Seq<K>, k: K)
    ensures
        -1 <= first_index_of(s, k) < s.len(),
        first_index_of(s, k) >= 0 ==> s[first_index_of(s, k)] == k,
        first_index_of(s, k) >= 0 ==> forall|j: int| 0 <= j < first_index_of(s, k) ==> s[j] != k,
        first_index_of(s, k) < 0 ==> forall|j: int| 0 <= j < s.len() ==> s[j] != k,
    decreases s.len(),
{
    if s.len() > 0 {
        let t = s.drop_last();
        lemma_first_index_of(t, k);
        assert forall|j: int| 0 <= j < t.len() implies t[j] == s[j] by {}
        if first_index_of(s, k) >= 0 {
            assert forall|j: int| 0 <= j < first_index_of(s, k) implies s[j] != k by {
                assert(t[j] == s[j]);
            }
        } else {
            assert forall|j: int| 0 <= j < s.len() implies s[j] != k by {
                if j < t.len() {
                    assert(t[j] == s[j]);
                }
            }
        }
    }
}

/// Where the first `n` entries of `s` hold `k`, the first position of `k` in
/// `s` is its first position among them.
pub proof fn lemma_first_index_in_prefix<K>(s: Seq<K>, k: K, n: int)
    requires
        0 <= n <= s.len(),
        first_index_of(s.take(n), k) >= 0,
    ensures
        first_index_of(s, k) == first_index_of(s.take(n), k),
    decreases s.len() - n,
{
    if n < s.len() {
        assert(s.take(n + 1).drop_last() == s.take(n));
        lemma_first_index_in_prefix(s, k, n + 1);
    } else {
        assert(s.take(n) == s);
    }
}

} // verus!
