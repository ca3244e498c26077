use vstd::prelude::*;

verus! {

/// Each of the workers `0..n` occurs in `s`.
pub open spec fn covers(s: Seq<usize>, n: nat) -> bool {
    forall|i: usize| (i as nat) < n ==> #[trigger] s.contains(i)
}

/// `s` records distinct workers, all below `n`.
pub open spec fn distinct_below(s: Seq<usize>, n: nat) -> bool {
    &&& s.no_duplicates()
    &&& forall|k: int| 0 <= k < s.len() ==> (#[trigger] s[k] as nat) < n
}

/// The workers `0..n` as a set.
pub open spec fn below(n: nat) -> Set<usize> {
    Set::new(|i: usize| (i as nat) < n)
}

proof fn lemma_below_len(n: nat)
    requires
        n <= usize::MAX + 1,
    ensures
        below(n).finite(),
        below(n).len() == n,
    decreases n,
{
    if n == 0 {
        assert(below(0) =~= Set::empty());
    } else {
        let k = (n - 1) as nat;
        lemma_below_len(k);
        assert(below(n) =~= below(k).insert(k as usize));
    }
}

/// A history of distinct workers below `n` never holds more than `n`
/// entries, and holds exactly `n` once every worker occurs in it.
pub proof fn lemma_distinct_len(s: Seq<usize>, n: nat)
    requires
        distinct_below(s, n),
        n <= usize::MAX + 1,
    ensures
        s.len() <= n,
        covers(s, n) ==> s.len() == n,
{
    s.unique_seq_to_set();
    lemma_below_len(n);
    assert(s.to_set().subset_of(below(n))) by {
        assert forall|x: usize| s.to_set().contains(x) implies below(n).contains(x) by {
            let k = s.index_of(x);
        }
    }
    vstd::set_lib::lemma_len_subset(s.to_set(), below(n));
    if covers(s, n) {
        assert(s.to_set() =~= below(n));
    }
}

/// A worker missing from a history of distinct workers below `n` leaves
/// room for one more entry.
pub proof fn lemma_room_for_missing(s: Seq<usize>, n: nat, w: usize)
    requires
        distinct_below(s, n),
        n <= usize::MAX + 1,
        (w as nat) < n,
        !s.contains(w),
    ensures
        s.len() < n,
        distinct_below(s.push(w), n),
{
    let t = s.push(w);
    assert(t.no_duplicates()) by {
        assert forall|a: int, b: int| 0 <= a < t.len() && 0 <= b < t.len() && a != b implies t[a] != t[b] by {
            if a == s.len() {
                assert(!s.contains(t[b]) ==> t[a] != t[b]);
                assert(s[b] == t[b]);
            } else if b == s.len() {
                assert(s[a] == t[a]);
            }
        }
    }
    lemma_distinct_len(t, n);
}

} // verus!
