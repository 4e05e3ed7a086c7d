//! The dictionary order of byte strings, by which the store keeps its peers.

use vstd::prelude::*;

verus! {

/// Whether `a` and `b` have the same first `k` bytes.
pub open spec fn agree(a: Seq<u8>, b: Seq<u8>, k: int) -> bool {
    &&& 0 <= k <= a.len()
    &&& k <= b.len()
    &&& forall|j: int| 0 <= j < k ==> a[j] == b[j]
}

/// Whether `a` stands before `b` in dictionary order: where the two first
/// differ `a` has the smaller byte, or `a` ends there and `b` goes on.
pub open spec fn precedes(a: Seq<u8>, b: Seq<u8>) -> bool {
    exists|k: int| #[trigger] agree(a, b, k) && k < b.len() && (k == a.len() || a[k] < b[k])
}

/// Whether each byte string in `s` stands before all that follow it.
pub open spec fn ascending(s: Seq<Seq<u8>>) -> bool {
    forall|i: int, j: int| 0 <= i < j < s.len() ==> precedes(#[trigger] s[i], #[trigger] s[j])
}

/// No byte string stands before itself.
pub proof fn lemma_precedes_irreflexive(a: Seq<u8>)
    ensures
        !precedes(a, a),
{
}

/// What stands before something that stands before a third stands before
/// the third.
pub proof fn lemma_precedes_transitive(a: Seq<u8>, b: Seq<u8>, c: Seq<u8>)
    requires
        precedes(a, b),
        precedes(b, c),
    ensures
        precedes(a, c),
{
    // Where `a` parts from `b` and where `b` parts from `c`: at the earlier
    // of the two places `a` parts from `c`, and stands before it.
    let ab = choose|k: int| #[trigger]
        agree(a, b, k) && k < b.len() && (k == a.len() || a[k] < b[k]);
    let bc = choose|k: int| #[trigger]
        agree(b, c, k) && k < c.len() && (k == b.len() || b[k] < c[k]);
    assert(agree(a, c, if ab < bc { ab } else { bc }));
}

/// Of two different byte strings one stands before the other.
pub proof fn lemma_precedes_total(a: Seq<u8>, b: Seq<u8>)
    requires
        a != b,
    ensures
        precedes(a, b) || precedes(b, a),
{
    lemma_decided_from(a, b, 0);
}

/// Two different byte strings that have the same first `k` bytes are in
/// order one way or the other: where they first differ, or where one ends.
proof fn lemma_decided_from(a: Seq<u8>, b: Seq<u8>, k: int)
    requires
        a != b,
        agree(a, b, k),
    ensures
        precedes(a, b) || precedes(b, a),
    decreases a.len() - k,
{
    assert(agree(b, a, k));
    if k == a.len() && k == b.len() {
        assert(a =~= b);
    } else if k < a.len() && k < b.len() && a[k] == b[k] {
        lemma_decided_from(a, b, k + 1);
    }
}

/// Two ascending sequences with the same members are the same sequence.
pub proof fn lemma_ascending_unique(s: Seq<Seq<u8>>, t: Seq<Seq<u8>>)
    requires
        ascending(s),
        ascending(t),
        s.to_set() == t.to_set(),
    ensures
        s == t,
    decreases s.len(),
{
    if s.len() == 0 {
        if t.len() > 0 {
            assert(t.to_set().contains(t[0]));
        }
    } else {
        // Each sequence begins with the member that stands before all
        // others, so the two begin alike.
        assert(s.to_set().contains(s[0]));
        assert(t.to_set().contains(t[0]));
        let k = choose|k: int| 0 <= k < t.len() && t[k] == s[0];
        let m = choose|m: int| 0 <= m < s.len() && s[m] == t[0];
        assert(s[0] == t[0]) by {
            if k > 0 && m > 0 {
                lemma_precedes_transitive(s[0], s[m], s[0]);
            }
        }
        // What follows is ascending again and has the same members.
        let s1 = s.drop_first();
        let t1 = t.drop_first();
        assert(ascending(s1)) by {
            assert forall|i: int, j: int| 0 <= i < j < s1.len() implies precedes(
                #[trigger] s1[i],
                #[trigger] s1[j],
            ) by {
                assert(precedes(s[i + 1], s[j + 1]));
            }
        }
        assert(ascending(t1)) by {
            assert forall|i: int, j: int| 0 <= i < j < t1.len() implies precedes(
                #[trigger] t1[i],
                #[trigger] t1[j],
            ) by {
                assert(precedes(t[i + 1], t[j + 1]));
            }
        }
        assert(s1.to_set() =~= t1.to_set()) by {
            assert forall|x: Seq<u8>| s1.to_set().contains(x) implies t1.to_set().contains(x) by {
                let i = choose|i: int| 0 <= i < s1.len() && s1[i] == x;
                assert(s.to_set().contains(s[i + 1]));
                let j = choose|j: int| 0 <= j < t.len() && t[j] == x;
                assert(t1[j - 1] == x);
            }
            assert forall|x: Seq<u8>| t1.to_set().contains(x) implies s1.to_set().contains(x) by {
                let i = choose|i: int| 0 <= i < t1.len() && t1[i] == x;
                assert(t.to_set().contains(t[i + 1]));
                let j = choose|j: int| 0 <= j < s.len() && s[j] == x;
                assert(s1[j - 1] == x);
            }
        }
        lemma_ascending_unique(s1, t1);
        assert(s =~= t) by {
            assert forall|i: int| 0 <= i < s.len() implies s[i] == t[i] by {
                if i > 0 {
                    assert(s1[i - 1] == s[i]);
                    assert(t1[i - 1] == t[i]);
                }
            }
        }
    }
}

} // verus!
