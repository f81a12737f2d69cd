//! Stable ordering of rows by a numeric key.

use vstd::prelude::*;

use crate::vc_store::types::StoredVc;

verus! {

/// Index `j` occurs somewhere in `p`.
pub open spec fn occurs(p: Seq<usize>, j: int) -> bool {
    exists|k: int| 0 <= k < p.len() && #[trigger] p[k] == j
}

/// `p` lists every index of `0..n` exactly once.
pub open spec fn is_permutation(p: Seq<usize>, n: nat) -> bool {
    &&& p.len() == n
    &&& forall|k: int| 0 <= k < n ==> #[trigger] p[k] < n
    &&& forall|a: int, b: int| 0 <= a < n && 0 <= b < n && a != b ==> #[trigger] p[a] != #[trigger] p[b]
    &&& forall|j: int| 0 <= j < n ==> #[trigger] occurs(p, j)
}

/// Visiting the indices in the order `p` gives keys that never decrease, and
/// rows of equal key keep their original relative order.
pub open spec fn is_stable_order(keys: Seq<u32>, p: Seq<usize>) -> bool {
    forall|a: int, b: int|
        0 <= a < b < p.len() ==> keys[#[trigger] p[a] as int] < keys[#[trigger] p[b] as int] || (
        keys[p[a] as int] == keys[p[b] as int] && p[a] < p[b])
}

/// The order in which rows with the given keys are listed: ascending by key,
/// and by position among rows of equal key.
pub fn stable_order(keys: &Vec<u32>) -> (perm: Vec<usize>)
    ensures
        is_permutation(perm@, keys@.len()),
        is_stable_order(keys@, perm@),
{
    let n = keys.len();
    let mut perm: Vec<usize> = Vec::new();
    let mut i: usize = 0;
    while i < n
        invariant
            n == keys@.len(),
            i <= n,
            perm@.len() == i,
            forall|k: int| 0 <= k < i ==> #[trigger] perm@[k] < i,
            forall|a: int, b: int|
                0 <= a < i && 0 <= b < i && a != b ==> #[trigger] perm@[a] != #[trigger] perm@[b],
            forall|j: int| 0 <= j < i ==> #[trigger] occurs(perm@, j),
            is_stable_order(keys@, perm@),
        decreases n - i,
    {
        let key = keys[i];
        let mut pos: usize = 0;
        while pos < perm.len() && keys[perm[pos]] <= key
            invariant
                n == keys@.len(),
                i < n,
                perm@.len() == i,
                pos <= i,
                forall|k: int| 0 <= k < i ==> #[trigger] perm@[k] < i,
                forall|k: int| 0 <= k < pos ==> keys@[#[trigger] perm@[k] as int] <= key,
            decreases i - pos,
        {
            pos = pos + 1;
        }
        let ghost old_perm = perm@;
        perm.insert(pos, i);
        assert(perm@ == old_perm.insert(pos as int, i));
        assert forall|k: int| 0 <= k <= i implies #[trigger] perm@[k] == if k < pos {
            old_perm[k]
        } else if k == pos {
            i
        } else {
            old_perm[k - 1]
        } by {}
        // Every key after the insertion point is larger than the new key.
        assert forall|k: int| pos <= k < i implies key < keys@[#[trigger] old_perm[k] as int] by {
            if pos < k {
                assert(keys@[old_perm[pos as int] as int] <= keys@[old_perm[k] as int]);
            }
        }
        assert forall|k: int| 0 <= k < i + 1 implies #[trigger] perm@[k] < i + 1 by {}
        assert forall|a: int, b: int|
            0 <= a < i + 1 && 0 <= b < i + 1 && a != b implies #[trigger] perm@[a]
            != #[trigger] perm@[b] by {
            if a != pos && b != pos {
                let a1 = if a < pos {
                    a
                } else {
                    a - 1
                };
                let b1 = if b < pos {
                    b
                } else {
                    b - 1
                };
                assert(old_perm[a1] != old_perm[b1]);
            } else if a == pos {
                let b1 = if b < pos {
                    b
                } else {
                    b - 1
                };
                assert(old_perm[b1] < i);
            } else {
                let a1 = if a < pos {
                    a
                } else {
                    a - 1
                };
                assert(old_perm[a1] < i);
            }
        }
        assert forall|j: int| 0 <= j < i + 1 implies #[trigger] occurs(perm@, j) by {
            if j == i {
                assert(perm@[pos as int] == j);
            } else {
                assert(occurs(old_perm, j));
                let k = choose|k: int| 0 <= k < old_perm.len() && #[trigger] old_perm[k] == j;
                if k < pos {
                    assert(perm@[k] == j);
                } else {
                    assert(perm@[k + 1] == j);
                }
            }
        }
        assert forall|a: int, b: int| 0 <= a < b < perm@.len() implies keys@[
            #[trigger] perm@[a] as int] < keys@[#[trigger] perm@[b] as int] || (keys@[
            perm@[a] as int] == keys@[perm@[b] as int] && perm@[a] < perm@[b]) by {
            if a != pos && b != pos {
                let a1 = if a < pos {
                    a
                } else {
                    a - 1
                };
                let b1 = if b < pos {
                    b
                } else {
                    b - 1
                };
                assert(a1 < b1);
                assert(perm@[a] == old_perm[a1] && perm@[b] == old_perm[b1]);
            } else if a == pos {
                assert(perm@[b] == old_perm[b - 1]);
            } else {
                assert(perm@[a] == old_perm[a]);
            }
        }
        i = i + 1;
    }
    perm
}

/// The keys of a list of keyed credentials.
pub open spec fn row_keys(rows: Seq<(u32, StoredVc)>) -> Seq<u32> {
    rows.map_values(|r: (u32, StoredVc)| r.0)
}

/// The credentials of `rows` listed ascending by key; credentials of equal key
/// keep the order they have in `rows`.
pub fn order_by_display(rows: &Vec<(u32, StoredVc)>) -> (out: Vec<StoredVc>)
    ensures
        exists|p: Seq<usize>|
            {
                &&& is_permutation(p, rows@.len())
                &&& is_stable_order(row_keys(rows@), p)
                &&& out@.len() == p.len()
                &&& forall|k: int| 0 <= k < p.len() ==> #[trigger] out@[k]@ == rows@[p[k] as int].1@
            },
{
    let n = rows.len();
    let mut keys: Vec<u32> = Vec::new();
    for i in 0..n
        invariant
            n == rows@.len(),
            keys@ == row_keys(rows@).take(i as int),
    {
        keys.push(rows[i].0);
        assert(keys@ =~= row_keys(rows@).take(i + 1));
    }
    assert(keys@ =~= row_keys(rows@));
    let perm = stable_order(&keys);
    let mut out: Vec<StoredVc> = Vec::new();
    for k in 0..n
        invariant
            n == rows@.len(),
            is_permutation(perm@, n as nat),
            out@.len() == k,
            forall|j: int| 0 <= j < k ==> #[trigger] out@[j]@ == rows@[perm@[j] as int].1@,
    {
        let v = rows[perm[k]].1.clone();
        out.push(v);
    }
    out
}

} // verus!
