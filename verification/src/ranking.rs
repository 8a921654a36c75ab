//! Picking the best few of a list of scores.

use vstd::prelude::*;
use vstd::set_lib::{lemma_int_range, lemma_len_subset, set_int_range};

verus! {

/// Position `p` ranks before position `q`: its key is larger, or the keys
/// are equal and it comes first.
pub open spec fn ranks_before(keys: Seq<u64>, p: int, q: int) -> bool {
    keys[p] > keys[q] || (keys[p] == keys[q] && p < q)
}

/// `top` lists the best positions of `keys`, at most `k` of them: they are
/// in ranking order, and every position that is left out ranks after the
/// last of `k` listed ones. There is one such list for given keys and `k`.
pub open spec fn is_top(keys: Seq<u64>, k: int, top: Seq<usize>) -> bool {
    &&& top.len() <= k
    &&& forall|i: int| 0 <= i < top.len() ==> (#[trigger] top[i]) < keys.len()
    &&& forall|i: int, j: int|
        0 <= i < j < top.len() ==>
            ranks_before(keys, #[trigger] top[i] as int, #[trigger] top[j] as int)
    &&& forall|p: int|
        0 <= p < keys.len() ==> #[trigger] holds_position(top, p) || (top.len() == k && (k == 0
            || ranks_before(keys, top[k - 1] as int, p)))
}

/// Position `p` ranks after the floor; every position does where there is
/// no floor.
pub open spec fn comes_after(keys: Seq<u64>, floor: Option<usize>, p: int) -> bool {
    match floor {
        Some(f) => ranks_before(keys, f as int, p),
        None => true,
    }
}

/// Whether the list names position `p`.
pub open spec fn holds_position(top: Seq<usize>, p: int) -> bool {
    exists|i: int| 0 <= i < top.len() && #[trigger] top[i] == p
}

/// A list of the best positions names no position twice, so it is no
/// longer than the list of keys; and it is shorter than `k` only where it
/// names every position. It holds `k` positions, or all there are.
pub proof fn lemma_top_length(keys: Seq<u64>, k: int, top: Seq<usize>)
    requires
        0 <= k,
        is_top(keys, k, top),
    ensures
        top.len() == (if k <= keys.len() {
            k
        } else {
            keys.len() as int
        }),
{
    let listed = Seq::new(top.len(), |i: int| top[i] as int);
    let range = set_int_range(0, keys.len() as int);
    lemma_int_range(0, keys.len() as int);
    assert(listed.no_duplicates()) by {
        assert forall|i: int, j: int| 0 <= i < j < listed.len() implies listed[i] != listed[j] by {
            assert(ranks_before(keys, top[i] as int, top[j] as int));
        }
    }
    listed.unique_seq_to_set();
    vstd::seq_lib::seq_to_set_is_finite(listed);
    assert(listed.to_set().subset_of(range)) by {
        assert forall|p: int| listed.to_set().contains(p) implies range.contains(p) by {
            let i = choose|i: int| 0 <= i < listed.len() && listed[i] == p;
            assert(top[i] < keys.len());
        }
    }
    lemma_len_subset(listed.to_set(), range);
    if top.len() < k {
        assert(range.subset_of(listed.to_set())) by {
            assert forall|p: int| range.contains(p) implies listed.to_set().contains(p) by {
                assert(holds_position(top, p));
                let i = choose|i: int| 0 <= i < top.len() && #[trigger] top[i] == p;
                assert(listed[i] == p);
            }
        }
        lemma_len_subset(range, listed.to_set());
    }
}

/// Whether position `p` ranks before position `q`.
fn before(keys: &Vec<u64>, p: usize, q: usize) -> (r: bool)
    requires
        p < keys@.len(),
        q < keys@.len(),
    ensures
        r == ranks_before(keys@, p as int, q as int),
{
    keys[p] > keys[q] || (keys[p] == keys[q] && p < q)
}

/// The best position among those that rank after `floor`, or among all
/// where there is no floor; `None` where no position is left.
fn next_best(keys: &Vec<u64>, floor: Option<usize>) -> (best: Option<usize>)
    requires
        floor.is_some() ==> floor.unwrap() < keys@.len(),
    ensures
        match best {
            Some(b) => {
                &&& b < keys@.len()
                &&& comes_after(keys@, floor, b as int)
                &&& forall|p: int|
                    0 <= p < keys@.len() && p != b && #[trigger] comes_after(keys@, floor, p)
                        ==> ranks_before(keys@, b as int, p)
            },
            None => forall|p: int| 0 <= p < keys@.len() ==>
                !#[trigger] comes_after(keys@, floor, p),
        },
{
    let mut best: Option<usize> = None;
    let mut p: usize = 0;
    while p < keys.len()
        invariant
            p <= keys@.len(),
            floor.is_some() ==> floor.unwrap() < keys@.len(),
            match best {
                Some(b) => {
                    &&& b < p
                    &&& comes_after(keys@, floor, b as int)
                    &&& forall|q: int|
                        0 <= q < p && q != b && #[trigger] comes_after(keys@, floor, q)
                            ==> ranks_before(keys@, b as int, q)
                },
                None => forall|q: int| 0 <= q < p ==> !#[trigger] comes_after(keys@, floor, q),
            },
        decreases keys@.len() - p,
    {
        let eligible = match floor {
            Some(f) => before(keys, f, p),
            None => true,
        };
        if eligible {
            let better = match best {
                Some(b) => before(keys, p, b),
                None => true,
            };
            if better {
                best = Some(p);
            }
        }
        p += 1;
    }
    best
}

/// The positions of the `k` largest keys, best first; between equal keys the
/// earlier position is the better one. Where there are fewer than `k`
/// keys, all positions are listed.
pub fn top_positions(keys: &Vec<u64>, k: usize) -> (top: Vec<usize>)
    ensures
        is_top(keys@, k as int, top@),
        top@.len() == (if k <= keys@.len() {
            k as int
        } else {
            keys@.len() as int
        }),
{
    let mut top: Vec<usize> = Vec::new();
    let mut floor: Option<usize> = None;
    let mut exhausted = false;
    while top.len() < k && !exhausted
        invariant
            top@.len() <= k,
            floor.is_some() == (top@.len() > 0),
            floor.is_some() ==> floor.unwrap() == top@[top@.len() - 1],
            forall|i: int| 0 <= i < top@.len() ==> (#[trigger] top@[i]) < keys@.len(),
            forall|i: int, j: int|
                0 <= i < j < top@.len() ==> ranks_before(
                    keys@,
                    #[trigger] top@[i] as int,
                    #[trigger] top@[j] as int,
                ),
            forall|p: int|
                0 <= p < keys@.len() ==> #[trigger] holds_position(top@, p) || (!exhausted
                    && comes_after(keys@, floor, p)),
        decreases k - top@.len() + (if exhausted { 0int } else { 1int }),
    {
        match next_best(keys, floor) {
            None => {
                exhausted = true;
            },
            Some(b) => {
                let ghost before_push = top@;
                top.push(b);
                floor = Some(b);
                proof {
                    assert forall|p: int| 0 <= p < keys@.len() implies #[trigger] holds_position(
                        top@,
                        p,
                    ) || comes_after(keys@, floor, p) by {
                        if holds_position(before_push, p) {
                            let i = choose|i: int|
                                0 <= i < before_push.len() && #[trigger] before_push[i] == p;
                            assert(top@[i] == p);
                        } else if p == b {
                            assert(top@[before_push.len() as int] == p);
                        }
                    }
                }
            },
        }
    }
    proof {
        lemma_top_length(keys@, k as int, top@);
    }
    top
}

} // verus!
