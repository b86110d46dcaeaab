//! The canonical placement order: section indices sorted by ascending file
//! offset, ties broken by declaration order. Folds over that order are
//! related to folds over declaration order, so that order-independent facts
//! can be stated about sorted traversals.
use vstd::prelude::*;
use crate::types::Section;

verus! {

/// Section index `a` comes strictly before index `b` in placement order:
/// its file offset is smaller, or equal with a smaller declaration index.
pub open spec fn order_lt(sections: Seq<Section>, a: int, b: int) -> bool {
    ||| sections[a].offset < sections[b].offset
    ||| (sections[a].offset == sections[b].offset && a < b)
}

/// `order` is the placement order of `sections`: it lists every section
/// index once, strictly sorted by `order_lt`. Strict sortedness under a
/// total order makes this sequence unique.
pub open spec fn order_ok(sections: Seq<Section>, order: Seq<usize>) -> bool {
    &&& order.len() == sections.len()
    &&& forall|i: int| 0 <= i < order.len() ==> (#[trigger] order[i]) < sections.len()
    &&& forall|i: int, j: int|
        0 <= i < j < order.len() ==> order_lt(sections, order[i] as int, order[j] as int)
}

/// Folds `f` over the section indices `order[0 .. i]`, summing the results.
pub open spec fn fold_idx(order: Seq<usize>, f: spec_fn(int) -> int, i: int) -> int
    decreases i,
{
    if i <= 0 {
        0
    } else {
        fold_idx(order, f, i - 1) + f(order[i - 1] as int)
    }
}

/// Sums `f` over the indices `0 .. n`.
pub open spec fn fold_range(f: spec_fn(int) -> int, n: int) -> int
    decreases n,
{
    if n <= 0 {
        0
    } else {
        fold_range(f, n - 1) + f(n - 1)
    }
}

/// A fold reads only the prefix it runs over.
proof fn lemma_fold_idx_agree(s: Seq<usize>, t: Seq<usize>, f: spec_fn(int) -> int, i: int)
    requires
        0 <= i <= s.len(),
        i <= t.len(),
        forall|j: int| 0 <= j < i ==> s[j] == t[j],
    ensures
        fold_idx(s, f, i) == fold_idx(t, f, i),
    decreases i,
{
    if i > 0 {
        lemma_fold_idx_agree(s, t, f, i - 1);
    }
}

/// A fold over a concatenation splits into the two folds.
proof fn lemma_fold_idx_concat(a: Seq<usize>, b: Seq<usize>, f: spec_fn(int) -> int)
    ensures
        fold_idx(a + b, f, (a.len() + b.len()) as int)
            == fold_idx(a, f, a.len() as int) + fold_idx(b, f, b.len() as int),
    decreases b.len(),
{
    if b.len() == 0 {
        assert(a + b =~= a);
        lemma_fold_idx_agree(a + b, a, f, a.len() as int);
    } else {
        let b1 = b.drop_last();
        assert((a + b)[a.len() + b.len() - 1] == b.last());
        lemma_fold_idx_agree(a + b, a + b1, f, (a.len() + b.len()) as int - 1);
        lemma_fold_idx_concat(a, b1, f);
        lemma_fold_idx_agree(b1, b, f, b1.len() as int);
    }
}

/// Inserting an index anywhere adds exactly its contribution to a full fold.
pub proof fn lemma_fold_idx_insert(s: Seq<usize>, f: spec_fn(int) -> int, p: int, v: usize)
    requires
        0 <= p <= s.len(),
    ensures
        fold_idx(s.insert(p, v), f, (s.len() + 1) as int)
            == fold_idx(s, f, s.len() as int) + f(v as int),
{
    let a = s.subrange(0, p);
    let c = s.subrange(p, s.len() as int);
    let mid = seq![v];
    assert(s.insert(p, v) =~= a + (mid + c));
    assert(fold_idx(s.insert(p, v), f, (s.len() + 1) as int)
        == fold_idx(a + (mid + c), f, (a.len() + (mid + c).len()) as int));
    lemma_fold_idx_concat(a, mid + c, f);
    lemma_fold_idx_concat(mid, c, f);
    assert(mid[0] == v);
    assert(fold_idx(mid, f, 0) == 0);
    assert(fold_idx(mid, f, 1) == f(v as int));
    assert(s =~= a + c);
    lemma_fold_idx_concat(a, c, f);
}

/// Produces the placement order of `sections`: all section indices, sorted
/// by ascending file offset, ties broken by declaration order. Any sum over
/// the resulting order equals the same sum over declaration order.
#[verifier::rlimit(60)]
pub fn sort_sections_by_offset(sections: &Vec<Section>) -> (order: Vec<usize>)
    ensures
        order_ok(sections@, order@),
        forall|f: spec_fn(int) -> int|
            #[trigger] fold_idx(order@, f, order@.len() as int)
                == fold_range(f, sections@.len() as int),
{
    let n = sections.len();
    let mut order: Vec<usize> = Vec::new();
    let mut idx: usize = 0;
    proof {
        assert forall|f: spec_fn(int) -> int|
            #[trigger] fold_idx(order@, f, order@.len() as int) == fold_range(f, 0) by {
            assert(fold_idx(order@, f, 0) == 0);
            assert(fold_range(f, 0) == 0);
        }
    }
    while idx < n
        invariant
            idx <= n,
            n == sections@.len(),
            order@.len() == idx,
            forall|i: int| 0 <= i < order@.len() ==> (#[trigger] order@[i]) < idx,
            forall|i: int, j: int|
                0 <= i < j < order@.len()
                    ==> order_lt(sections@, order@[i] as int, order@[j] as int),
            forall|f: spec_fn(int) -> int|
                #[trigger] fold_idx(order@, f, order@.len() as int)
                    == fold_range(f, idx as int),
        decreases n - idx,
    {
        let key = sections[idx].offset;
        let mut p: usize = 0;
        while p < order.len() && sections[order[p]].offset <= key
            invariant
                p <= order@.len(),
                n == sections@.len(),
                order@.len() <= n,
                forall|i: int| 0 <= i < order@.len() ==> (#[trigger] order@[i]) < n,
                forall|i: int| 0 <= i < p ==> sections@[#[trigger] order@[i] as int].offset <= key,
            decreases order@.len() - p,
        {
            p += 1;
        }
        let ghost old_order = order@;
        order.insert(p, idx);
        proof {
            old_order.insert_ensures(p as int, idx);
            assert forall|i: int, j: int|
                0 <= i < j < order@.len()
                    implies order_lt(sections@, order@[i] as int, order@[j] as int) by {
                if j < p {
                    assert(order@[i] == old_order[i] && order@[j] == old_order[j]);
                } else if j == p {
                    assert(order@[i] == old_order[i]);
                    assert(order@[j] == idx);
                    assert(sections@[old_order[i] as int].offset <= key);
                    assert(old_order[i] < idx);
                } else {
                    assert(order@[j] == old_order[j - 1]);
                    if i < p {
                        assert(order@[i] == old_order[i]);
                        assert(order_lt(sections@, old_order[i] as int, old_order[j - 1] as int));
                    } else if i == p {
                        assert(order@[i] == idx);
                        assert(sections@[old_order[p as int] as int].offset > key);
                        if j - 1 > p {
                            assert(order_lt(sections@, old_order[p as int] as int, old_order[j - 1] as int));
                        }
                        assert(sections@[old_order[j - 1] as int].offset > key);
                    } else {
                        assert(order@[i] == old_order[i - 1]);
                        assert(order_lt(sections@, old_order[i - 1] as int, old_order[j - 1] as int));
                    }
                }
            }
            assert forall|f: spec_fn(int) -> int|
                #[trigger] fold_idx(order@, f, order@.len() as int)
                    == fold_range(f, (idx + 1) as int) by {
                assert(order@ == old_order.insert(p as int, idx));
                lemma_fold_idx_insert(old_order, f, p as int, idx);
                assert(fold_range(f, (idx + 1) as int)
                    == fold_range(f, idx as int) + f(idx as int));
            }
        }
        idx += 1;
    }
    order
}

} // verus!
