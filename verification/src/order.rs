//! Picking out of a sequence, in its order.
use vstd::prelude::*;

verus! {

/// Whether `picked` lists exactly the positions below `n` that `keep` holds of,
/// each once, from the first to the last.
pub open spec fn in_order(picked: Seq<int>, n: int, keep: spec_fn(int) -> bool) -> bool {
    &&& forall|a: int, b: int|
        0 <= a < b < picked.len() ==> (#[trigger] picked[a]) < (#[trigger] picked[b])
    &&& forall|a: int|
        0 <= a < picked.len() ==> 0 <= (#[trigger] picked[a]) < n && keep(picked[a])
    &&& forall|i: int| 0 <= i < n && #[trigger] keep(i) ==> picked.contains(i)
}

/// One more position is picked or passed over.
pub proof fn lemma_one_more(
    picked: Seq<int>,
    n: int,
    fewer: spec_fn(int) -> bool,
    keep: spec_fn(int) -> bool,
)
    requires
        0 <= n,
        in_order(picked, n, fewer),
        forall|i: int| 0 <= i < n ==> #[trigger] fewer(i) == keep(i),
    ensures
        keep(n) ==> in_order(picked.push(n), n + 1, keep),
        !keep(n) ==> in_order(picked, n + 1, keep),
{
    assert forall|a: int| 0 <= a < picked.len() implies 0 <= (#[trigger] picked[a]) < n && keep(
        picked[a],
    ) by {
        assert(fewer(picked[a]));
    }
    assert forall|i: int| 0 <= i < n && #[trigger] keep(i) implies picked.contains(i) by {
        assert(fewer(i));
    }
    if keep(n) {
        let more = picked.push(n);
        assert forall|i: int| 0 <= i < n + 1 && #[trigger] keep(i) implies more.contains(i) by {
            if i < n {
                let a = choose|a: int| 0 <= a < picked.len() && picked[a] == i;
                assert(more[a] == i);
            } else {
                assert(more[picked.len() as int] == i);
            }
        }
    }
}

/// There is only one such list.
pub proof fn the_order_is_the_only_one(
    one: Seq<int>,
    other: Seq<int>,
    n: int,
    keep: spec_fn(int) -> bool,
)
    requires
        0 <= n,
        in_order(one, n, keep),
        in_order(other, n, keep),
    ensures
        one == other,
    decreases n,
{
    if n == 0 {
        if one.len() > 0 {
            assert(0 <= one[0] < n);
        }
        if other.len() > 0 {
            assert(0 <= other[0] < n);
        }
        assert(one =~= other);
    } else {
        lemma_shorter(one, n, keep);
        lemma_shorter(other, n, keep);
        if keep(n - 1) {
            the_order_is_the_only_one(one.drop_last(), other.drop_last(), n - 1, keep);
            assert(one =~= one.drop_last().push(one.last()));
            assert(other =~= other.drop_last().push(other.last()));
        } else {
            the_order_is_the_only_one(one, other, n - 1, keep);
        }
    }
}

proof fn lemma_shorter(picked: Seq<int>, n: int, keep: spec_fn(int) -> bool)
    requires
        1 <= n,
        in_order(picked, n, keep),
    ensures
        keep(n - 1) ==> picked.len() > 0 && picked.last() == n - 1 && in_order(
            picked.drop_last(),
            n - 1,
            keep,
        ),
        !keep(n - 1) ==> in_order(picked, n - 1, keep),
{
    if keep(n - 1) {
        assert(picked.contains(n - 1));
        let at = choose|a: int| 0 <= a < picked.len() && picked[a] == n - 1;
        if at < picked.len() - 1 {
            assert(picked[at] < picked[picked.len() - 1]);
        }
        let rest = picked.drop_last();
        assert forall|a: int| 0 <= a < rest.len() implies 0 <= (#[trigger] rest[a]) < n - 1
            && keep(rest[a]) by {
            assert(rest[a] == picked[a]);
            assert(picked[a] < picked[picked.len() - 1]);
        }
        assert forall|i: int| 0 <= i < n - 1 && #[trigger] keep(i) implies rest.contains(i) by {
            let a = choose|a: int| 0 <= a < picked.len() && picked[a] == i;
            assert(rest[a] == i);
        }
    } else {
        assert forall|a: int| 0 <= a < picked.len() implies 0 <= (#[trigger] picked[a]) < n - 1
            && keep(picked[a]) by {
            if picked[a] == n - 1 {
                assert(keep(n - 1));
            }
        }
    }
}

} // verus!
