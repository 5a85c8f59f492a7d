//! Lists in a strict order.

use vstd::prelude::*;

verus! {

/// Two lists in the same strict order with the same members are the same
/// list.
pub proof fn lemma_strict_order_unique<T>(a: Seq<T>, b: Seq<T>, before: spec_fn(T, T) -> bool)
    requires
        forall|x: T| !#[trigger] before(x, x),
        forall|x: T, y: T, z: T|
            #[trigger] before(x, y) && #[trigger] before(y, z) ==> before(x, z),
        forall|i: int, j: int| 0 <= i < j < a.len() ==> before(a[i], a[j]),
        forall|i: int, j: int| 0 <= i < j < b.len() ==> before(b[i], b[j]),
        forall|x: T| a.contains(x) <==> b.contains(x),
    ensures
        a == b,
    decreases a.len(),
{
    if a.len() == 0 {
        if b.len() > 0 {
            assert(b.contains(b[0]));
        }
        assert(a =~= b);
    } else {
        assert(a.contains(a.last()));
        assert(b.len() > 0);
        assert(b.contains(b.last()));
        let ia = choose|i: int| 0 <= i < a.len() && a[i] == b.last();
        let ib = choose|i: int| 0 <= i < b.len() && b[i] == a.last();
        if ib < b.len() - 1 {
            assert(before(b[ib], b[b.len() - 1]));
            if ia < a.len() - 1 {
                assert(before(a[ia], a[a.len() - 1]));
            }
            assert(before(a.last(), a.last()));
        }
        assert(a.last() == b.last());
        let fa = a.drop_last();
        let fb = b.drop_last();
        assert forall|x: T| fa.contains(x) <==> fb.contains(x) by {
            if fa.contains(x) {
                let i = choose|i: int| 0 <= i < fa.len() && fa[i] == x;
                assert(a[i] == x);
                assert(a.contains(x));
                let j = choose|j: int| 0 <= j < b.len() && b[j] == x;
                assert(before(a[i], a[a.len() - 1]));
                assert(fb[j] == x);
            }
            if fb.contains(x) {
                let i = choose|i: int| 0 <= i < fb.len() && fb[i] == x;
                assert(b[i] == x);
                assert(b.contains(x));
                let j = choose|j: int| 0 <= j < a.len() && a[j] == x;
                assert(before(b[i], b[b.len() - 1]));
                assert(fa[j] == x);
            }
        }
        assert forall|i: int, j: int| 0 <= i < j < fa.len() implies before(fa[i], fa[j]) by {
            assert(before(a[i], a[j]));
        }
        assert forall|i: int, j: int| 0 <= i < j < fb.len() implies before(fb[i], fb[j]) by {
            assert(before(b[i], b[j]));
        }
        lemma_strict_order_unique(fa, fb, before);
        assert(a =~= fa.push(a.last()));
        assert(b =~= fb.push(b.last()));
    }
}

} // verus!
