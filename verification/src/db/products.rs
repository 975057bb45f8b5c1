//! Assembling the locally stored catalog: each product gets the variations
//! stored for it, in the order they were read. The database reads are left
//! to the caller, which hands over the product ids and, for each variation
//! read, the id of its product.
use vstd::prelude::*;

verus! {

/// The positions in `owners` that hold `key`, in increasing order.
pub open spec fn positions_of(owners: Seq<i64>, key: i64) -> Seq<usize>
    decreases owners.len(),
{
    if owners.len() == 0 {
        Seq::empty()
    } else {
        let before = positions_of(owners.drop_last(), key);
        if owners.last() == key {
            before.push((owners.len() - 1) as usize)
        } else {
            before
        }
    }
}

/// The positions of the variations of product `key`.
pub fn variations_of(owners: &Vec<i64>, key: i64) -> (r: Vec<usize>)
    ensures
        r@ == positions_of(owners@, key),
{
    let n: usize = owners.len();
    let mut r: Vec<usize> = Vec::new();
    let mut j: usize = 0;
    assert(owners@.take(0) =~= Seq::<i64>::empty());
    while j < n
        invariant
            j <= n == owners.len(),
            r@ == positions_of(owners@.take(j as int), key),
        decreases n - j,
    {
        assert(owners@.take(j + 1).drop_last() =~= owners@.take(j as int));
        if owners[j] == key {
            r.push(j);
        }
        j = j + 1;
    }
    assert(owners@.take(n as int) =~= owners@);
    r
}

/// For each product, the positions of its variations among those read:
/// `r[i]` lists, in order, every `j` with `variation_owners[j] ==
/// product_ids[i]`.
pub fn variations_by_product(product_ids: &Vec<i64>, variation_owners: &Vec<i64>) -> (r: Vec<
    Vec<usize>,
>)
    ensures
        r@.len() == product_ids@.len(),
        forall|i: int|
            0 <= i < r@.len() ==> #[trigger] r@[i]@ == positions_of(
                variation_owners@,
                product_ids@[i],
            ),
{
    let n: usize = product_ids.len();
    let mut r: Vec<Vec<usize>> = Vec::new();
    let mut i: usize = 0;
    while i < n
        invariant
            i <= n == product_ids.len(),
            r@.len() == i,
            forall|k: int|
                0 <= k < i ==> #[trigger] r@[k]@ == positions_of(
                    variation_owners@,
                    product_ids@[k],
                ),
        decreases n - i,
    {
        r.push(variations_of(variation_owners, product_ids[i]));
        i = i + 1;
    }
    r
}

/// Law: a position is listed for a product exactly when the variation there
/// belongs to it.
pub proof fn law_positions_exact(owners: Seq<i64>, key: i64, j: int)
    requires
        0 <= j < owners.len(),
        owners.len() <= usize::MAX,
    ensures
        positions_of(owners, key).contains(j as usize) <==> owners[j] == key,
    decreases owners.len(),
{
    let b = positions_of(owners.drop_last(), key);
    let last = (owners.len() - 1) as usize;
    lemma_positions_below(owners.drop_last(), key);
    if j < owners.len() - 1 {
        law_positions_exact(owners.drop_last(), key, j);
        assert(owners.drop_last()[j] == owners[j]);
        if owners.last() == key {
            let bp = b.push(last);
            if bp.contains(j as usize) {
                let k = choose|k: int| 0 <= k < bp.len() && #[trigger] bp[k] == j as usize;
                if k < b.len() {
                    assert(b[k] == j as usize);
                }
            }
            if b.contains(j as usize) {
                let k = choose|k: int| 0 <= k < b.len() && #[trigger] b[k] == j as usize;
                assert(bp[k] == j as usize);
            }
        }
    } else {
        if owners.last() == key {
            assert(b.push(last)[b.len() as int] == j as usize);
        } else if b.contains(j as usize) {
            let k = choose|k: int| 0 <= k < b.len() && #[trigger] b[k] == j as usize;
            assert(b[k] < owners.len() - 1);
        }
    }
}

proof fn lemma_positions_below(owners: Seq<i64>, key: i64)
    requires
        owners.len() <= usize::MAX,
    ensures
        forall|k: int|
            0 <= k < positions_of(owners, key).len() ==> #[trigger] positions_of(owners, key)[k]
                < owners.len(),
    decreases owners.len(),
{
    if owners.len() > 0 {
        let b = positions_of(owners.drop_last(), key);
        lemma_positions_below(owners.drop_last(), key);
        let r = positions_of(owners, key);
        assert forall|k: int| 0 <= k < r.len() implies #[trigger] r[k] < owners.len() by {
            if k < b.len() {
                assert(r[k] == b[k]);
            }
        }
    }
}

} // verus!
