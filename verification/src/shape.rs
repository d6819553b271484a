//! Shape arithmetic for the batched linear/low-rank forward policy.
//!
//! Tensors are modelled by their dimension lists; the functions here state
//! how those lists combine: the output shape of an affine transform, the
//! element count of a shape, and the flatten/unflatten step used for rank-3
//! inputs.
use vstd::prelude::*;

verus! {

/// Element count of a shape: the product of all its dimensions.
pub open spec fn product_of(dims: Seq<usize>) -> int
    decreases dims.len(),
{
    if dims.len() == 0 {
        1
    } else {
        product_of(dims.drop_last()) * dims.last()
    }
}

/// A left-to-right product over `dims` can be computed in `usize` without
/// any intermediate overflow: every prefix product fits.
pub open spec fn prods_fit(dims: Seq<usize>) -> bool {
    forall|j: int| 0 <= j <= dims.len() ==> #[trigger] product_of(dims.take(j)) <= usize::MAX
}

/// The shape of an affine transform's output: the input shape with its last
/// dimension replaced by the number of output features.
pub open spec fn out_dims(xd: Seq<usize>, out_features: usize) -> Seq<usize> {
    if xd.len() == 0 {
        xd
    } else {
        xd.drop_last().push(out_features)
    }
}

pub proof fn lemma_product_take_step(dims: Seq<usize>, j: int)
    requires
        0 < j <= dims.len(),
    ensures
        product_of(dims.take(j)) == product_of(dims.take(j - 1)) * dims[j - 1],
{
    assert(dims.take(j).drop_last() =~= dims.take(j - 1));
    assert(dims.take(j).last() == dims[j - 1]);
}

pub proof fn lemma_product_take_all(dims: Seq<usize>)
    ensures
        product_of(dims.take(dims.len() as int)) == product_of(dims),
{
    assert(dims.take(dims.len() as int) =~= dims);
}

/// Multiply two `usize` values, reporting overflow instead of wrapping.
pub fn checked_mul_usize(a: usize, b: usize) -> (r: Option<usize>)
    ensures
        a * b <= usize::MAX ==> r == Some((a * b) as usize),
        a * b > usize::MAX ==> r is None,
{
    let au: u128 = a as u128;
    let bu: u128 = b as u128;
    proof {
        assert(au * bu <= u128::MAX) by (nonlinear_arith)
            requires
                au <= 0xFFFF_FFFF_FFFF_FFFFu128,
                bu <= 0xFFFF_FFFF_FFFF_FFFFu128,
        ;
    }
    let wide: u128 = au * bu;
    if wide <= usize::MAX as u128 {
        Some(wide as usize)
    } else {
        None
    }
}

/// Compute the element count of a shape, reporting any intermediate
/// overflow of the left-to-right product.
pub fn checked_product(dims: &Vec<usize>) -> (r: Option<usize>)
    ensures
        r is Some ==> prods_fit(dims@) && r.unwrap() == product_of(dims@),
        r is None ==> !prods_fit(dims@),
{
    let mut acc: usize = 1;
    let mut i: usize = 0;
    proof {
        assert(dims@.take(0) =~= Seq::<usize>::empty());
    }
    while i < dims.len()
        invariant
            0 <= i <= dims.len(),
            acc == product_of(dims@.take(i as int)),
            forall|j: int| 0 <= j <= i ==> #[trigger] product_of(dims@.take(j)) <= usize::MAX,
        decreases dims.len() - i,
    {
        proof {
            lemma_product_take_step(dims@, i + 1);
        }
        match checked_mul_usize(acc, dims[i]) {
            Some(next) => {
                acc = next;
            }
            None => {
                proof {
                    assert(product_of(dims@.take(i + 1)) > usize::MAX);
                }
                return None;
            }
        }
        i = i + 1;
    }
    proof {
        lemma_product_take_all(dims@);
        assert(forall|j: int| 0 <= j <= dims@.len() ==> #[trigger] product_of(dims@.take(j)) <= usize::MAX);
    }
    Some(acc)
}

pub proof fn lemma_product_nonneg(dims: Seq<usize>)
    ensures
        product_of(dims) >= 0,
    decreases dims.len(),
{
    if dims.len() > 0 {
        lemma_product_nonneg(dims.drop_last());
        let p = product_of(dims.drop_last());
        let z = dims.last();
        assert(p * z >= 0) by (nonlinear_arith)
            requires
                p >= 0,
                z >= 0,
        ;
    }
}

/// A positive element count means every dimension is positive.
pub proof fn lemma_product_pos(dims: Seq<usize>)
    requires
        product_of(dims) > 0,
    ensures
        forall|i: int| 0 <= i < dims.len() ==> dims[i] > 0,
    decreases dims.len(),
{
    if dims.len() > 0 {
        lemma_product_nonneg(dims.drop_last());
        if dims.last() == 0 {
            assert(product_of(dims) == product_of(dims.drop_last()) * 0);
        }
        if product_of(dims.drop_last()) == 0 {
            assert(product_of(dims) == 0 * dims.last());
        }
        lemma_product_pos(dims.drop_last());
        assert(forall|i: int| 0 <= i < dims.len() - 1 ==> dims[i] == dims.drop_last()[i]);
    }
}

pub proof fn lemma_product_push(dims: Seq<usize>, z: usize)
    ensures
        product_of(dims.push(z)) == product_of(dims) * z,
{
    assert(dims.push(z).drop_last() =~= dims);
    assert(dims.push(z).last() == z);
}

/// Appending a dimension keeps every old prefix, and adds one new prefix
/// whose product is the old element count times the new dimension.
pub proof fn lemma_prods_fit_push(dims: Seq<usize>, z: usize)
    ensures
        prods_fit(dims.push(z)) <==> (prods_fit(dims) && product_of(dims) * z <= usize::MAX),
{
    let p = dims.push(z);
    assert forall|j: int| 0 <= j <= dims.len() implies p.take(j) == dims.take(j) by {
        assert(p.take(j) =~= dims.take(j));
    }
    assert(p.take(p.len() as int) =~= p);
    lemma_product_push(dims, z);
    lemma_product_take_all(dims);
    if prods_fit(dims) && product_of(dims) * z <= usize::MAX {
        assert forall|j: int| 0 <= j <= p.len() implies #[trigger] product_of(p.take(j)) <= usize::MAX by {
            if j <= dims.len() {
                assert(product_of(dims.take(j)) <= usize::MAX);
            } else {
                assert(j == p.len());
                assert(product_of(p.take(j)) == product_of(dims) * z);
            }
        }
    }
    if prods_fit(p) {
        assert forall|j: int| 0 <= j <= dims.len() implies #[trigger] product_of(dims.take(j)) <= usize::MAX by {
            assert(product_of(p.take(j)) <= usize::MAX);
        }
        assert(product_of(p.take(p.len() as int)) <= usize::MAX);
    }
}

/// Every prefix of a fitting shape fits.
pub proof fn lemma_prods_fit_drop_last(dims: Seq<usize>)
    requires
        prods_fit(dims),
        dims.len() > 0,
    ensures
        prods_fit(dims.drop_last()),
{
    let d = dims.drop_last();
    assert forall|j: int| 0 <= j <= d.len() implies #[trigger] product_of(d.take(j)) <= usize::MAX by {
        assert(d.take(j) =~= dims.take(j));
        assert(product_of(dims.take(j)) <= usize::MAX);
    }
}

pub proof fn lemma_product2(a: usize, b: usize)
    ensures
        product_of(seq![a, b]) == a * b,
{
    assert(seq![a, b].drop_last() =~= seq![a]);
    assert(seq![a].drop_last() =~= Seq::<usize>::empty());
    assert(product_of(Seq::<usize>::empty()) == 1);
    assert(product_of(seq![a]) == 1 * a);
}

pub proof fn lemma_product3(a: usize, b: usize, c: usize)
    ensures
        product_of(seq![a, b, c]) == a * b * c,
{
    assert(seq![a, b, c].drop_last() =~= seq![a, b]);
    lemma_product2(a, b);
}

pub proof fn lemma_prods_fit_empty(dims: Seq<usize>)
    requires
        dims.len() == 0,
    ensures
        prods_fit(dims),
{
    assert forall|j: int| 0 <= j <= dims.len() implies #[trigger] product_of(dims.take(j)) <= usize::MAX by {
        assert(dims.take(j) =~= Seq::<usize>::empty());
    }
}

pub proof fn lemma_prods_fit2(a: usize, b: usize)
    ensures
        prods_fit(seq![a, b]) <==> a * b <= usize::MAX,
{
    let s = seq![a, b];
    lemma_product2(a, b);
    assert(s.take(0) =~= Seq::<usize>::empty());
    assert(s.take(1) =~= seq![a]);
    assert(seq![a].drop_last() =~= Seq::<usize>::empty());
    assert(product_of(Seq::<usize>::empty()) == 1);
    assert(product_of(seq![a]) == 1 * a);
    assert(s.take(2) =~= s);
    if a * b <= usize::MAX {
        assert forall|j: int| 0 <= j <= s.len() implies #[trigger] product_of(s.take(j)) <= usize::MAX by {
            if j == 0 {
                assert(product_of(s.take(0)) == 1);
            } else if j == 1 {
                assert(product_of(s.take(1)) == a);
            } else {
                assert(product_of(s.take(2)) == a * b);
            }
        }
    }
    if prods_fit(s) {
        assert(product_of(s.take(2)) <= usize::MAX);
    }
}

pub proof fn lemma_prods_fit3(a: usize, b: usize, c: usize)
    requires
        a * b <= usize::MAX,
        a * b * c <= usize::MAX,
    ensures
        prods_fit(seq![a, b, c]),
{
    let s = seq![a, b, c];
    lemma_product2(a, b);
    lemma_product3(a, b, c);
    assert(s.take(0) =~= Seq::<usize>::empty());
    assert(s.take(1) =~= seq![a]);
    assert(seq![a].drop_last() =~= Seq::<usize>::empty());
    assert(product_of(Seq::<usize>::empty()) == 1);
    assert(product_of(seq![a]) == 1 * a);
    assert(s.take(2) =~= seq![a, b]);
    assert(s.take(3) =~= s);
    assert forall|j: int| 0 <= j <= s.len() implies #[trigger] product_of(s.take(j)) <= usize::MAX by {
        if j == 0 {
            assert(product_of(s.take(0)) == 1);
        } else if j == 1 {
            assert(product_of(s.take(1)) == a);
        } else if j == 2 {
            assert(product_of(s.take(2)) == a * b);
        } else {
            assert(product_of(s.take(3)) == a * b * c);
        }
    }
}

/// Compute the product of the first `upto` dimensions, reporting any
/// intermediate overflow.
pub fn checked_product_upto(dims: &Vec<usize>, upto: usize) -> (r: Option<usize>)
    requires
        upto <= dims@.len(),
    ensures
        r is Some ==> r.unwrap() == product_of(dims@.take(upto as int)) && (forall|j: int|
            0 <= j <= upto ==> #[trigger] product_of(dims@.take(j)) <= usize::MAX),
        r is None ==> !prods_fit(dims@),
{
    let mut acc: usize = 1;
    let mut i: usize = 0;
    proof {
        assert(dims@.take(0) =~= Seq::<usize>::empty());
    }
    while i < upto
        invariant
            0 <= i <= upto <= dims@.len(),
            acc == product_of(dims@.take(i as int)),
            forall|j: int| 0 <= j <= i ==> #[trigger] product_of(dims@.take(j)) <= usize::MAX,
        decreases upto - i,
    {
        proof {
            lemma_product_take_step(dims@, i + 1);
        }
        match checked_mul_usize(acc, dims[i]) {
            Some(next) => {
                acc = next;
            }
            None => {
                proof {
                    assert(product_of(dims@.take(i + 1)) > usize::MAX);
                }
                return None;
            }
        }
        i = i + 1;
    }
    Some(acc)
}

/// Restoring a flattened rank-3 result reproduces, slice for slice, the
/// rank-2 output shape: `[outer, seq, in]` maps to `[outer, seq, out]`,
/// exactly as each `[seq, in]` slice maps to `[seq, out]`; and the flatten
/// step keeps the element count unchanged.
pub proof fn lemma_rank3_flatten_round_trip(outer: usize, seq_len: usize, in_features: usize, out_features: usize)
    ensures
        out_dims(seq![outer, seq_len, in_features], out_features) == seq![outer, seq_len, out_features],
        out_dims(seq![seq_len, in_features], out_features) == seq![seq_len, out_features],
        outer * seq_len <= usize::MAX ==> product_of(seq![outer, seq_len, in_features]) == product_of(
            seq![(outer * seq_len) as usize, in_features],
        ),
{
    let xd = seq![outer, seq_len, in_features];
    assert(xd.drop_last() =~= seq![outer, seq_len]);
    assert(xd.drop_last().push(out_features) =~= seq![outer, seq_len, out_features]);
    let xd2 = seq![seq_len, in_features];
    assert(xd2.drop_last() =~= seq![seq_len]);
    assert(xd2.drop_last().push(out_features) =~= seq![seq_len, out_features]);
    lemma_product3(outer, seq_len, in_features);
    if outer * seq_len <= usize::MAX {
        lemma_product2((outer * seq_len) as usize, in_features);
    }
}

} // verus!
