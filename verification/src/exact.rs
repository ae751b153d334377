//! Scalars whose arithmetic is exact, and sums over them.
use vstd::prelude::*;
use crate::scalar::{
    is_negation, is_product, is_quotient, is_running_sum, is_sum, is_zero, Scalar,
};

verus! {

/// A model of the arithmetic of `T`: its zero, and its sum, product, quotient and
/// negation as functions.
#[verifier::reject_recursive_types(T)]
pub struct Arithmetic<T> {
    pub zero: T,
    pub sum: spec_fn(T, T) -> T,
    pub product: spec_fn(T, T) -> T,
    pub quotient: spec_fn(T, T) -> T,
    pub negation: spec_fn(T) -> T,
}

impl<T: Scalar> Arithmetic<T> {
    /// The sum of `a` and `b`.
    pub open spec fn plus(self, a: T, b: T) -> T {
        (self.sum)(a, b)
    }

    /// The product of `a` and `b`.
    pub open spec fn times(self, a: T, b: T) -> T {
        (self.product)(a, b)
    }

    /// The quotient of `a` by `b`.
    pub open spec fn over(self, a: T, b: T) -> T {
        (self.quotient)(a, b)
    }

    /// The negation of `a`.
    pub open spec fn negated(self, a: T) -> T {
        (self.negation)(a)
    }

    /// The sum of the `terms`, first to last, from zero.
    pub open spec fn total(self, terms: Seq<T>) -> T
        decreases terms.len(),
    {
        if terms.len() == 0 {
            self.zero
        } else {
            self.plus(self.total(terms.drop_last()), terms.last())
        }
    }
}

/// The arithmetic of `T` is exact, as far as the laws of statics need it, and
/// `model` describes it: whatever the operations of `T` return is what the
/// functions of `model` give; addition is associative and commutative, with zero
/// as its identity and the negation as the inverse; multiplication is commutative
/// and distributes over a sum; and negating a factor of a product, or the
/// dividend of a quotient, negates the result.
///
/// Numbers that round have no such model: of them the laws that ask for one hold
/// up to rounding only.
#[verifier::opaque]
pub open spec fn is_exact<T: Scalar>(model: Arithmetic<T>) -> bool {
    &&& forall|r: T| #[trigger] is_zero(r) ==> r == model.zero
    &&& forall|a: T, b: T, r: T| #[trigger] is_sum(a, b, r) ==> r == model.plus(a, b)
    &&& forall|a: T, b: T, r: T| #[trigger] is_product(a, b, r) ==> r == model.times(a, b)
    &&& forall|a: T, b: T, r: T| #[trigger] is_quotient(a, b, r) ==> r == model.over(a, b)
    &&& forall|a: T, r: T| #[trigger] is_negation(a, r) ==> r == model.negated(a)
    &&& forall|a: T, b: T| #[trigger] model.plus(a, b) == model.plus(b, a)
    &&& forall|a: T, b: T, c: T| #[trigger]
        model.plus(model.plus(a, b), c) == model.plus(a, model.plus(b, c))
    &&& forall|a: T| #[trigger] model.plus(a, model.zero) == a
    &&& forall|a: T| #[trigger] model.plus(a, model.negated(a)) == model.zero
    &&& forall|a: T, b: T, c: T| #[trigger]
        model.times(model.plus(a, b), c) == model.plus(model.times(a, c), model.times(b, c))
    &&& forall|a: T, c: T| #[trigger] model.times(a, c) == model.times(c, a)
    &&& forall|a: T, c: T| #[trigger]
        model.times(model.negated(a), c) == model.negated(model.times(a, c))
    &&& forall|a: T, c: T| #[trigger]
        model.over(model.negated(a), c) == model.negated(model.over(a, c))
}

/// What the operations of an exact `T` return is what the model gives.
pub proof fn lemma_exact_relations<T: Scalar>(model: Arithmetic<T>)
    requires
        is_exact(model),
    ensures
        forall|r: T| #[trigger] is_zero(r) ==> r == model.zero,
        forall|a: T, b: T, r: T| #[trigger] is_sum(a, b, r) ==> r == model.plus(a, b),
        forall|a: T, b: T, r: T| #[trigger] is_product(a, b, r) ==> r == model.times(a, b),
        forall|a: T, b: T, r: T| #[trigger] is_quotient(a, b, r) ==> r == model.over(a, b),
        forall|a: T, r: T| #[trigger] is_negation(a, r) ==> r == model.negated(a),
{
    reveal(is_exact);
}

/// `a + b == b + a`.
pub proof fn lemma_sum_commutes<T: Scalar>(model: Arithmetic<T>, a: T, b: T)
    requires
        is_exact(model),
    ensures
        model.plus(a, b) == model.plus(b, a),
{
    reveal(is_exact);
}

/// `(a + b) + c == a + (b + c)`.
pub proof fn lemma_sum_associates<T: Scalar>(model: Arithmetic<T>, a: T, b: T, c: T)
    requires
        is_exact(model),
    ensures
        model.plus(model.plus(a, b), c) == model.plus(a, model.plus(b, c)),
{
    reveal(is_exact);
}

/// `a + 0 == a` and `0 + a == a`.
pub proof fn lemma_sum_with_zero<T: Scalar>(model: Arithmetic<T>, a: T)
    requires
        is_exact(model),
    ensures
        model.plus(a, model.zero) == a,
        model.plus(model.zero, a) == a,
{
    reveal(is_exact);
}

/// `a + (-a) == 0`.
pub proof fn lemma_sum_with_negation<T: Scalar>(model: Arithmetic<T>, a: T)
    requires
        is_exact(model),
    ensures
        model.plus(a, model.negated(a)) == model.zero,
{
    reveal(is_exact);
}

/// `(a + b) * c == a * c + b * c`.
pub proof fn lemma_product_distributes<T: Scalar>(model: Arithmetic<T>, a: T, b: T, c: T)
    requires
        is_exact(model),
    ensures
        model.times(model.plus(a, b), c) == model.plus(model.times(a, c), model.times(b, c)),
{
    reveal(is_exact);
}

/// `(-a) * c == -(a * c)`.
pub proof fn lemma_product_of_negation<T: Scalar>(model: Arithmetic<T>, a: T, c: T)
    requires
        is_exact(model),
    ensures
        model.times(model.negated(a), c) == model.negated(model.times(a, c)),
{
    reveal(is_exact);
}

/// `(-a) / c == -(a / c)`.
pub proof fn lemma_quotient_of_negation<T: Scalar>(model: Arithmetic<T>, a: T, c: T)
    requires
        is_exact(model),
    ensures
        model.over(model.negated(a), c) == model.negated(model.over(a, c)),
{
    reveal(is_exact);
}

/// Where `a + b == 0`, `b` is the negation of `a`.
pub proof fn lemma_negation_is_unique<T: Scalar>(model: Arithmetic<T>, a: T, b: T)
    requires
        is_exact(model),
        model.plus(a, b) == model.zero,
    ensures
        b == model.negated(a),
{
    let n = model.negated(a);
    // b == (n + a) + b == n + (a + b) == n
    lemma_sum_with_negation(model, a);
    lemma_sum_commutes(model, a, n);
    lemma_sum_associates(model, n, a, b);
    lemma_sum_with_zero(model, b);
    lemma_sum_with_zero(model, n);
}

/// `-0 == 0`.
pub proof fn lemma_negation_of_zero<T: Scalar>(model: Arithmetic<T>)
    requires
        is_exact(model),
    ensures
        model.negated(model.zero) == model.zero,
{
    lemma_sum_with_zero(model, model.zero);
    lemma_negation_is_unique(model, model.zero, model.zero);
}

/// `-(-a) == a`.
pub proof fn lemma_negation_of_negation<T: Scalar>(model: Arithmetic<T>, a: T)
    requires
        is_exact(model),
    ensures
        model.negated(model.negated(a)) == a,
{
    lemma_sum_with_negation(model, a);
    lemma_sum_commutes(model, a, model.negated(a));
    lemma_negation_is_unique(model, model.negated(a), a);
}

/// `-(a + b) == (-a) + (-b)`.
pub proof fn lemma_negation_of_sum<T: Scalar>(model: Arithmetic<T>, a: T, b: T)
    requires
        is_exact(model),
    ensures
        model.negated(model.plus(a, b)) == model.plus(model.negated(a), model.negated(b)),
{
    let na = model.negated(a);
    let nb = model.negated(b);
    // (a + b) + (na + nb) == a + (b + (na + nb)) == a + (na + (b + nb)) == a + na == 0
    lemma_sum_associates(model, a, b, model.plus(na, nb));
    lemma_sum_associates(model, b, na, nb);
    lemma_sum_commutes(model, b, na);
    lemma_sum_associates(model, na, b, nb);
    lemma_sum_with_negation(model, b);
    lemma_sum_with_zero(model, na);
    lemma_sum_with_negation(model, a);
    lemma_negation_is_unique(model, model.plus(a, b), model.plus(na, nb));
}

/// `0 * c == 0`.
pub proof fn lemma_product_of_zero<T: Scalar>(model: Arithmetic<T>, c: T)
    requires
        is_exact(model),
    ensures
        model.times(model.zero, c) == model.zero,
{
    let z = model.zero;
    let p = model.times(z, c);
    // p == (0 + 0) * c == p + p, so p == 0
    lemma_sum_with_zero(model, z);
    lemma_product_distributes(model, z, z, c);
    lemma_sum_with_negation(model, p);
    lemma_sum_associates(model, p, p, model.negated(p));
    lemma_sum_with_zero(model, p);
}

/// In exact arithmetic a running sum from zero is the sum.
pub proof fn lemma_running_sum_is_sum<T: Scalar>(model: Arithmetic<T>, z: T, terms: Seq<T>, out: T)
    requires
        is_exact(model),
        is_zero(z),
        is_running_sum(z, terms, out),
    ensures
        out == model.total(terms),
    decreases terms.len(),
{
    lemma_exact_relations(model);
    if terms.len() > 0 {
        let prev = choose|prev: T|
            is_running_sum(z, terms.drop_last(), prev) && is_sum(prev, terms.last(), out);
        lemma_running_sum_is_sum(model, z, terms.drop_last(), prev);
    }
}

/// One more term adds to the sum.
pub proof fn lemma_sum_of_push<T: Scalar>(model: Arithmetic<T>, terms: Seq<T>, term: T)
    ensures
        model.total(terms.push(term)) == model.plus(model.total(terms), term),
{
    assert(terms.push(term).drop_last() =~= terms);
}

/// `c * 0 == 0`.
pub proof fn lemma_product_with_zero<T: Scalar>(model: Arithmetic<T>, c: T)
    requires
        is_exact(model),
    ensures
        model.times(c, model.zero) == model.zero,
{
    lemma_product_of_zero(model, c);
    assert(model.times(c, model.zero) == model.times(model.zero, c)) by {
        reveal(is_exact);
    }
}

/// The sum of zeros is zero.
pub proof fn lemma_sum_of_zeros<T: Scalar>(model: Arithmetic<T>, terms: Seq<T>)
    requires
        is_exact(model),
        forall|i: int| 0 <= i < terms.len() ==> terms[i] == model.zero,
    ensures
        model.total(terms) == model.zero,
    decreases terms.len(),
{
    if terms.len() > 0 {
        lemma_sum_of_zeros(model, terms.drop_last());
        lemma_sum_with_zero(model, model.zero);
    }
}

/// The sum of term-by-term sums is the sum of the two sums.
pub proof fn lemma_sum_of_sums<T: Scalar>(
    model: Arithmetic<T>,
    xs: Seq<T>,
    ys: Seq<T>,
    both: Seq<T>,
)
    requires
        is_exact(model),
        xs.len() == ys.len(),
        both.len() == xs.len(),
        forall|i: int| 0 <= i < both.len() ==> both[i] == model.plus(xs[i], ys[i]),
    ensures
        model.total(both) == model.plus(model.total(xs), model.total(ys)),
    decreases xs.len(),
{
    if xs.len() == 0 {
        lemma_sum_with_zero(model, model.zero);
    } else {
        lemma_sum_of_sums(model, xs.drop_last(), ys.drop_last(), both.drop_last());
        let sx = model.total(xs.drop_last());
        let sy = model.total(ys.drop_last());
        let x = xs.last();
        let y = ys.last();
        // (sx + sy) + (x + y) == (sx + x) + (sy + y)
        lemma_sum_associates(model, sx, sy, model.plus(x, y));
        lemma_sum_associates(model, sy, x, y);
        lemma_sum_commutes(model, sy, x);
        lemma_sum_associates(model, x, sy, y);
        lemma_sum_associates(model, sx, x, model.plus(sy, y));
    }
}

/// The sum of negations is the negation of the sum.
pub proof fn lemma_sum_of_negations<T: Scalar>(model: Arithmetic<T>, xs: Seq<T>, negated: Seq<T>)
    requires
        is_exact(model),
        negated.len() == xs.len(),
        forall|i: int| 0 <= i < xs.len() ==> negated[i] == model.negated(xs[i]),
    ensures
        model.total(negated) == model.negated(model.total(xs)),
    decreases xs.len(),
{
    if xs.len() == 0 {
        lemma_negation_of_zero(model);
    } else {
        lemma_sum_of_negations(model, xs.drop_last(), negated.drop_last());
        lemma_negation_of_sum(model, model.total(xs.drop_last()), xs.last());
    }
}

/// The sum of a sequence that is zero but in one place is what stands there.
pub proof fn lemma_sum_of_spike<T: Scalar>(model: Arithmetic<T>, terms: Seq<T>, place: int)
    requires
        is_exact(model),
        0 <= place < terms.len(),
        forall|i: int| 0 <= i < terms.len() && i != place ==> terms[i] == model.zero,
    ensures
        model.total(terms) == terms[place],
    decreases terms.len(),
{
    let last = terms.len() - 1;
    if place == last {
        lemma_sum_of_zeros(model, terms.drop_last());
        lemma_sum_with_zero(model, terms[place]);
    } else {
        lemma_sum_of_spike(model, terms.drop_last(), place);
        lemma_sum_with_zero(model, terms[place]);
    }
}

} // verus!
