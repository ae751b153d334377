//! The arithmetic that the solver is written against.
use vstd::prelude::*;

verus! {

/// A number as the solver sees it: a value that can be copied, combined with the
/// usual operations, tested, and read from text.
///
/// No law of arithmetic is assumed of an implementation. Wherever the library
/// computes a number, its contract says which operations, on which arguments, gave
/// it; the predicates below name those relations.
pub trait Scalar: Copy {
    /// The additive identity.
    fn zero() -> Self;

    /// The multiplicative identity.
    fn one() -> Self;

    /// `self + rhs`.
    fn plus(self, rhs: Self) -> Self;

    /// `self - rhs`.
    fn minus(self, rhs: Self) -> Self;

    /// `self * rhs`.
    fn times(self, rhs: Self) -> Self;

    /// `self / rhs`.
    fn over(self, rhs: Self) -> Self;

    /// `-self`.
    fn negated(self) -> Self;

    /// The Euclidean length of the planar vector `(self, other)`.
    fn norm(self, other: Self) -> Self;

    /// Whether `self` and `rhs` are the same number.
    fn equals(self, rhs: Self) -> bool;

    /// Whether `self` is strictly greater than `rhs`.
    fn exceeds(self, rhs: Self) -> bool;

    /// Whether `self` is an ordinary number, neither infinite nor undefined.
    fn is_finite(self) -> bool;

    /// Reads a number from its decimal notation; `None` where `text` is no number.
    fn parse(text: &str) -> Option<Self>;
}

/// `r` is a value that `Scalar::zero` returns.
pub open spec fn is_zero<T: Scalar>(r: T) -> bool {
    call_ensures(T::zero, (), r)
}

/// `r` is a value that `Scalar::one` returns.
pub open spec fn is_one<T: Scalar>(r: T) -> bool {
    call_ensures(T::one, (), r)
}

/// `r` is a value that `a.plus(b)` returns.
pub open spec fn is_sum<T: Scalar>(a: T, b: T, r: T) -> bool {
    call_ensures(T::plus, (a, b), r)
}

/// `r` is a value that `a.minus(b)` returns.
pub open spec fn is_difference<T: Scalar>(a: T, b: T, r: T) -> bool {
    call_ensures(T::minus, (a, b), r)
}

/// `r` is a value that `a.times(b)` returns.
pub open spec fn is_product<T: Scalar>(a: T, b: T, r: T) -> bool {
    call_ensures(T::times, (a, b), r)
}

/// `r` is a value that `a.over(b)` returns.
pub open spec fn is_quotient<T: Scalar>(a: T, b: T, r: T) -> bool {
    call_ensures(T::over, (a, b), r)
}

/// `r` is a value that `a.negated()` returns.
pub open spec fn is_negation<T: Scalar>(a: T, r: T) -> bool {
    call_ensures(T::negated, (a,), r)
}

/// `r` is a value that `a.norm(b)` returns.
pub open spec fn is_norm<T: Scalar>(a: T, b: T, r: T) -> bool {
    call_ensures(T::norm, (a, b), r)
}

/// `a.equals(b)` may answer `r`.
pub open spec fn equals_answers<T: Scalar>(a: T, b: T, r: bool) -> bool {
    call_ensures(T::equals, (a, b), r)
}

/// `a.exceeds(b)` may answer `r`.
pub open spec fn exceeds_answers<T: Scalar>(a: T, b: T, r: bool) -> bool {
    call_ensures(T::exceeds, (a, b), r)
}

/// `a.is_finite()` may answer `r`.
pub open spec fn finite_answers<T: Scalar>(a: T, r: bool) -> bool {
    call_ensures(T::is_finite, (a,), r)
}

/// `Scalar::parse` may read `r` from a text whose characters are `text`.
pub open spec fn parse_answers<T: Scalar>(text: Seq<char>, r: Option<T>) -> bool {
    exists|s: &str| s@ == text && call_ensures(T::parse, (s,), r)
}

/// `out` results from adding the `terms`, first to last, onto `start`.
pub open spec fn is_running_sum<T: Scalar>(start: T, terms: Seq<T>, out: T) -> bool
    decreases terms.len(),
{
    if terms.len() == 0 {
        out == start
    } else {
        exists|prev: T|
            #![trigger is_sum(prev, terms.last(), out)]
            is_running_sum(start, terms.drop_last(), prev) && is_sum(prev, terms.last(), out)
    }
}

/// Adding one more term carries a running sum on.
pub proof fn lemma_running_sum_push<T: Scalar>(start: T, terms: Seq<T>, acc: T, term: T, next: T)
    requires
        is_running_sum(start, terms, acc),
        is_sum(acc, term, next),
    ensures
        is_running_sum(start, terms.push(term), next),
{
    let longer = terms.push(term);
    assert(longer.drop_last() =~= terms);
    assert(longer.last() == term);
}

/// Addition in `T` is a function: the same two arguments never give two sums.
pub open spec fn sum_is_function<T: Scalar>() -> bool {
    forall|a: T, b: T, r1: T, r2: T|
        #![trigger is_sum(a, b, r1), is_sum(a, b, r2)]
        is_sum(a, b, r1) && is_sum(a, b, r2) ==> r1 == r2
}

/// Every operation of `T` is a function: the same arguments never give two
/// results.
///
/// The laws that compare two computations ask for this; no function of the
/// library does.
pub open spec fn is_deterministic<T: Scalar>() -> bool {
    &&& sum_is_function::<T>()
    &&& forall|r1: T, r2: T|
        #![trigger is_zero(r1), is_zero(r2)]
        is_zero(r1) && is_zero(r2) ==> r1 == r2
    &&& forall|a: T, b: T, r1: T, r2: T|
        #![trigger is_difference(a, b, r1), is_difference(a, b, r2)]
        is_difference(a, b, r1) && is_difference(a, b, r2) ==> r1 == r2
    &&& forall|a: T, b: T, r1: T, r2: T|
        #![trigger is_product(a, b, r1), is_product(a, b, r2)]
        is_product(a, b, r1) && is_product(a, b, r2) ==> r1 == r2
    &&& forall|a: T, b: T, r1: T, r2: T|
        #![trigger is_quotient(a, b, r1), is_quotient(a, b, r2)]
        is_quotient(a, b, r1) && is_quotient(a, b, r2) ==> r1 == r2
    &&& forall|a: T, b: T, r1: T, r2: T|
        #![trigger is_norm(a, b, r1), is_norm(a, b, r2)]
        is_norm(a, b, r1) && is_norm(a, b, r2) ==> r1 == r2
    &&& forall|a: T, r1: T, r2: T|
        #![trigger is_negation(a, r1), is_negation(a, r2)]
        is_negation(a, r1) && is_negation(a, r2) ==> r1 == r2
    &&& forall|r1: T, r2: T|
        #![trigger is_one(r1), is_one(r2)]
        is_one(r1) && is_one(r2) ==> r1 == r2
    &&& forall|a: T, b: T, r1: bool, r2: bool|
        #![trigger equals_answers(a, b, r1), equals_answers(a, b, r2)]
        equals_answers(a, b, r1) && equals_answers(a, b, r2) ==> r1 == r2
    &&& forall|a: T, b: T, r1: bool, r2: bool|
        #![trigger exceeds_answers(a, b, r1), exceeds_answers(a, b, r2)]
        exceeds_answers(a, b, r1) && exceeds_answers(a, b, r2) ==> r1 == r2
    &&& forall|a: T, r1: bool, r2: bool|
        #![trigger finite_answers(a, r1), finite_answers(a, r2)]
        finite_answers(a, r1) && finite_answers(a, r2) ==> r1 == r2
    &&& forall|text: Seq<char>, r1: Option<T>, r2: Option<T>|
        #![trigger parse_answers(text, r1), parse_answers(text, r2)]
        parse_answers(text, r1) && parse_answers(text, r2) ==> r1 == r2
}

/// Where addition is a function, a running sum has one value.
pub proof fn lemma_running_sum_unique<T: Scalar>(start: T, terms: Seq<T>, out_1: T, out_2: T)
    requires
        sum_is_function::<T>(),
        is_running_sum(start, terms, out_1),
        is_running_sum(start, terms, out_2),
    ensures
        out_1 == out_2,
    decreases terms.len(),
{
    if terms.len() > 0 {
        let prev_1 = choose|prev: T|
            is_running_sum(start, terms.drop_last(), prev) && is_sum(prev, terms.last(), out_1);
        let prev_2 = choose|prev: T|
            is_running_sum(start, terms.drop_last(), prev) && is_sum(prev, terms.last(), out_2);
        lemma_running_sum_unique(start, terms.drop_last(), prev_1, prev_2);
    }
}

} // verus!
