//! The stiffness of one bar in global coordinates.
use vstd::prelude::*;
use crate::error::TrussError;
use crate::input::keypoint::Keypoint;
use crate::matrix::{is_square, Matrix};
use crate::scalar::{
    equals_answers, finite_answers, is_deterministic, is_difference, is_negation, is_norm,
    is_product, is_quotient, is_zero, Scalar,
};

verus! {

/// `dx` and `dy` lead from `kp_1` to `kp_2`, and `len` is the length of that step.
pub open spec fn is_bar_span<T: Scalar>(
    kp_1: Keypoint<T>,
    kp_2: Keypoint<T>,
    dx: T,
    dy: T,
    len: T,
) -> bool {
    &&& is_difference(kp_2.x, kp_1.x, dx)
    &&& is_difference(kp_2.y, kp_1.y, dy)
    &&& is_norm(dx, dy, len)
}

/// `verdict` tells whether a bar of length `len` is unusable: whether `len` was
/// found equal to zero, or not finite.
pub open spec fn is_degenerate_verdict<T: Scalar>(len: T, verdict: bool) -> bool {
    exists|z: T, vanishes: bool, finite: bool|
        is_zero(z) && #[trigger] equals_answers(len, z, vanishes) && #[trigger] finite_answers(
            len,
            finite,
        ) && verdict == (vanishes || !finite)
}

/// `out` is `u * w * e * a / len`, taken from left to right.
pub open spec fn is_stiffness_term<T: Scalar>(u: T, w: T, e: T, a: T, len: T, out: T) -> bool {
    exists|uw: T, uwe: T, uwea: T|
        #![trigger is_product(uw, e, uwe), is_product(uwe, a, uwea)]
        is_product(u, w, uw) && is_product(uw, e, uwe) && is_product(uwe, a, uwea) && is_quotient(
            uwea,
            len,
            out,
        )
}

/// `k` is the stiffness matrix, ordered (first end x, first end y, second end x,
/// second end y), of a bar of length `len` with direction cosines `c` and `s`, whose
/// negations are `nc` and `ns`, modulus `e` and cross section `a`:
///
/// ```text
///            |  cc   cs  -cc  -cs |
///  e*a/len * |  cs   ss  -cs  -ss |
///            | -cc  -cs   cc   cs |
///            | -cs  -ss   cs   ss |
/// ```
///
/// Six entries are computed, each as a product of two cosines scaled by
/// `e * a / len`; the other ten repeat them.
pub open spec fn is_bar_matrix<T: Scalar>(
    k: Seq<Seq<T>>,
    c: T,
    s: T,
    nc: T,
    ns: T,
    e: T,
    a: T,
    len: T,
) -> bool {
    &&& is_square(k, 4)
    &&& is_stiffness_term(c, c, e, a, len, k[0][0])
    &&& is_stiffness_term(c, s, e, a, len, k[0][1])
    &&& is_stiffness_term(s, s, e, a, len, k[1][1])
    &&& is_stiffness_term(nc, c, e, a, len, k[0][2])
    &&& is_stiffness_term(nc, s, e, a, len, k[0][3])
    &&& is_stiffness_term(ns, s, e, a, len, k[1][3])
    &&& k[1][0] == k[0][1]
    &&& k[1][2] == k[0][3]
    &&& k[2][0] == k[0][2]
    &&& k[2][1] == k[0][3]
    &&& k[2][2] == k[0][0]
    &&& k[2][3] == k[0][1]
    &&& k[3][0] == k[0][3]
    &&& k[3][1] == k[1][3]
    &&& k[3][2] == k[0][1]
    &&& k[3][3] == k[1][1]
}

/// `k` is the stiffness matrix of the bar from `kp_1` to `kp_2`, which has a
/// usable length.
pub open spec fn is_local_bar_matrix<T: Scalar>(
    kp_1: Keypoint<T>,
    kp_2: Keypoint<T>,
    e_module: T,
    area: T,
    k: Seq<Seq<T>>,
) -> bool {
    exists|dx: T, dy: T, len: T, c: T, s: T, nc: T, ns: T| #[trigger]
        is_bar_derivation(kp_1, kp_2, e_module, area, dx, dy, len, c, s, nc, ns, k)
}

/// `k` is derived for the bar from `kp_1` to `kp_2` by way of the step `(dx, dy)`
/// between its ends, its length `len`, which is usable, its direction cosines `c`
/// and `s`, and their negations `nc` and `ns`.
pub open spec fn is_bar_derivation<T: Scalar>(
    kp_1: Keypoint<T>,
    kp_2: Keypoint<T>,
    e_module: T,
    area: T,
    dx: T,
    dy: T,
    len: T,
    c: T,
    s: T,
    nc: T,
    ns: T,
    k: Seq<Seq<T>>,
) -> bool {
    &&& is_bar_span(kp_1, kp_2, dx, dy, len)
    &&& is_degenerate_verdict(len, false)
    &&& is_quotient(dx, len, c)
    &&& is_quotient(dy, len, s)
    &&& is_negation(c, nc)
    &&& is_negation(s, ns)
    &&& is_bar_matrix(k, c, s, nc, ns, e_module, area, len)
}

/// The bar from `kp_1` to `kp_2` was found to have no usable length.
pub open spec fn is_degenerate_bar<T: Scalar>(kp_1: Keypoint<T>, kp_2: Keypoint<T>) -> bool {
    exists|dx: T, dy: T, len: T| #[trigger]
        is_bar_span(kp_1, kp_2, dx, dy, len) && is_degenerate_verdict(len, true)
}

/// The stiffness matrix of a bar equals its transpose.
pub proof fn lemma_bar_matrix_is_symmetric<T: Scalar>(
    kp_1: Keypoint<T>,
    kp_2: Keypoint<T>,
    e_module: T,
    area: T,
    k: Seq<Seq<T>>,
)
    requires
        is_local_bar_matrix(kp_1, kp_2, e_module, area, k),
    ensures
        is_square(k, 4),
        forall|a: int, b: int| 0 <= a < 4 && 0 <= b < 4 ==> k[a][b] == k[b][a],
{
}

/// Where the operations of `T` are functions, a length is found usable or not,
/// never both.
pub proof fn lemma_degenerate_verdict_is_unique<T: Scalar>(len: T, verdict_1: bool, verdict_2: bool)
    requires
        is_deterministic::<T>(),
        is_degenerate_verdict(len, verdict_1),
        is_degenerate_verdict(len, verdict_2),
    ensures
        verdict_1 == verdict_2,
{
}

/// Where the operations of `T` are functions, no bar both has a stiffness matrix
/// and is found to have no usable length.
pub proof fn lemma_bar_is_sound_or_degenerate<T: Scalar>(
    kp_1: Keypoint<T>,
    kp_2: Keypoint<T>,
    e_module: T,
    area: T,
    k: Seq<Seq<T>>,
)
    requires
        is_deterministic::<T>(),
        is_local_bar_matrix(kp_1, kp_2, e_module, area, k),
    ensures
        !is_degenerate_bar(kp_1, kp_2),
{
    if is_degenerate_bar(kp_1, kp_2) {
        let (dx, dy, len, c, s, nc, ns) = choose|dx: T, dy: T, len: T, c: T, s: T, nc: T, ns: T|
            #![trigger is_bar_derivation(kp_1, kp_2, e_module, area, dx, dy, len, c, s, nc, ns, k)]
            is_bar_derivation(kp_1, kp_2, e_module, area, dx, dy, len, c, s, nc, ns, k);
        let (dx2, dy2, len2) = choose|dx: T, dy: T, len: T| #[trigger]
            is_bar_span(kp_1, kp_2, dx, dy, len) && is_degenerate_verdict(len, true);
        assert(dx == dx2);
        assert(dy == dy2);
        assert(len == len2);
        lemma_degenerate_verdict_is_unique(len, false, true);
    }
}

/// Where the operations of `T` are functions, a stiffness term has one value.
proof fn lemma_stiffness_term_unique<T: Scalar>(u: T, w: T, e: T, a: T, len: T, out_1: T, out_2: T)
    requires
        is_deterministic::<T>(),
        is_stiffness_term(u, w, e, a, len, out_1),
        is_stiffness_term(u, w, e, a, len, out_2),
    ensures
        out_1 == out_2,
{
    let (uw, uwe, uwea) = choose|uw: T, uwe: T, uwea: T|
        #![trigger is_product(uw, e, uwe), is_product(uwe, a, uwea)]
        is_product(u, w, uw) && is_product(uw, e, uwe) && is_product(uwe, a, uwea) && is_quotient(
            uwea,
            len,
            out_1,
        );
    let (uw_2, uwe_2, uwea_2) = choose|uw: T, uwe: T, uwea: T|
        #![trigger is_product(uw, e, uwe), is_product(uwe, a, uwea)]
        is_product(u, w, uw) && is_product(uw, e, uwe) && is_product(uwe, a, uwea) && is_quotient(
            uwea,
            len,
            out_2,
        );
    assert(uw == uw_2);
    assert(uwe == uwe_2);
    assert(uwea == uwea_2);
}

/// Where the operations of `T` are functions, a bar has one stiffness matrix.
pub proof fn lemma_bar_matrix_is_unique<T: Scalar>(
    kp_1: Keypoint<T>,
    kp_2: Keypoint<T>,
    e_module: T,
    area: T,
    k_1: Seq<Seq<T>>,
    k_2: Seq<Seq<T>>,
)
    requires
        is_deterministic::<T>(),
        is_local_bar_matrix(kp_1, kp_2, e_module, area, k_1),
        is_local_bar_matrix(kp_1, kp_2, e_module, area, k_2),
    ensures
        k_1 == k_2,
{
    let (dx, dy, len, c, s, nc, ns) = choose|dx: T, dy: T, len: T, c: T, s: T, nc: T, ns: T|
        #![trigger is_bar_derivation(kp_1, kp_2, e_module, area, dx, dy, len, c, s, nc, ns, k_1)]
        is_bar_derivation(kp_1, kp_2, e_module, area, dx, dy, len, c, s, nc, ns, k_1);
    let (dx2, dy2, len2, c2, s2, nc2, ns2) = choose|
        dx: T,
        dy: T,
        len: T,
        c: T,
        s: T,
        nc: T,
        ns: T,
    |
        #![trigger is_bar_derivation(kp_1, kp_2, e_module, area, dx, dy, len, c, s, nc, ns, k_2)]
        is_bar_derivation(kp_1, kp_2, e_module, area, dx, dy, len, c, s, nc, ns, k_2);
    assert(dx == dx2);
    assert(dy == dy2);
    assert(len == len2);
    assert(c == c2);
    assert(s == s2);
    assert(nc == nc2);
    assert(ns == ns2);
    lemma_stiffness_term_unique(c, c, e_module, area, len, k_1[0][0], k_2[0][0]);
    lemma_stiffness_term_unique(c, s, e_module, area, len, k_1[0][1], k_2[0][1]);
    lemma_stiffness_term_unique(s, s, e_module, area, len, k_1[1][1], k_2[1][1]);
    lemma_stiffness_term_unique(nc, c, e_module, area, len, k_1[0][2], k_2[0][2]);
    lemma_stiffness_term_unique(nc, s, e_module, area, len, k_1[0][3], k_2[0][3]);
    lemma_stiffness_term_unique(ns, s, e_module, area, len, k_1[1][3], k_2[1][3]);
    assert forall|a: int| 0 <= a < 4 implies k_1[a] =~= k_2[a] by {
        assert(k_1[a].len() == 4 && k_2[a].len() == 4);
    }
    assert(k_1 =~= k_2);
}

/// `u * w * e * a / len`, taken from left to right.
fn stiffness_term<T: Scalar>(u: T, w: T, e: T, a: T, len: T) -> (out: T)
    ensures
        is_stiffness_term(u, w, e, a, len, out),
{
    let uw = u.times(w);
    let uwe = uw.times(e);
    let uwea = uwe.times(a);
    let out = uwea.over(len);
    assert(is_product(u, w, uw) && is_product(uw, e, uwe) && is_product(uwe, a, uwea));
    assert(is_quotient(uwea, len, out));
    out
}

/// The 4 by 4 stiffness matrix, in global coordinates, of the bar between `kp_1`
/// and `kp_2` with modulus `e_module` and cross section `area`.
///
/// Fails with `DegenerateGeometry`, naming `kp_1`, exactly when the bar's length
/// is found to be zero or not finite.
pub fn local_bar_matrix<T: Scalar>(
    kp_1: &Keypoint<T>,
    kp_2: &Keypoint<T>,
    e_module: T,
    area: T,
) -> (result: Result<Matrix<T>, TrussError>)
    ensures
        match result {
            Ok(k) => is_local_bar_matrix(*kp_1, *kp_2, e_module, area, k@),
            Err(TrussError::DegenerateGeometry(name)) => is_degenerate_bar(*kp_1, *kp_2) && name@
                == kp_1.name@,
            Err(_) => false,
        },
{
    let dx = kp_2.x.minus(kp_1.x);
    let dy = kp_2.y.minus(kp_1.y);
    let len = dx.norm(dy);
    assert(is_bar_span(*kp_1, *kp_2, dx, dy, len));
    let z = T::zero();
    let vanishes = len.equals(z);
    let finite = len.is_finite();
    assert(is_zero(z) && equals_answers(len, z, vanishes) && finite_answers(len, finite));
    if vanishes || !finite {
        assert(is_degenerate_verdict(len, true));
        return Err(TrussError::DegenerateGeometry(kp_1.name.clone()));
    }
    assert(is_degenerate_verdict(len, false));
    let c = dx.over(len);
    let s = dy.over(len);
    let nc = c.negated();
    let ns = s.negated();
    let cc = stiffness_term(c, c, e_module, area, len);
    let cs = stiffness_term(c, s, e_module, area, len);
    let ss = stiffness_term(s, s, e_module, area, len);
    let ncc = stiffness_term(nc, c, e_module, area, len);
    let ncs = stiffness_term(nc, s, e_module, area, len);
    let nss = stiffness_term(ns, s, e_module, area, len);
    let mut k = Matrix::filled(4, cc);
    k.set(0, 1, cs);
    k.set(0, 2, ncc);
    k.set(0, 3, ncs);
    k.set(1, 0, cs);
    k.set(1, 1, ss);
    k.set(1, 2, ncs);
    k.set(1, 3, nss);
    k.set(2, 0, ncc);
    k.set(2, 1, ncs);
    k.set(2, 3, cs);
    k.set(3, 0, ncs);
    k.set(3, 1, nss);
    k.set(3, 2, cs);
    k.set(3, 3, ss);
    assert(is_bar_derivation(*kp_1, *kp_2, e_module, area, dx, dy, len, c, s, nc, ns, k@));
    Ok(k)
}

} // verus!
