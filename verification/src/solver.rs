//! The scaffold that the three moving least squares deformations share:
//! weigh the control points, return the matching destination point when the
//! query coincides with a control point, and otherwise hand over to the solve
//! of the transform kind.
//!
//! Points are values of any type `C`, weights of any type `W`. The
//! arithmetic comes in as functions: `weight` gives a control point's weight
//! for a query, `sum` adds weights up, `is_infinite` tells an infinite weight,
//! and `finish` solves for the deformed point.

use vstd::prelude::*;
use crate::controls::{WarpError, check_controls, controls_error};

verus! {

/// Whether `j` is the first index at which `flags` holds `true`.
pub open spec fn is_first_set(flags: Seq<bool>, j: int) -> bool {
    &&& 0 <= j < flags.len()
    &&& flags[j]
    &&& forall|k: int| 0 <= k < j ==> !flags[k]
}

/// Whether `flags` holds `true` nowhere.
pub open spec fn none_set(flags: Seq<bool>) -> bool {
    forall|k: int| 0 <= k < flags.len() ==> !flags[k]
}

/// Whether a query coincides with a control point: the sum of its weights is
/// infinite, and so is one of the weights.
pub open spec fn coincides(degenerate: bool, infinite: Seq<bool>) -> bool {
    degenerate && !none_set(infinite)
}

/// At most one index is the first at which `flags` holds `true`: a query that
/// coincides with control point `i`, and with none before it, is matched to
/// `i` and to no other.
pub proof fn lemma_first_set_is_unique(flags: Seq<bool>, i: int, j: int)
    requires
        is_first_set(flags, i),
        is_first_set(flags, j),
    ensures
        i == j,
{
}

/// The control point that a query coincides with.
///
/// A control point at zero distance from the query has an infinite weight, and
/// then the sum of all weights is infinite too. `infinite` says of each
/// control point whether its weight is infinite, `degenerate` whether the sum
/// is. When the sum is infinite, the first control point with an infinite
/// weight is the match. When the sum is finite, or no single weight is
/// infinite, there is no match.
pub fn coincident_control(degenerate: bool, infinite: &[bool]) -> (r: Option<usize>)
    ensures
        r is Some <==> coincides(degenerate, infinite@),
        r matches Some(j) ==> is_first_set(infinite@, j as int),
{
    if !degenerate {
        return None;
    }
    let mut j: usize = 0;
    while j < infinite.len()
        invariant
            degenerate,
            j <= infinite@.len(),
            forall|k: int| 0 <= k < j ==> !infinite@[k],
        decreases infinite@.len() - j,
    {
        if infinite[j] {
            return Some(j);
        }
        j += 1;
    }
    None
}

/// Whether `out` is a point that the deformation may return for the query
/// `point` once the weights `w_all`, their sum `w_sum`, the verdict
/// `degenerate` on the sum and the verdicts `infinite` on the weights are
/// known.
///
/// When the query coincides with a control point, the result is the
/// destination point of the first control point with an infinite weight, as
/// it is. In every other case the result is what `finish` returns.
pub open spec fn resolves<C, W, T>(
    controls_p: &[C],
    controls_q: &[C],
    point: &C,
    w_all: &[W],
    w_sum: W,
    degenerate: bool,
    infinite: Seq<bool>,
    finish: T,
    out: C,
) -> bool where T: Fn(&[C], &[C], &C, &[W], &W) -> C {
    if coincides(degenerate, infinite) {
        exists|j: int| #[trigger] is_first_set(infinite, j) && out == controls_q@[j]
    } else {
        call_ensures(finish, (controls_p, controls_q, point, w_all, &w_sum), out)
    }
}

/// Decides the result of a deformation from the weights, their sum and the
/// verdicts on them: the destination point of the first control point with an
/// infinite weight when the query coincides with one, else the solve of the
/// transform kind.
pub fn resolve<C: Copy, W, T>(
    controls_p: &[C],
    controls_q: &[C],
    point: &C,
    w_all: &[W],
    w_sum: W,
    degenerate: bool,
    infinite: &[bool],
    finish: &T,
) -> (out: C) where T: Fn(&[C], &[C], &C, &[W], &W) -> C
    requires
        coincides(degenerate, infinite@) ==> infinite@.len() == controls_q@.len(),
        !coincides(degenerate, infinite@) ==> call_requires(
            *finish,
            (controls_p, controls_q, point, w_all, &w_sum),
        ),
    ensures
        resolves(
            controls_p,
            controls_q,
            point,
            w_all,
            w_sum,
            degenerate,
            infinite@,
            *finish,
            out,
        ),
{
    match coincident_control(degenerate, infinite) {
        Some(index) => controls_q[index],
        None => finish(controls_p, controls_q, point, w_all, &w_sum),
    }
}

/// A query that coincides with control point `i`, and with no control point
/// before it, is moved to the destination point `i` exactly: when the sum of
/// the weights is infinite and the weight at `i` is the first infinite one,
/// the deformation returns `controls_q[i]`, whatever `finish` would compute.
pub proof fn lemma_coincident_query_is_exact<C, W, T>(
    controls_p: &[C],
    controls_q: &[C],
    point: &C,
    w_all: &[W],
    w_sum: W,
    infinite: Seq<bool>,
    finish: T,
    i: int,
    out: C,
) where T: Fn(&[C], &[C], &C, &[W], &W) -> C
    requires
        is_first_set(infinite, i),
        resolves(controls_p, controls_q, point, w_all, w_sum, true, infinite, finish, out),
    ensures
        out == controls_q@[i],
{
    let j = choose|j: int| #[trigger] is_first_set(infinite, j) && out == controls_q@[j];
    lemma_first_set_is_unique(infinite, i, j);
}

/// Whether `w_all` holds one weight per control point, each a value that
/// `weight` returns for the query `point` and that control point.
pub open spec fn weighs<C, W, K>(
    w_all: &[W],
    controls_p: &[C],
    point: &C,
    weight: K,
) -> bool where K: Fn(&C, &C) -> W {
    &&& w_all@.len() == controls_p@.len()
    &&& forall|i: int|
        0 <= i < w_all@.len() ==> call_ensures(
            weight,
            (point, &controls_p@[i]),
            #[trigger] w_all@[i],
        )
}

/// Whether `infinite` holds one verdict per weight, each a value that
/// `is_infinite` returns for that weight.
pub open spec fn judges<W, I>(infinite: Seq<bool>, w_all: &[W], is_infinite: I) -> bool where
    I: Fn(&W) -> bool,
 {
    &&& infinite.len() == w_all@.len()
    &&& forall|k: int|
        0 <= k < infinite.len() ==> call_ensures(
            is_infinite,
            (&w_all@[k],),
            #[trigger] infinite[k],
        )
}

/// Asks `is_infinite` about every weight.
pub fn judge<W, I>(w_all: &[W], is_infinite: &I) -> (infinite: Vec<bool>) where I: Fn(&W) -> bool
    requires
        forall|w: W| call_requires(*is_infinite, (&w,)),
    ensures
        judges(infinite@, w_all, *is_infinite),
{
    let mut infinite: Vec<bool> = Vec::new();
    let mut k: usize = 0;
    while k < w_all.len()
        invariant
            k <= w_all@.len(),
            infinite@.len() == k,
            forall|w: W| call_requires(*is_infinite, (&w,)),
            forall|i: int|
                0 <= i < k ==> call_ensures(
                    *is_infinite,
                    (&w_all@[i],),
                    #[trigger] infinite@[i],
                ),
        decreases w_all@.len() - k,
    {
        let verdict = is_infinite(&w_all[k]);
        infinite.push(verdict);
        k += 1;
    }
    infinite
}

/// Whether `out` is a point that the deformation may return for the query
/// `point`: there are weights of the control points, a sum of them, a verdict
/// on the sum and, when the sum is infinite, verdicts on the weights, from
/// which `out` results.
pub open spec fn deforms_to<C, W, K, S, I, T>(
    controls_p: &[C],
    controls_q: &[C],
    point: &C,
    weight: K,
    sum: S,
    is_infinite: I,
    finish: T,
    out: C,
) -> bool where
    K: Fn(&C, &C) -> W,
    S: Fn(&[W]) -> W,
    I: Fn(&W) -> bool,
    T: Fn(&[C], &[C], &C, &[W], &W) -> C,
 {
    exists|w_all: &[W], w_sum: W, degenerate: bool, infinite: Seq<bool>|
        {
            &&& weighs(w_all, controls_p, point, weight)
            &&& call_ensures(sum, (w_all,), w_sum)
            &&& call_ensures(is_infinite, (&w_sum,), degenerate)
            &&& degenerate ==> judges(infinite, w_all, is_infinite)
            &&& #[trigger] resolves(
                controls_p,
                controls_q,
                point,
                w_all,
                w_sum,
                degenerate,
                infinite,
                finish,
                out,
            )
        }
}

/// Move a given point from its position to its new position according to
/// the deformation that takes the control points `controls_p` to their
/// displaced locations `controls_q`.
///
/// The weight of a control point depends on its distance to the query and
/// goes to infinity as the query approaches it. A query that coincides with a
/// control point is moved to that control point's displaced location exactly;
/// if it coincides with several, the first one wins. Every other query is
/// moved by the estimated transformation, which `finish` solves for.
///
/// Control sets of different lengths, and empty ones, are refused before
/// anything is computed.
pub fn deform<C: Copy, W, K, S, I, T>(
    controls_p: &[C],
    controls_q: &[C],
    point: &C,
    weight: &K,
    sum: &S,
    is_infinite: &I,
    finish: &T,
) -> (r: Result<C, WarpError>) where
    K: Fn(&C, &C) -> W,
    S: Fn(&[W]) -> W,
    I: Fn(&W) -> bool,
    T: Fn(&[C], &[C], &C, &[W], &W) -> C,

    requires
        forall|p: C| call_requires(*weight, (point, &p)),
        forall|w_all: &[W]| call_requires(*sum, (w_all,)),
        forall|w: W| call_requires(*is_infinite, (&w,)),
        forall|w_all: &[W], w_sum: W|
            call_requires(*finish, (controls_p, controls_q, point, w_all, &w_sum)),
    ensures
        match controls_error(controls_p@.len(), controls_q@.len()) {
            Some(e) => r == Err::<C, WarpError>(e),
            None => r matches Ok(out) && deforms_to(
                controls_p,
                controls_q,
                point,
                *weight,
                *sum,
                *is_infinite,
                *finish,
                out,
            ),
        },
{
    match check_controls(controls_p.len(), controls_q.len()) {
        Err(e) => {
            return Err(e);
        },
        Ok(()) => {},
    }
    // The weight of a given control point depends on its distance to the current point.
    let mut weights: Vec<W> = Vec::new();
    let mut i: usize = 0;
    while i < controls_p.len()
        invariant
            i <= controls_p@.len(),
            weights@.len() == i,
            forall|p: C| call_requires(*weight, (point, &p)),
            forall|k: int|
                0 <= k < i ==> call_ensures(
                    *weight,
                    (point, &controls_p@[k]),
                    #[trigger] weights@[k],
                ),
        decreases controls_p@.len() - i,
    {
        let w = weight(point, &controls_p[i]);
        weights.push(w);
        i += 1;
    }
    let w_all = weights.as_slice();
    let w_sum = sum(w_all);
    let degenerate = is_infinite(&w_sum);
    // Most probably, at least one of the weights is infinite when their sum is,
    // because the point coincides with a control point.
    let infinite = if degenerate {
        judge(w_all, is_infinite)
    } else {
        Vec::new()
    };
    let out = resolve(
        controls_p,
        controls_q,
        point,
        w_all,
        w_sum,
        degenerate,
        infinite.as_slice(),
        finish,
    );
    Ok(out)
}

} // verus!
