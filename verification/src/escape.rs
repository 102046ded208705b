use vstd::prelude::*;
use crate::color::Color;

verus! {

/// Whether `orbit` starts at `start` and each later point is one that `step`
/// gives for the point before it.
pub open spec fn is_orbit<Z, S: Fn(Z) -> Z>(orbit: Seq<Z>, start: Z, step: S) -> bool {
    &&& orbit.len() >= 1
    &&& orbit[0] == start
    &&& forall|i: int| 0 < i < orbit.len() ==> step.ensures((orbit[i - 1],), #[trigger] orbit[i])
}

/// Whether a bounded iteration from `start` stops after `iter` steps at `last`,
/// having walked `orbit`: every point before the last tested as still bounded,
/// and the last either tested as escaped or was reached with the step budget
/// used up, in which case it is not tested.
pub open spec fn is_escape_run<Z, S: Fn(Z) -> Z, B: Fn(Z) -> bool>(
    orbit: Seq<Z>,
    start: Z,
    max_iter: u32,
    step: S,
    bounded: B,
    iter: u32,
    last: Z,
) -> bool {
    &&& iter <= max_iter
    &&& orbit.len() == iter + 1
    &&& is_orbit(orbit, start, step)
    &&& orbit[iter as int] == last
    &&& forall|i: int| 0 <= i < iter ==> bounded.ensures((#[trigger] orbit[i],), true)
    &&& iter < max_iter ==> bounded.ensures((last,), false)
}

/// Whether `(iter, last)` is an outcome of the bounded iteration.
pub open spec fn escapes_at<Z, S: Fn(Z) -> Z, B: Fn(Z) -> bool>(
    start: Z,
    max_iter: u32,
    step: S,
    bounded: B,
    iter: u32,
    last: Z,
) -> bool {
    exists|orbit: Seq<Z>| is_escape_run(orbit, start, max_iter, step, bounded, iter, last)
}

/// Runs the bounded iteration: from `start`, while fewer than `max_iter`
/// steps are done and the current point tests as bounded, replaces the point
/// by its successor.  Returns the number of steps done and the point reached.
pub fn escape_time<Z: Copy, S: Fn(Z) -> Z, B: Fn(Z) -> bool>(
    start: Z,
    max_iter: u32,
    step: &S,
    bounded: &B,
) -> (out: (u32, Z))
    requires
        forall|z: Z| step.requires((z,)),
        forall|z: Z| bounded.requires((z,)),
    ensures
        escapes_at(start, max_iter, *step, *bounded, out.0, out.1),
{
    let mut z: Z = start;
    let mut iter: u32 = 0;
    let ghost mut orbit: Seq<Z> = seq![start];
    loop
        invariant
            forall|z: Z| step.requires((z,)),
            forall|z: Z| bounded.requires((z,)),
            iter <= max_iter,
            orbit.len() == iter + 1,
            is_orbit(orbit, start, *step),
            orbit[iter as int] == z,
            forall|i: int| 0 <= i < iter ==> bounded.ensures((#[trigger] orbit[i],), true),
        ensures
            is_escape_run(orbit, start, max_iter, *step, *bounded, iter, z),
        decreases max_iter - iter,
    {
        if iter >= max_iter {
            break;
        }
        if !bounded(z) {
            break;
        }
        let next = step(z);
        proof {
            let ghost walked = orbit;
            orbit = orbit.push(next);
            assert forall|i: int| 0 < i < orbit.len() implies step.ensures(
                (orbit[i - 1],),
                #[trigger] orbit[i],
            ) by {
                if i < walked.len() {
                    assert(orbit[i] == walked[i]);
                    assert(orbit[i - 1] == walked[i - 1]);
                }
            }
            assert forall|i: int| 0 <= i < iter + 1 implies bounded.ensures(
                (#[trigger] orbit[i],),
                true,
            ) by {
                if i < iter {
                    assert(orbit[i] == walked[i]);
                }
            }
        }
        z = next;
        iter = iter + 1;
    }
    (iter, z)
}

/// Whether `color` is a colour of the outcome `(iter, last)`: black where the
/// step budget was used up, else one that `paint` gives for the outcome.
pub open spec fn is_color_of_outcome<Z, P: Fn(u32, Z) -> Color>(
    max_iter: u32,
    paint: P,
    iter: u32,
    last: Z,
    color: Color,
) -> bool {
    if iter >= max_iter {
        color == Color::black()
    } else {
        paint.ensures((iter, last), color)
    }
}

/// Colours the outcome of a bounded iteration: a point that used up the step
/// budget counts as inside and is black; an escaped one is handed to `paint`
/// with its step count.
pub fn color_of_outcome<Z: Copy, P: Fn(u32, Z) -> Color>(
    max_iter: u32,
    paint: &P,
    iter: u32,
    last: Z,
) -> (color: Color)
    requires
        forall|i: u32, z: Z| i < max_iter ==> paint.requires((i, z)),
    ensures
        is_color_of_outcome(max_iter, *paint, iter, last, color),
{
    if iter >= max_iter {
        Color::black()
    } else {
        paint(iter, last)
    }
}

/// Colour of the point whose iteration starts at `start`: runs the bounded
/// iteration and colours its outcome.
pub fn mandelbrot_color<Z: Copy, S: Fn(Z) -> Z, B: Fn(Z) -> bool, P: Fn(u32, Z) -> Color>(
    start: Z,
    max_iter: u32,
    step: &S,
    bounded: &B,
    paint: &P,
) -> (color: Color)
    requires
        forall|z: Z| step.requires((z,)),
        forall|z: Z| bounded.requires((z,)),
        forall|i: u32, z: Z| i < max_iter ==> paint.requires((i, z)),
    ensures
        exists|iter: u32, last: Z|
            #![trigger is_color_of_outcome(max_iter, *paint, iter, last, color)]
            escapes_at(start, max_iter, *step, *bounded, iter, last) && is_color_of_outcome(
                max_iter,
                *paint,
                iter,
                last,
                color,
            ),
{
    let (iter, last) = escape_time(start, max_iter, step, bounded);
    let color = color_of_outcome(max_iter, paint, iter, last);
    assert(escapes_at(start, max_iter, *step, *bounded, iter, last) && is_color_of_outcome(
        max_iter,
        *paint,
        iter,
        last,
        color,
    ));
    color
}

/// Where the test never reports an escape, the iteration uses up its step
/// budget.
pub proof fn lemma_bounded_orbit_runs_out<Z, S: Fn(Z) -> Z, B: Fn(Z) -> bool>(
    start: Z,
    max_iter: u32,
    step: S,
    bounded: B,
    iter: u32,
    last: Z,
)
    requires
        forall|z: Z| !bounded.ensures((z,), false),
        escapes_at(start, max_iter, step, bounded, iter, last),
    ensures
        iter == max_iter,
{
}

/// Where the test never reports an escape, the point is black.
pub proof fn lemma_bounded_orbit_is_black<
    Z,
    S: Fn(Z) -> Z,
    B: Fn(Z) -> bool,
    P: Fn(u32, Z) -> Color,
>(start: Z, max_iter: u32, step: S, bounded: B, paint: P, iter: u32, last: Z, color: Color)
    requires
        forall|z: Z| !bounded.ensures((z,), false),
        escapes_at(start, max_iter, step, bounded, iter, last),
        is_color_of_outcome(max_iter, paint, iter, last, color),
    ensures
        color == Color::black(),
{
    lemma_bounded_orbit_runs_out(start, max_iter, step, bounded, iter, last);
}

/// The step count of an outcome is fixed by the orbit: where `step` and the
/// test give one result only for each point, two runs from one start stop
/// after the same number of steps at the same point.
pub proof fn lemma_outcome_is_determined<Z, S: Fn(Z) -> Z, B: Fn(Z) -> bool>(
    start: Z,
    max_iter: u32,
    step: S,
    bounded: B,
    iter_a: u32,
    last_a: Z,
    iter_b: u32,
    last_b: Z,
)
    requires
        forall|z: Z, p: Z, q: Z| step.ensures((z,), p) && step.ensures((z,), q) ==> p == q,
        forall|z: Z| !(bounded.ensures((z,), true) && bounded.ensures((z,), false)),
        escapes_at(start, max_iter, step, bounded, iter_a, last_a),
        escapes_at(start, max_iter, step, bounded, iter_b, last_b),
    ensures
        iter_a == iter_b,
        last_a == last_b,
{
    let oa = choose|o: Seq<Z>| is_escape_run(o, start, max_iter, step, bounded, iter_a, last_a);
    let ob = choose|o: Seq<Z>| is_escape_run(o, start, max_iter, step, bounded, iter_b, last_b);
    lemma_orbits_agree(oa, ob, start, step, if iter_a <= iter_b { iter_a as int } else { iter_b as int });
    if iter_a < iter_b {
        assert(bounded.ensures((ob[iter_a as int],), true));
        assert(bounded.ensures((last_a,), false));
    } else if iter_b < iter_a {
        assert(bounded.ensures((oa[iter_b as int],), true));
        assert(bounded.ensures((last_b,), false));
    }
}

/// Two orbits of a single-valued `step` from one start agree as far as both go.
proof fn lemma_orbits_agree<Z, S: Fn(Z) -> Z>(a: Seq<Z>, b: Seq<Z>, start: Z, step: S, upto: int)
    requires
        forall|z: Z, p: Z, q: Z| step.ensures((z,), p) && step.ensures((z,), q) ==> p == q,
        is_orbit(a, start, step),
        is_orbit(b, start, step),
        0 <= upto < a.len(),
        upto < b.len(),
    ensures
        forall|i: int| 0 <= i <= upto ==> a[i] == b[i],
    decreases upto,
{
    if upto > 0 {
        lemma_orbits_agree(a, b, start, step, upto - 1);
        assert(a[upto - 1] == b[upto - 1]);
        assert(step.ensures((a[upto - 1],), a[upto]));
        assert(step.ensures((b[upto - 1],), b[upto]));
    }
}

} // verus!
