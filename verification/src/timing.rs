//! Time spans and frame targets.
//!
//! A point in time is the span since the epoch of the clock it was read from.

use vstd::prelude::*;

verus! {

/// A span of time in nanoseconds.
pub type Nanos = u128;

/// The longest span: the largest number of whole seconds a `u64` holds, and
/// 999 999 999 nanoseconds.
pub const MAX_NANOS: u128 = 18446744073709551615999999999;

pub const NANOS_PER_SECOND: u128 = 1000000000;

pub const NANOS_PER_MILLI: u128 = 1000000;

/// The sum of two spans, held at the longest one.
pub open spec fn saturating_sum(a: Nanos, b: Nanos) -> Nanos {
    if a + b > MAX_NANOS {
        MAX_NANOS
    } else {
        (a + b) as Nanos
    }
}

/// The span from `earlier` to `later`, or zero when `earlier` is not earlier.
pub open spec fn span_between(later: Nanos, earlier: Nanos) -> Nanos {
    if later < earlier {
        0
    } else {
        (later - earlier) as Nanos
    }
}

pub fn saturating_add(a: Nanos, b: Nanos) -> (r: Nanos)
    ensures
        r == saturating_sum(a, b),
{
    if b > MAX_NANOS || a > MAX_NANOS - b {
        MAX_NANOS
    } else {
        a + b
    }
}

pub fn elapsed_between(later: Nanos, earlier: Nanos) -> (r: Nanos)
    ensures
        r == span_between(later, earlier),
{
    if later < earlier {
        0
    } else {
        later - earlier
    }
}

/// A predicted target that lies more than one frame before the fallback is stale.
pub open spec fn is_stale_target(target: Nanos, fallback: Nanos, frame_duration: Nanos) -> bool {
    target < span_between(fallback, frame_duration)
}

/// The time the next frame aims at, and whether a stale prediction was dropped for it.
///
/// Without a prediction, or with a stale one, the frame aims at the fallback.
pub fn sanitize_next_frame_target(
    next_frame_target: Option<Nanos>,
    fallback_frame_time: Nanos,
    frame_duration: Nanos,
) -> (r: (Nanos, bool))
    ensures
        r == sanitized_target(next_frame_target, fallback_frame_time, frame_duration),
{
    let stale_before: Nanos = elapsed_between(fallback_frame_time, frame_duration);
    match next_frame_target {
        Some(target) => {
            if target < stale_before {
                (fallback_frame_time, true)
            } else {
                (target, false)
            }
        },
        None => (fallback_frame_time, false),
    }
}

pub open spec fn sanitized_target(
    next_frame_target: Option<Nanos>,
    fallback_frame_time: Nanos,
    frame_duration: Nanos,
) -> (Nanos, bool) {
    match next_frame_target {
        Some(target) if is_stale_target(target, fallback_frame_time, frame_duration) => (
            fallback_frame_time,
            true,
        ),
        Some(target) => (target, false),
        None => (fallback_frame_time, false),
    }
}

/// A frame never aims further into the past than one frame before the fallback.
pub proof fn law_sanitized_target_is_fresh(
    next_frame_target: Option<Nanos>,
    fallback: Nanos,
    frame_duration: Nanos,
)
    ensures
        sanitized_target(next_frame_target, fallback, frame_duration).0 + frame_duration
            >= fallback,
{
}

/// Sanitizing the target once more changes nothing and reports nothing stale.
pub proof fn law_sanitize_is_idempotent(
    next_frame_target: Option<Nanos>,
    fallback: Nanos,
    frame_duration: Nanos,
)
    ensures
        ({
            let once = sanitized_target(next_frame_target, fallback, frame_duration).0;
            sanitized_target(Some(once), fallback, frame_duration) == (once, false)
        }),
{
}

/// The render time estimate after one more frame. The first measurement is taken as it
/// is; later ones are blended with the estimate so far, and `blended` is that blend of
/// three quarters of `previous` and one quarter of `current`.
pub fn blend_render_duration(previous: Nanos, current: Nanos, blended: Nanos) -> (r: Nanos)
    ensures
        r == blended_duration(previous, current, blended),
{
    if previous == 0 {
        current
    } else {
        blended
    }
}

pub open spec fn blended_duration(previous: Nanos, current: Nanos, blended: Nanos) -> Nanos {
    if previous == 0 {
        current
    } else {
        blended
    }
}

/// Spans add up, up to the longest one.
pub proof fn law_spans_add_up(a: Nanos, b: Nanos, r: Nanos)
    requires
        call_ensures(saturating_add, (a, b), r),
    ensures
        a + b <= MAX_NANOS ==> r == a + b,
        a + b > MAX_NANOS ==> r == MAX_NANOS,
{
}

/// The span between two points gives the later one back; it is never negative.
pub proof fn law_spans_between_points(later: Nanos, earlier: Nanos, r: Nanos)
    requires
        call_ensures(elapsed_between, (later, earlier), r),
    ensures
        earlier <= later ==> earlier + r == later,
        later <= earlier ==> r == 0,
{
}

/// A prediction is aimed at exactly if it is not more than one frame before the fallback; a
/// prediction is reported as stale exactly if it is dropped.
pub proof fn law_predictions_are_used_while_fresh(
    target: Option<Nanos>,
    fallback: Nanos,
    frame_duration: Nanos,
    r: (Nanos, bool),
)
    requires
        call_ensures(sanitize_next_frame_target, (target, fallback, frame_duration), r),
    ensures
        target is None ==> r == (fallback, false),
        target is Some && target->0 + frame_duration >= fallback ==> r == (target->0, false),
        target is Some && target->0 + frame_duration < fallback ==> r == (fallback, true),
{
}

/// The first measurement is taken as it is, and later ones are blended.
pub proof fn law_first_measurements_count_in_full(
    previous: Nanos,
    current: Nanos,
    blended: Nanos,
    r: Nanos,
)
    requires
        call_ensures(blend_render_duration, (previous, current, blended), r),
    ensures
        previous == 0 ==> r == current,
        previous > 0 ==> r == blended,
{
}

} // verus!
