//! Event-time windows.
use vstd::prelude::*;

verus! {

/// Length of one window, in milliseconds (five minutes).
pub const WINDOW_MILLIS: i64 = 300000;

/// Largest event time, in milliseconds since the Unix epoch, that names an
/// archive: the last millisecond of the year 9999.
pub const MAX_EVENT_MILLIS: i64 = 253402300799999;

/// An event time that can be placed in a window and named in the archive.
pub open spec fn usable_event_time(t: int) -> bool {
    0 <= t <= MAX_EVENT_MILLIS
}

/// Start of the window that holds event time `t`.
pub open spec fn spec_window_start(t: int) -> int {
    t - t % (WINDOW_MILLIS as int)
}

/// Start of the window of `event_time`: the event time minus its remainder
/// modulo the window length.
pub fn window_start(event_time: i64) -> (r: i64)
    requires
        usable_event_time(event_time as int),
    ensures
        r == spec_window_start(event_time as int),
        usable_event_time(r as int),
        r <= event_time < r + WINDOW_MILLIS,
        r % WINDOW_MILLIS == 0,
{
    event_time - event_time % WINDOW_MILLIS
}

/// All event times of one window share its start: for an aligned `w`, every
/// `t` in `[w, w + WINDOW_MILLIS)` has window start `w - w % WINDOW_MILLIS`,
/// which is `w` itself.
pub proof fn lemma_window_partition(w: int, t: int)
    requires
        w % (WINDOW_MILLIS as int) == 0,
        w <= t < w + WINDOW_MILLIS,
    ensures
        spec_window_start(t) == w - w % (WINDOW_MILLIS as int),
        spec_window_start(t) == w,
{
    let d = WINDOW_MILLIS as int;
    assert(t % d == t - w) by (nonlinear_arith)
        requires
            w % d == 0,
            w <= t < w + d,
            d == 300000,
    {
        vstd::arithmetic::div_mod::lemma_fundamental_div_mod(w, d);
        vstd::arithmetic::div_mod::lemma_fundamental_div_mod(t, d);
    }
}

} // verus!
