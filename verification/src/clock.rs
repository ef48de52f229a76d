//! Instants of the host's monotonic clock.
use vstd::prelude::*;

verus! {

/// Nanoseconds: of an instant since the clock began to count, or of a span of time.
pub type Nanos = u128;

/// The last instant of the clock, which counts seconds in 63 bits.
pub const CLOCK_END: Nanos = 9_223_372_036_854_775_807_999_999_999;

/// The instant at which a span has passed, if the clock reaches it.
pub open spec fn after(now: Nanos, span: Nanos) -> Option<Nanos> {
    if now + span <= CLOCK_END {
        Some((now + span) as Nanos)
    } else {
        None
    }
}

/// The instant at which a span has passed, if the clock reaches it.
pub fn find_after(now: Nanos, span: Nanos) -> (r: Option<Nanos>)
    ensures
        r == after(now, span),
{
    if now <= CLOCK_END && span <= CLOCK_END - now {
        Some(now + span)
    } else {
        None
    }
}

/// The instant at which a span has passed, or the last one.
pub open spec fn after_or_end(now: Nanos, span: int) -> Nanos {
    if now + span <= CLOCK_END {
        (now + span) as Nanos
    } else {
        CLOCK_END
    }
}

/// The instant at which a span has passed, or the last one.
pub fn find_after_or_end(now: Nanos, span: Nanos) -> (r: Nanos)
    ensures
        r == after_or_end(now, span as int),
{
    match find_after(now, span) {
        Some(at) => at,
        None => CLOCK_END,
    }
}

/// A span is added to an instant as long as the clock reaches that far; past its end there is no
/// instant, or the last one where one is needed.
pub proof fn spans_are_added_up_to_the_end(now: Nanos, span: Nanos)
    ensures
        after(now, span) is Some <==> now + span <= CLOCK_END,
        after(now, span) matches Some(at) ==> at - now == span,
        now <= CLOCK_END ==> now <= after_or_end(now, span as int) <= CLOCK_END,
        now + span <= CLOCK_END ==> after_or_end(now, span as int) - now == span,
        now + span > CLOCK_END ==> after_or_end(now, span as int) == CLOCK_END,
{
}

} // verus!
