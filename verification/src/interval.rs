//! The periodic ticker: an infinite sequence that fires once per fixed
//! period and yields the wall-clock time elapsed since the previous
//! firing (or since construction, for the first).
//!
//! Time is carried as nanoseconds on a monotonic clock that the driver
//! reads; the driver also keeps a host timer armed for the pending
//! deadline so that polling suspends instead of busy-waiting. The
//! deadline is re-armed from the moment a tick fires, not tracked as an
//! absolute schedule, so scheduling latency is not corrected and drift
//! may accumulate; each yielded duration reflects the real elapsed time,
//! never less than the period.

use vstd::prelude::*;

verus! {

/// Mathematical state of a ticker: its fixed period, the instant of the
/// previous tick (construction, before the first tick), the instant the
/// pending timer fires, and every elapsed duration yielded so far. All
/// times are nanoseconds on the driver's monotonic clock.
#[verifier::ext_equal]
pub struct TickerState {
    /// The fixed period, in nanoseconds.
    pub period: int,
    /// The instant of the previous tick, or of construction.
    pub last: int,
    /// The instant at which the pending timer fires.
    pub deadline: int,
    /// Every elapsed duration yielded so far, oldest first.
    pub ticks: Seq<int>,
}

/// Well-formedness of a ticker: the pending timer is always armed exactly
/// one period past the previous tick, and every duration yielded so far
/// was at least the period.
pub open spec fn ticker_wf(s: TickerState) -> bool {
    &&& s.deadline == s.last + s.period
    &&& forall|i: int| 0 <= i < s.ticks.len() ==> #[trigger] s.ticks[i] >= s.period
}

/// A periodic ticker. The driver reads the clock and keeps a host timer
/// armed for the deadline; this value decides when a tick is due and what
/// elapsed duration it carries.
///
/// A period of zero is accepted and makes every poll fire: the ticker
/// then ticks as fast as its driver polls it.
pub struct Interval {
    period: u64,
    last: u64,
    deadline: u64,
    ticks: Ghost<Seq<int>>,
}

impl View for Interval {
    type V = TickerState;

    closed spec fn view(&self) -> TickerState {
        TickerState {
            period: self.period as int,
            last: self.last as int,
            deadline: self.deadline as int,
            ticks: self.ticks@,
        }
    }
}

impl Interval {
    /// Creates a new interval ticker with the given period, at the
    /// current reading `now` of the driver's monotonic clock. The first
    /// tick is due one period from `now`; the driver must arm its host
    /// timer for that deadline.
    pub fn new(period: u64, now: u64) -> (r: Self)
        requires
            now + period <= u64::MAX,
        ensures
            r@ == (TickerState {
                period: period as int,
                last: now as int,
                deadline: now as int + period as int,
                ticks: Seq::empty(),
            }),
            ticker_wf(r@),
    {
        Interval { period, last: now, deadline: now + period, ticks: Ghost(Seq::empty()) }
    }

    /// The fixed period, in nanoseconds.
    pub fn period_nanos(&self) -> (p: u64)
        ensures
            p == self@.period,
    {
        self.period
    }

    /// The instant at which the pending timer fires; the driver keeps its
    /// host timer armed for this instant.
    pub fn deadline_nanos(&self) -> (d: u64)
        ensures
            d == self@.deadline,
    {
        self.deadline
    }

    /// One poll at clock reading `now`. Before the deadline nothing is
    /// due: the poll yields nothing and changes nothing, and the driver
    /// suspends on its host timer. From the deadline on — hence never
    /// before a full period has elapsed since the previous tick — the
    /// poll yields the elapsed time since that tick, which is at least
    /// the period, and re-arms: the next deadline is one period from
    /// `now`, so the driver must re-arm its host timer.
    ///
    /// The clock is monotonic, so `now` never precedes the previous tick;
    /// the deadline stays within the clock's range.
    pub fn poll(&mut self, now: u64) -> (r: Option<u64>)
        requires
            ticker_wf(old(self)@),
            now >= old(self)@.last,
            now >= old(self)@.deadline ==> now + old(self)@.period <= u64::MAX,
        ensures
            now < old(self)@.deadline ==> r is None && final(self)@ == old(self)@,
            now >= old(self)@.deadline ==> r == Some((now - old(self)@.last) as u64)
                && final(self)@ == (TickerState {
                period: old(self)@.period,
                last: now as int,
                deadline: now as int + old(self)@.period,
                ticks: old(self)@.ticks.push(now - old(self)@.last),
            }),
            r matches Some(d) ==> d >= old(self)@.period,
            ticker_wf(final(self)@),
    {
        if now >= self.deadline {
            let elapsed = now - self.last;
            self.last = now;
            self.deadline = now + self.period;
            self.ticks = Ghost(self.ticks@.push(elapsed as int));
            Some(elapsed)
        } else {
            None
        }
    }
}

} // verus!
