//! Throughput and remaining time of a job, from a rolling window of samples.

use std::collections::VecDeque;

use vstd::prelude::*;

use crate::binary64::{
    bin64_above_one, bin64_half_up, bin64_nanos, bin64_of, bin64_quotient, bin64_secs, lemma_no_time, lemma_of,
    lemma_pow2_values, lemma_quotient_fits, lemma_zero_is_kept, lemma_zero_quotient, Bin64, Float, NS_PER_SEC,
};
use crate::text::{dec, dec2, push_dec, push_dec2, push_text};

verus! {

/// Length of the rolling window.
pub const WINDOW_NS: u64 = 5_000_000_000;

/// Samples with those taken off the front that are older than the window, as
/// long as more than two are left.
pub open spec fn windowed(s: Seq<(u64, u64)>, now: u64) -> Seq<(u64, u64)>
    decreases s.len(),
{
    if s.len() > 2 && now - s[0].0 > WINDOW_NS {
        windowed(s.skip(1), now)
    } else {
        s
    }
}

/// Bytes moved between the first and the last sample, and the nanoseconds
/// between them; nothing where no time has passed.
pub open spec fn rate_of(s: Seq<(u64, u64)>) -> Option<(nat, nat)> {
    if s.len() > 0 && s.last().0 > s[0].0 {
        Some(
            (
                if s.last().1 > s[0].1 {
                    (s.last().1 - s[0].1) as nat
                } else {
                    0
                },
                (s.last().0 - s[0].0) as nat,
            ),
        )
    } else {
        None
    }
}

/// The present rate in bytes per second; zero where no time has passed.
pub open spec fn bytes_per_sec(s: Seq<(u64, u64)>) -> Bin64 {
    match rate_of(s) {
        Some((bytes, ns)) => bin64_quotient(bin64_of(bytes), bin64_secs(ns)),
        None => bin64_of(0),
    }
}

/// Nanoseconds that the remaining work takes at the present rate; nothing where
/// that is at most one byte per second.
pub open spec fn eta_of(s: Seq<(u64, u64)>, work_done: nat, work_total: nat) -> Option<nat> {
    if bin64_above_one(bytes_per_sec(s)) {
        let remaining: nat = if work_total > work_done {
            (work_total - work_done) as nat
        } else {
            0
        };
        Some(bin64_nanos(bin64_quotient(bin64_of(remaining), bytes_per_sec(s))))
    } else {
        None
    }
}

/// Rolling throughput window for one job.
#[derive(Debug)]
pub struct SpeedTracker {
    samples: VecDeque<(u64, u64)>,
}

impl View for SpeedTracker {
    type V = Seq<(u64, u64)>;

    closed spec fn view(&self) -> Seq<(u64, u64)> {
        self.samples@
    }
}

impl SpeedTracker {
    /// Create an empty tracker.
    pub fn new() -> (t: Self)
        ensures
            t@ == Seq::<(u64, u64)>::empty(),
    {
        SpeedTracker { samples: VecDeque::new() }
    }

    /// Record a sample of the work done at `now_ns`, trimming the rolling
    /// window.
    pub fn push(&mut self, now_ns: u64, work_done: u64)
        ensures
            final(self)@ == windowed(old(self)@.push((now_ns, work_done)), now_ns),
    {
        let ghost all = self.samples@.push((now_ns, work_done));
        self.samples.push_back((now_ns, work_done));
        while self.samples.len() > 2 && now_ns.saturating_sub(self.samples[0].0) > WINDOW_NS
            invariant
                windowed(self.samples@, now_ns) == windowed(all, now_ns),
            decreases self.samples@.len(),
        {
            let ghost before = self.samples@;
            let _ = self.samples.pop_front();
            assert(self.samples@ =~= before.skip(1));
        }
    }

    /// Bytes moved over the rolling window and the nanoseconds that it took;
    /// `None` where no time has passed.
    pub fn rate(&self) -> (r: Option<(u64, u64)>)
        ensures
            r matches Some((bytes, ns)) ==> rate_of(self@) == Some((bytes as nat, ns as nat)),
            r is None ==> rate_of(self@) is None,
    {
        let n: usize = self.samples.len();
        if n == 0 {
            return None;
        }
        let first = self.samples[0];
        let last = self.samples[n - 1];
        if last.0 <= first.0 {
            return None;
        }
        Some((last.1.saturating_sub(first.1), last.0 - first.0))
    }

    /// Estimated time remaining in nanoseconds, or `None` when throughput is too
    /// low to judge.
    pub fn eta(&self, work_done: u64, work_total: u64) -> (r: Option<u128>)
        ensures
            r matches Some(ns) ==> eta_of(self@, work_done as nat, work_total as nat) == Some(
                ns as nat,
            ) && ns <= u64::MAX * NS_PER_SEC,
            r is None ==> eta_of(self@, work_done as nat, work_total as nat) is None,
    {
        let bps = match self.rate() {
            Some((bytes, ns)) => {
                let secs = Float::secs(ns as u128);
                if bytes == 0 {
                    proof {
                        lemma_zero_quotient(secs.model());
                    }
                    return None;
                }
                proof {
                    lemma_pow2_values();
                    lemma_of(bytes as nat, 11);
                }
                Float::of(bytes as u128).quotient(&secs)
            },
            None => {
                return None;
            },
        };
        if !bps.above_one() {
            return None;
        }
        let remaining: u64 = work_total.saturating_sub(work_done);
        if remaining == 0 {
            proof {
                lemma_zero_quotient(bps.model());
                lemma_zero_is_kept(bin64_quotient(bin64_of(0), bps.model()), NS_PER_SEC as nat);
            }
            return Some(0);
        }
        proof {
            lemma_quotient_fits(remaining as nat, bps.model());
        }
        Some(Float::of(remaining as u128).quotient(&bps).nanos())
    }
}

impl Default for SpeedTracker {
    fn default() -> (t: Self)
        ensures
            t@ == Seq::<(u64, u64)>::empty(),
    {
        Self::new()
    }
}

/// The window slides: of more than two samples that are kept, none is older
/// than the window, where they were taken in order.
pub proof fn law_window_slides(s: Seq<(u64, u64)>, now: u64, i: int)
    requires
        forall|a: int, b: int| 0 <= a < b < s.len() ==> s[a].0 <= s[b].0,
        windowed(s, now).len() > 2,
        0 <= i < windowed(s, now).len(),
    ensures
        now - windowed(s, now)[i].0 <= WINDOW_NS,
    decreases s.len(),
{
    if s.len() > 2 && now - s[0].0 > WINDOW_NS {
        let rest = s.skip(1);
        assert forall|a: int, b: int| 0 <= a < b < rest.len() implies rest[a].0 <= rest[b].0 by {
            assert(rest[a] == s[a + 1] && rest[b] == s[b + 1]);
        }
        law_window_slides(rest, now, i);
    } else if i > 0 {
        assert(s[0].0 <= s[i].0);
    }
}

/// The window keeps the latest samples: what it drops are the oldest, each of them
/// more than five seconds old, and of the last two it drops none.
pub proof fn law_window_keeps_the_latest(s: Seq<(u64, u64)>, now: u64)
    ensures
        ({
            let w = windowed(s, now);
            let dropped = s.len() - w.len();
            &&& w.len() <= s.len()
            &&& w == s.skip(dropped)
            &&& s.len() <= 2 ==> w == s
            &&& s.len() > 2 ==> w.len() >= 2
            &&& s.len() > 0 ==> w.len() > 0 && w.last() == s.last()
            &&& forall|i: int| 0 <= i < dropped ==> now - (#[trigger] s[i]).0 > 5_000_000_000
            &&& w.len() > 2 ==> now - w[0].0 <= 5_000_000_000
        }),
    decreases s.len(),
{
    if s.len() > 2 && now - s[0].0 > WINDOW_NS {
        let rest = s.skip(1);
        law_window_keeps_the_latest(rest, now);
        let w = windowed(rest, now);
        let dropped = s.len() - w.len();
        assert(w =~= s.skip(dropped));
        assert forall|i: int| 0 <= i < dropped implies now - (#[trigger] s[i]).0 > 5_000_000_000 by {
            if i > 0 {
                assert(rest[i - 1] == s[i]);
            }
        }
    } else {
        assert(s =~= s.skip(0));
    }
}

/// The rate is what was moved from the first sample to the last, over the time
/// between them.
pub proof fn law_rate_is_over_the_window(s: Seq<(u64, u64)>)
    requires
        s.len() > 0,
    ensures
        rate_of(s) is Some <==> s.last().0 > s[0].0,
        s.last().0 > s[0].0 && s.last().1 >= s[0].1 ==> rate_of(s) == Some(
            ((s.last().1 - s[0].1) as nat, (s.last().0 - s[0].0) as nat),
        ),
{
}

/// No work takes no time, and the estimate depends on nothing but the rate and what is
/// left to do.
pub proof fn law_estimate_is_for_what_is_left(
    s: Seq<(u64, u64)>,
    done: nat,
    total: nat,
    done2: nat,
    total2: nat,
)
    requires
        done <= total,
        done2 <= total2,
        total - done == total2 - done2,
    ensures
        eta_of(s, done, total) == eta_of(s, done2, total2),
        eta_of(s, total, total) is Some ==> eta_of(s, total, total) == Some(0nat),
{
    if eta_of(s, total, total) is Some {
        let x = bytes_per_sec(s);
        lemma_zero_quotient(x);
        lemma_zero_is_kept(bin64_quotient(bin64_of(0), x), NS_PER_SEC as nat);
    }
}

/// A duration in whole seconds, rounded, as hours and minutes, minutes and
/// seconds, or seconds.
pub open spec fn duration_text(s: nat) -> Seq<char> {
    if s >= 3600 {
        dec(s / 3600) + "h"@ + dec2((s % 3600) / 60) + "m"@
    } else if s >= 60 {
        dec(s / 60) + "m"@ + dec2(s % 60) + "s"@
    } else {
        dec(s) + "s"@
    }
}

/// Nanoseconds to the nearest second, halves up, where the seconds are a binary64
/// number.
pub open spec fn rounded_secs(ns: nat) -> nat {
    let s = bin64_half_up(bin64_secs(ns));
    if s > u64::MAX {
        u64::MAX as nat
    } else {
        s
    }
}

/// Formats whole seconds, e.g. `2h05m`, `3m07s`, `42s`.
pub fn fmt_secs(s: u64) -> (t: String)
    ensures
        t@ == duration_text(s as nat),
{
    let mut t = String::new();
    if s >= 3600 {
        push_dec(&mut t, s / 3600);
        push_text(&mut t, "h");
        push_dec2(&mut t, (s % 3600) / 60);
        push_text(&mut t, "m");
    } else if s >= 60 {
        push_dec(&mut t, s / 60);
        push_text(&mut t, "m");
        push_dec2(&mut t, s % 60);
        push_text(&mut t, "s");
    } else {
        push_dec(&mut t, s);
        push_text(&mut t, "s");
    }
    assert(t@ =~= duration_text(s as nat));
    t
}

/// Formats a duration in nanoseconds, of less than `2^64` seconds.
pub fn fmt_duration(ns: u128) -> (t: String)
    requires
        ns < 0x1_0000_0000_0000_0000 * NS_PER_SEC,
    ensures
        t@ == duration_text(rounded_secs(ns as nat)),
{
    if ns == 0 {
        proof {
            lemma_no_time();
            lemma_zero_is_kept(bin64_secs(0), 1);
        }
        return fmt_secs(0);
    }
    fmt_secs(Float::secs(ns).half_up())
}

} // verus!
