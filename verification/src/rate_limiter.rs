//! Dual-window request admission.
//!
//! Instants are readings of a monotonic clock in nanoseconds. The limiter never reads the clock
//! and never sleeps: the caller hands it the current instant, and is told either to go ahead or
//! how long to wait before asking again.

use std::collections::VecDeque;
use vstd::prelude::*;

verus! {

/// Length of the short window, in nanoseconds.
pub const SHORT_WINDOW_NANOS: u64 = 1_000_000_000;

/// Length of the long window, in nanoseconds.
pub const LONG_WINDOW_NANOS: u64 = 120_000_000_000;

/// Requests admitted per long window unless configured otherwise.
pub const DEFAULT_MAX_REQS_PER_2MIN: usize = 80;

/// Requests admitted per short window unless configured otherwise.
pub const DEFAULT_MAX_REQS_PER_SEC: usize = 20;

/// Time that has passed between `earlier` and `now`; zero when `earlier` is not in the past.
pub open spec fn elapsed(now: u64, earlier: u64) -> u64 {
    if now >= earlier {
        (now - earlier) as u64
    } else {
        0
    }
}

/// What is left of `stamps` once every leading instant older than `window` has been dropped.
pub open spec fn pruned(stamps: Seq<u64>, now: u64, window: u64) -> Seq<u64>
    decreases stamps.len(),
{
    if stamps.len() > 0 && elapsed(now, stamps[0]) > window {
        pruned(stamps.drop_first(), now, window)
    } else {
        stamps
    }
}

/// How long a window that holds `stamps` and admits `limit` requests keeps a caller waiting at
/// `now`. A window at its cap keeps the caller waiting as long as its earliest instant is not
/// older than the window: until the moment after that instant is a full window old, from
/// which on pruning drops it.
pub open spec fn window_wait(stamps: Seq<u64>, limit: usize, now: u64, window: u64) -> Option<u64> {
    if stamps.len() >= limit && stamps.len() > 0 && elapsed(now, stamps[0]) <= window {
        Some((window - elapsed(now, stamps[0]) + 1) as u64)
    } else {
        None
    }
}

/// The cap that a window with this limit keeps: the limit, but one for a limit of zero.
pub open spec fn cap(limit: usize) -> nat {
    if limit == 0 {
        1
    } else {
        limit as nat
    }
}

/// The number of instants in `stamps` that are less than `window` old at `now`.
pub open spec fn recent(stamps: Seq<u64>, now: u64, window: u64) -> nat
    decreases stamps.len(),
{
    if stamps.len() == 0 {
        0
    } else {
        let rest = recent(stamps.drop_last(), now, window);
        if elapsed(now, stamps.last()) < window {
            rest + 1
        } else {
            rest
        }
    }
}

/// The answer to a request for admission.
#[derive(Clone, Copy, Debug, PartialEq, Eq, Structural)]
pub enum Admission {
    /// The request may be sent.
    Ready,
    /// The caller sleeps this many nanoseconds and asks again.
    Wait(u64),
}

/// Admission gate with a one-second and a two-minute window of recorded instants.
pub struct RateLimiter {
    max_reqs_per_2min: usize,
    max_reqs_per_sec: usize,
    timestamps_2min: VecDeque<u64>,
    timestamps_1s: VecDeque<u64>,
}

impl RateLimiter {
    /// The cap of the two-minute window.
    pub closed spec fn long_limit(&self) -> usize {
        self.max_reqs_per_2min
    }

    /// The cap of the one-second window.
    pub closed spec fn short_limit(&self) -> usize {
        self.max_reqs_per_sec
    }

    /// The instants held in the two-minute window, oldest first.
    pub closed spec fn long_window(&self) -> Seq<u64> {
        self.timestamps_2min@
    }

    /// The instants held in the one-second window, oldest first.
    pub closed spec fn short_window(&self) -> Seq<u64> {
        self.timestamps_1s@
    }

    /// What the limiter answers at `now`, after pruning.
    pub open spec fn verdict(&self, now: u64) -> Admission {
        let short = pruned(self.short_window(), now, SHORT_WINDOW_NANOS);
        let long = pruned(self.long_window(), now, LONG_WINDOW_NANOS);
        match window_wait(short, self.short_limit(), now, SHORT_WINDOW_NANOS) {
            Some(nanos) => Admission::Wait(nanos),
            None => match window_wait(long, self.long_limit(), now, LONG_WINDOW_NANOS) {
                Some(nanos) => Admission::Wait(nanos),
                None => Admission::Ready,
            },
        }
    }

    /// Whether both windows hold fewer instants than their caps allow.
    pub open spec fn has_room(&self) -> bool {
        self.short_window().len() < cap(self.short_limit()) && self.long_window().len() < cap(
            self.long_limit(),
        )
    }

    /// Whether the limiter has kept to its caps over the admissions `log`, the last of which
    /// came no later than `clock`: the admissions came in the order of the clock, each window
    /// holds the latest of them and all that are not older than itself, and no admission found
    /// as many as the cap before it that were less than a window old.
    pub open spec fn tracks(&self, log: Seq<u64>, clock: u64) -> bool {
        &&& in_order(log, clock)
        &&& holds_latest(log, self.short_window(), clock, SHORT_WINDOW_NANOS)
        &&& holds_latest(log, self.long_window(), clock, LONG_WINDOW_NANOS)
        &&& within_cap(log, SHORT_WINDOW_NANOS, cap(self.short_limit()))
        &&& within_cap(log, LONG_WINDOW_NANOS, cap(self.long_limit()))
    }

    /// A limiter with these caps that has admitted nothing yet.
    pub fn new(max_reqs_per_2min: usize, max_reqs_per_sec: usize) -> (out: Self)
        ensures
            out.long_limit() == max_reqs_per_2min,
            out.short_limit() == max_reqs_per_sec,
            out.long_window() == Seq::<u64>::empty(),
            out.short_window() == Seq::<u64>::empty(),
            forall|clock: u64| #[trigger] out.tracks(Seq::<u64>::empty(), clock),
    {
        assert(Seq::<u64>::empty().skip(0) =~= Seq::<u64>::empty());
        RateLimiter {
            max_reqs_per_2min,
            max_reqs_per_sec,
            timestamps_2min: VecDeque::new(),
            timestamps_1s: VecDeque::new(),
        }
    }

    /// Replaces the cap of the two-minute window; what has been recorded stays.
    pub fn set_max_reqs_per_2min(&mut self, max_reqs_per_2min: usize)
        ensures
            final(self).long_limit() == max_reqs_per_2min,
            final(self).short_limit() == old(self).short_limit(),
            final(self).long_window() == old(self).long_window(),
            final(self).short_window() == old(self).short_window(),
    {
        self.max_reqs_per_2min = max_reqs_per_2min;
    }

    /// The cap of the two-minute window.
    pub fn max_reqs_per_2min(&self) -> (out: usize)
        ensures
            out == self.long_limit(),
    {
        self.max_reqs_per_2min
    }

    /// The cap of the one-second window.
    pub fn max_reqs_per_sec(&self) -> (out: usize)
        ensures
            out == self.short_limit(),
    {
        self.max_reqs_per_sec
    }

    /// Drops from each window the leading instants that are older than the window at `now`.
    pub fn prune(&mut self, now: u64)
        ensures
            final(self).short_window() == pruned(old(self).short_window(), now, SHORT_WINDOW_NANOS),
            final(self).long_window() == pruned(old(self).long_window(), now, LONG_WINDOW_NANOS),
            final(self).short_limit() == old(self).short_limit(),
            final(self).long_limit() == old(self).long_limit(),
    {
        prune_window(&mut self.timestamps_1s, now, SHORT_WINDOW_NANOS);
        prune_window(&mut self.timestamps_2min, now, LONG_WINDOW_NANOS);
    }

    /// Decides at `now` whether a request may go out or how long it must wait. Both windows are
    /// pruned first. A window at its cap keeps the caller waiting; `Wait` comes from the
    /// one-second window when that one is at its cap, else from the two-minute window; nothing
    /// is recorded either way. The caller sleeps as long as it is told and asks again; once
    /// the answer is `Ready`, both windows have room, and the caller reads the clock anew and
    /// records the admission.
    pub fn wait(&mut self, now: u64) -> (out: Admission)
        ensures
            out == old(self).verdict(now),
            final(self).short_window() == pruned(old(self).short_window(), now, SHORT_WINDOW_NANOS),
            final(self).long_window() == pruned(old(self).long_window(), now, LONG_WINDOW_NANOS),
            final(self).short_limit() == old(self).short_limit(),
            final(self).long_limit() == old(self).long_limit(),
            out is Ready ==> final(self).has_room(),
            forall|log: Seq<u64>, clock: u64| #[trigger]
                old(self).tracks(log, clock) && clock <= now ==> final(self).tracks(log, now),
    {
        proof {
            lemma_pruned_head_fresh(self.short_window(), now, SHORT_WINDOW_NANOS);
            lemma_pruned_head_fresh(self.long_window(), now, LONG_WINDOW_NANOS);
            assert forall|log: Seq<u64>, clock: u64| #[trigger]
                self.tracks(log, clock) && clock <= now implies holds_latest(
                log,
                pruned(self.short_window(), now, SHORT_WINDOW_NANOS),
                now,
                SHORT_WINDOW_NANOS,
            ) && holds_latest(
                log,
                pruned(self.long_window(), now, LONG_WINDOW_NANOS),
                now,
                LONG_WINDOW_NANOS,
            ) && in_order(log, now) by {
                lemma_poll_keeps_windows(log, self.short_window(), clock, now, SHORT_WINDOW_NANOS);
                lemma_poll_keeps_windows(log, self.long_window(), clock, now, LONG_WINDOW_NANOS);
            }
        }
        self.prune(now);
        match wait_for(&self.timestamps_1s, self.max_reqs_per_sec, now, SHORT_WINDOW_NANOS) {
            Some(nanos) => Admission::Wait(nanos),
            None => match wait_for(
                &self.timestamps_2min,
                self.max_reqs_per_2min,
                now,
                LONG_WINDOW_NANOS,
            ) {
                Some(nanos) => Admission::Wait(nanos),
                None => Admission::Ready,
            },
        }
    }

    /// Records an admission at `timestamp` in both windows. Recorded after a `wait` that
    /// answered `Ready`, at a reading of the clock no earlier than that of the `wait`, the
    /// admission keeps the limiter within its caps.
    pub fn record(&mut self, timestamp: u64)
        ensures
            final(self).short_window() == old(self).short_window().push(timestamp),
            final(self).long_window() == old(self).long_window().push(timestamp),
            final(self).short_limit() == old(self).short_limit(),
            final(self).long_limit() == old(self).long_limit(),
            forall|log: Seq<u64>, clock: u64| #[trigger]
                old(self).tracks(log, clock) && old(self).has_room() && clock <= timestamp
                    ==> final(self).tracks(log.push(timestamp), timestamp),
    {
        proof {
            assert forall|log: Seq<u64>, clock: u64| #[trigger]
                self.tracks(log, clock) && self.has_room() && clock <= timestamp implies in_order(
                log.push(timestamp),
                timestamp,
            ) && holds_latest(
                log.push(timestamp),
                self.short_window().push(timestamp),
                timestamp,
                SHORT_WINDOW_NANOS,
            ) && holds_latest(
                log.push(timestamp),
                self.long_window().push(timestamp),
                timestamp,
                LONG_WINDOW_NANOS,
            ) && within_cap(log.push(timestamp), SHORT_WINDOW_NANOS, cap(self.short_limit()))
                && within_cap(log.push(timestamp), LONG_WINDOW_NANOS, cap(self.long_limit())) by {
                lemma_record_keeps_cap(
                    log,
                    self.short_window(),
                    cap(self.short_limit()),
                    SHORT_WINDOW_NANOS,
                    clock,
                    timestamp,
                );
                lemma_record_keeps_cap(
                    log,
                    self.long_window(),
                    cap(self.long_limit()),
                    LONG_WINDOW_NANOS,
                    clock,
                    timestamp,
                );
            }
        }
        self.timestamps_1s.push_back(timestamp);
        self.timestamps_2min.push_back(timestamp);
    }

    /// The number of instants currently held in the one-second window.
    pub fn short_len(&self) -> (out: usize)
        ensures
            out == self.short_window().len(),
    {
        self.timestamps_1s.len()
    }

    /// The number of instants currently held in the two-minute window.
    pub fn long_len(&self) -> (out: usize)
        ensures
            out == self.long_window().len(),
    {
        self.timestamps_2min.len()
    }
}

/// Measures the time from `earlier` to `now`.
pub fn elapsed_between(now: u64, earlier: u64) -> (out: u64)
    ensures
        out == elapsed(now, earlier),
{
    if now >= earlier {
        now - earlier
    } else {
        0
    }
}

fn prune_window(stamps: &mut VecDeque<u64>, now: u64, window: u64)
    ensures
        final(stamps)@ == pruned(old(stamps)@, now, window),
{
    while stamps.len() > 0 && elapsed_between(now, stamps[0]) > window
        invariant
            pruned(old(stamps)@, now, window) == pruned(stamps@, now, window),
        decreases stamps.len(),
    {
        let ghost before = stamps@;
        let _ = stamps.pop_front();
        assert(stamps@ =~= before.drop_first());
    }
}

fn wait_for(stamps: &VecDeque<u64>, limit: usize, now: u64, window: u64) -> (out: Option<u64>)
    requires
        window < u64::MAX,
    ensures
        out == window_wait(stamps@, limit, now, window),
{
    if stamps.len() >= limit && stamps.len() > 0 {
        let gone: u64 = elapsed_between(now, stamps[0]);
        if gone <= window {
            return Some(window - gone + 1);
        }
    }
    None
}

/// No more instants are recent than are held.
proof fn lemma_recent_bounded(stamps: Seq<u64>, now: u64, window: u64)
    ensures
        recent(stamps, now, window) <= stamps.len(),
    decreases stamps.len(),
{
    if stamps.len() > 0 {
        lemma_recent_bounded(stamps.drop_last(), now, window);
    }
}

/// Whether the admissions `log` came in the order of the clock, none of them after `clock`.
pub open spec fn in_order(log: Seq<u64>, clock: u64) -> bool {
    &&& forall|i: int, j: int| 0 <= i <= j < log.len() ==> log[i] <= log[j]
    &&& forall|i: int| 0 <= i < log.len() ==> log[i] <= clock
}

/// Whether `held` is what a window holds of the admissions `log` at `clock`: the latest of
/// them, and all of those that are not older than the window.
pub open spec fn holds_latest(log: Seq<u64>, held: Seq<u64>, clock: u64, window: u64) -> bool {
    exists|k: int|
        0 <= k <= log.len() && held == log.skip(k) && forall|j: int|
            0 <= j < k ==> elapsed(clock, #[trigger] log[j]) > window
}

/// Whether every admission of `log` found fewer than `bound` admissions before it that were
/// less than a window old: no stretch of time shorter than the window, ending at an
/// admission, holds more than `bound` admissions.
pub open spec fn within_cap(log: Seq<u64>, window: u64, bound: nat) -> bool {
    forall|i: int| 0 <= i < log.len() ==> recent(log.take(i + 1), #[trigger] log[i], window) <= bound
}

proof fn lemma_pruned_is_suffix(stamps: Seq<u64>, now: u64, window: u64) -> (m: int)
    ensures
        0 <= m <= stamps.len(),
        pruned(stamps, now, window) == stamps.skip(m),
        forall|j: int| 0 <= j < m ==> elapsed(now, #[trigger] stamps[j]) > window,
    decreases stamps.len(),
{
    if stamps.len() > 0 && elapsed(now, stamps[0]) > window {
        let rest = stamps.drop_first();
        let m = lemma_pruned_is_suffix(rest, now, window);
        assert(rest.skip(m) =~= stamps.skip(m + 1));
        assert forall|j: int| 0 <= j < m + 1 implies elapsed(now, #[trigger] stamps[j])
            > window by {
            if j > 0 {
                assert(stamps[j] == rest[j - 1]);
            }
        }
        m + 1
    } else {
        assert(stamps.skip(0) =~= stamps);
        0
    }
}

proof fn lemma_recent_skips_old(log: Seq<u64>, k: int, at: u64, window: u64)
    requires
        0 <= k <= log.len(),
        forall|j: int| 0 <= j < k ==> elapsed(at, #[trigger] log[j]) >= window,
    ensures
        recent(log, at, window) == recent(log.skip(k), at, window),
    decreases log.len(),
{
    if log.len() == k {
        assert(log.skip(k).len() == 0);
        if log.len() > 0 {
            lemma_recent_skips_old(log.drop_last(), k - 1, at, window);
            assert(log.drop_last().skip(k - 1).len() == 0);
            assert(elapsed(at, log[k - 1]) >= window);
        }
    } else {
        lemma_recent_skips_old(log.drop_last(), k, at, window);
        assert(log.skip(k).drop_last() =~= log.drop_last().skip(k));
        assert(log.skip(k).last() == log.last());
    }
}

/// The earliest instant that pruning leaves is not older than the window.
proof fn lemma_pruned_head_fresh(stamps: Seq<u64>, now: u64, window: u64)
    ensures
        pruned(stamps, now, window).len() > 0 ==> elapsed(now, pruned(stamps, now, window)[0])
            <= window,
        pruned(stamps, now, window).len() <= stamps.len(),
        stamps.len() > 0 && elapsed(now, stamps[0]) > window ==> pruned(stamps, now, window).len()
            < stamps.len(),
    decreases stamps.len(),
{
    if stamps.len() > 0 && elapsed(now, stamps[0]) > window {
        lemma_pruned_head_fresh(stamps.drop_first(), now, window);
    }
}

/// Asking the limiter keeps its windows in line with the admissions: what a window holds
/// after pruning at `now` is what it holds of the admissions at `now`.
pub proof fn lemma_poll_keeps_windows(log: Seq<u64>, held: Seq<u64>, clock: u64, now: u64, window: u64)
    requires
        in_order(log, clock),
        holds_latest(log, held, clock, window),
        clock <= now,
    ensures
        holds_latest(log, pruned(held, now, window), now, window),
        in_order(log, now),
{
    let k = choose|k: int|
        0 <= k <= log.len() && held == log.skip(k) && forall|j: int|
            0 <= j < k ==> elapsed(clock, #[trigger] log[j]) > window;
    let m = lemma_pruned_is_suffix(held, now, window);
    assert(held.skip(m) =~= log.skip(k + m));
    assert forall|j: int| 0 <= j < k + m implies elapsed(now, #[trigger] log[j]) > window by {
        if j < k {
            assert(elapsed(clock, log[j]) > window);
            assert(log[j] <= clock);
        } else {
            assert(held[j - k] == log[j]);
        }
    }
}

/// Recording an admission in a window that has room keeps the admissions within the bound:
/// the new admission finds fewer than `bound` before it that are less than a window old.
pub proof fn lemma_record_keeps_cap(
    log: Seq<u64>,
    held: Seq<u64>,
    bound: nat,
    window: u64,
    clock: u64,
    at: u64,
)
    requires
        in_order(log, clock),
        holds_latest(log, held, clock, window),
        within_cap(log, window, bound),
        held.len() < bound,
        clock <= at,
    ensures
        within_cap(log.push(at), window, bound),
        in_order(log.push(at), at),
        holds_latest(log.push(at), held.push(at), at, window),
{
    let k = choose|k: int|
        0 <= k <= log.len() && held == log.skip(k) && forall|j: int|
            0 <= j < k ==> elapsed(clock, #[trigger] log[j]) > window;
    let after = log.push(at);
    assert(after.skip(k) =~= held.push(at));
    assert forall|j: int| 0 <= j < k implies elapsed(at, #[trigger] after[j]) > window by {
        assert(after[j] == log[j]);
        assert(elapsed(clock, log[j]) > window);
    }
    assert forall|i: int| 0 <= i < after.len() implies recent(
        after.take(i + 1),
        #[trigger] after[i],
        window,
    ) <= bound by {
        if i < log.len() {
            assert(after.take(i + 1) =~= log.take(i + 1));
            assert(after[i] == log[i]);
        } else {
            assert(after.take(i + 1) =~= after);
            assert(after.drop_last() =~= log);
            assert forall|j: int| 0 <= j < k implies elapsed(at, #[trigger] log[j]) >= window by {
                assert(elapsed(clock, log[j]) > window);
            }
            lemma_recent_skips_old(log, k, at, window);
            lemma_recent_bounded(held, at, window);
        }
    }
}

/// Admissions stay within the cap. Take a run of admissions that came in the order of the
/// clock and never had more than the cap within one window length, and a window that holds
/// the latest of them. When that window, pruned at `now`, lets a request through, and the
/// admission is recorded at `at`, no earlier than `now`, then the run with the new admission
/// is within the cap again, and the window with the new admission holds the latest of the
/// run.
pub proof fn lemma_admissions_within_cap(
    log: Seq<u64>,
    held: Seq<u64>,
    limit: usize,
    window: u64,
    clock: u64,
    now: u64,
    at: u64,
)
    requires
        in_order(log, clock),
        holds_latest(log, held, clock, window),
        within_cap(log, window, cap(limit)),
        window_wait(pruned(held, now, window), limit, now, window) is None,
        clock <= now <= at,
    ensures
        within_cap(log.push(at), window, cap(limit)),
        in_order(log.push(at), at),
        holds_latest(log.push(at), pruned(held, now, window).push(at), at, window),
{
    lemma_poll_keeps_windows(log, held, clock, now, window);
    lemma_pruned_head_fresh(held, now, window);
    lemma_record_keeps_cap(log, pruned(held, now, window), cap(limit), window, now, at);
}

proof fn lemma_recent_counts_tail(stamps: Seq<u64>, k: int, now: u64, window: u64)
    requires
        0 <= k <= stamps.len(),
        forall|j: int| k <= j < stamps.len() ==> elapsed(now, #[trigger] stamps[j]) < window,
    ensures
        recent(stamps, now, window) >= stamps.len() - k,
    decreases stamps.len(),
{
    if stamps.len() > k {
        let init = stamps.drop_last();
        assert forall|j: int| k <= j < init.len() implies elapsed(now, #[trigger] init[j])
            < window by {
            assert(init[j] == stamps[j]);
        }
        lemma_recent_counts_tail(init, k, now, window);
        assert(elapsed(now, stamps[stamps.len() - 1]) < window);
    }
}

/// Within the cap, admissions are spread out: an admission and the one that comes `bound`
/// admissions after it are a full window apart at least, so that no stretch of time shorter
/// than the window holds more than `bound` admissions.
pub proof fn lemma_admissions_spread(log: Seq<u64>, clock: u64, window: u64, bound: nat, i: int)
    requires
        in_order(log, clock),
        within_cap(log, window, bound),
        0 <= i,
        i + bound < log.len(),
    ensures
        log[i + bound] - log[i] >= window,
{
    let last = i + bound;
    let upto = log.take(last + 1);
    if log[last] - log[i] < window {
        assert forall|j: int| i <= j < upto.len() implies elapsed(log[last], #[trigger] upto[j])
            < window by {
            assert(upto[j] == log[j]);
            assert(log[i] <= log[j] && log[j] <= log[last]);
        }
        lemma_recent_counts_tail(upto, i, log[last], window);
        assert(recent(log.take(last + 1), log[last], window) <= bound);
    }
}

/// One sleep per window is enough: once a caller has waited as long as a window within its
/// cap asked for, pruning drops the window's earliest instant, and the window does not keep
/// the caller waiting again.
pub proof fn lemma_wait_is_enough(stamps: Seq<u64>, limit: usize, window: u64, now: u64)
    requires
        window_wait(stamps, limit, now, window) is Some,
        window < u64::MAX,
        stamps.len() <= cap(limit),
        stamps[0] <= now,
        now + window_wait(stamps, limit, now, window)->0 <= u64::MAX,
    ensures
        ({
            let later = (now + window_wait(stamps, limit, now, window)->0) as u64;
            window_wait(pruned(stamps, later, window), limit, later, window) is None
        }),
{
    let later = (now + window_wait(stamps, limit, now, window)->0) as u64;
    assert(elapsed(later, stamps[0]) == window + 1);
    lemma_pruned_head_fresh(stamps, later, window);
}

} // verus!
