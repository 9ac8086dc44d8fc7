//! State behind the download progress screen: chapter tallies, a rolling
//! activity log, and a remaining-time estimate from recent throughput.
//!
//! Instants are nanosecond counts on the monotonic clock, measured from the
//! instant the tracker was created (its `clock`); durations are nanosecond
//! counts.

use vstd::prelude::*;
use crate::clock::{instant_now, nanos_since};
use crate::crawler::CrawlStatus;
use crate::runner::ProgressEvent;
use crate::text::{decimal, pad2, pad2_string, u64_to_string};

verus! {

/// One line of the rolling download log shown in the TUI.
#[derive(Debug, Clone, PartialEq, Eq)]
pub enum DownloadLogEntry {
    /// Chapter was written to disk.
    Saved(u32),
    /// Chapter file already existed and was skipped.
    Skip(u32),
    /// Chapter download failed, with the error message.
    Fail(u32, String),
    /// A run-scoped notice that belongs to no single chapter.
    Note(String),
}

/// Default number of recent log entries kept for display.
pub const DEFAULT_LOG_WINDOW: usize = 500;

/// How many recent chapter arrivals the remaining-time estimate is measured
/// over. Deliberately short, so a burst of already-on-disk chapters falls out
/// of the window and the estimate recovers on its own.
pub const MAX_RATE_SAMPLES: usize = 20;

/// Shortest sample span, in nanoseconds, the estimate is computed from.
/// Reporting nothing beats a confident `00:00:00` computed from a burst.
pub const MIN_RATE_SPAN_NANOS: u64 = 2_000_000_000;

/// Nanoseconds in one second.
pub const NANOS_PER_SEC: u64 = 1_000_000_000;

/// The last `cap` elements of `s` (all of `s` when it is no longer).
pub open spec fn keep_last<T>(s: Seq<T>, cap: nat) -> Seq<T> {
    if s.len() > cap {
        s.skip(s.len() - cap)
    } else {
        s
    }
}

/// `a - b`, or zero when `b` is later.
pub open spec fn sat_sub(a: u64, b: u64) -> u64 {
    if a >= b {
        (a - b) as u64
    } else {
        0
    }
}

/// `HH:MM:SS` for a nanosecond duration; hours are never wrapped.
pub open spec fn hms(nanos: u64) -> Seq<char> {
    let total = nanos as nat / 1_000_000_000;
    pad2(total / 3600) + ":"@ + pad2((total % 3600) / 60) + ":"@ + pad2(total % 60)
}

/// Render a nanosecond duration as `HH:MM:SS`. The hour field is
/// unconditional and never wraps, so a very long run keeps counting past 24.
pub fn format_hms(duration_nanos: u64) -> (s: String)
    ensures
        s@ == hms(duration_nanos),
{
    let total = duration_nanos / NANOS_PER_SEC;
    let mut out = pad2_string(total / 3600);
    out.append(":");
    let minutes = pad2_string((total % 3600) / 60);
    out.append(minutes.as_str());
    out.append(":");
    let seconds = pad2_string(total % 60);
    out.append(seconds.as_str());
    out
}

/// Mutable state backing the in-TUI download progress screen.
#[derive(Debug, Clone)]
pub struct DownloadProgress {
    /// Total chapters expected in this run (used for the gauge denominator).
    pub total: u32,
    /// Chapters written or skipped so far.
    pub completed: u32,
    /// Chapters that produced an error so far.
    pub failed: u32,
    /// The chapter the most recent `Started` event referenced, if any.
    pub current_chapter: Option<u32>,
    /// Rolling window of the most recent log entries.
    pub log: Vec<DownloadLogEntry>,
    /// Maximum number of log entries kept in `log`.
    pub log_capacity: usize,
    /// Set when the runner has finished.
    pub done: bool,
    /// The monotonic clock reading the tracker was created at; every instant
    /// below counts nanoseconds from it.
    pub clock: std::time::Instant,
    /// When the run began, in nanoseconds.
    pub started_at: u64,
    /// When the run ended, once it has; freezes elapsed time there.
    pub finished_at: Option<u64>,
    /// Arrival instants of the most recent terminal chapter events, oldest
    /// first, at most [`MAX_RATE_SAMPLES`] of them.
    pub completions: Vec<u64>,
}

/// How many samples the throughput window holds after `advanced` chapters
/// have ended: all of them, up to [`MAX_RATE_SAMPLES`].
pub open spec fn samples_for(advanced: int) -> int {
    if advanced < MAX_RATE_SAMPLES {
        advanced
    } else {
        MAX_RATE_SAMPLES as int
    }
}

/// Chapters with a terminal event observed.
pub open spec fn advanced_of(p: DownloadProgress) -> int {
    p.completed + p.failed
}

/// Elapsed nanoseconds as of `now`, frozen at the end of the run once it ended.
pub open spec fn elapsed_of(p: DownloadProgress, now: u64) -> u64 {
    match p.finished_at {
        Some(end) => sat_sub(end, p.started_at),
        None => sat_sub(now, p.started_at),
    }
}

/// The remaining-time estimate as of `now`, in nanoseconds: the throughput
/// over the sample window, with the window stretched to `now`, applied to the
/// chapters still outstanding. `None` once done, with nothing expected or
/// outstanding, with fewer than two samples, or over a span under two seconds.
pub open spec fn eta_of(p: DownloadProgress, now: u64) -> Option<u64> {
    let adv = advanced_of(p);
    let remaining: int = if p.total > adv {
        p.total - adv
    } else {
        0
    };
    let c = p.completions@;
    if p.done || p.total == 0 || remaining == 0 || c.len() < 2 {
        None
    } else {
        let oldest = c[0];
        let spread = sat_sub(c.last(), oldest);
        let waited = sat_sub(now, oldest);
        let span: u64 = if spread >= waited {
            spread
        } else {
            waited
        };
        if span < MIN_RATE_SPAN_NANOS {
            None
        } else {
            let est = span * remaining / (c.len() - 1);
            Some(
                if est > u64::MAX {
                    u64::MAX
                } else {
                    est as u64
                },
            )
        }
    }
}

/// While nothing changes but the clock, an available estimate never
/// shrinks: the sample span stretches to the later instant, so a stalled
/// run's estimate grows instead of freezing.
pub proof fn lemma_eta_grows_while_stalled(p: DownloadProgress, now1: u64, now2: u64)
    requires
        eta_of(p, now1) is Some,
        now1 <= now2,
    ensures
        eta_of(p, now2) is Some,
        eta_of(p, now2)->0 >= eta_of(p, now1)->0,
{
    let adv = advanced_of(p);
    let remaining: int = if p.total > adv { p.total - adv } else { 0 };
    let c = p.completions@;
    let oldest = c[0];
    let spread = sat_sub(c.last(), oldest);
    let span1: u64 = if spread >= sat_sub(now1, oldest) { spread } else { sat_sub(now1, oldest) };
    let span2: u64 = if spread >= sat_sub(now2, oldest) { spread } else { sat_sub(now2, oldest) };
    assert(span1 <= span2);
    let d: int = c.len() - 1;
    assert(span1 * remaining / d <= span2 * remaining / d) by (nonlinear_arith)
        requires
            span1 <= span2,
            remaining >= 0,
            d > 0,
    {
        assert(span1 * remaining <= span2 * remaining);
        vstd::arithmetic::div_mod::lemma_div_is_ordered(span1 * remaining, span2 * remaining, d);
    }
}

/// Once a run has finished, the clock no longer matters: elapsed time stays
/// at the run's final duration and no estimate is offered, at every later
/// (or earlier) instant.
pub proof fn lemma_finished_run_is_frozen(p: DownloadProgress, end: u64, t: u64)
    requires
        p.done,
        p.finished_at == Some(end),
    ensures
        elapsed_of(p, t) == sat_sub(end, p.started_at),
        eta_of(p, t) is None,
{
}

/// Percentage complete (0..=100), rounded half up; 100 with nothing expected.
pub open spec fn percent_of(p: DownloadProgress) -> int {
    if p.total == 0 {
        100
    } else {
        let a: int = if advanced_of(p) < p.total {
            advanced_of(p)
        } else {
            p.total as int
        };
        (200 * a + p.total) / (2 * p.total)
    }
}

impl DownloadProgress {
    /// The state every constructor builds and every recording method keeps:
    /// the log holds at most `log_capacity` entries, and the throughput
    /// window holds one sample per chapter advanced, the newest
    /// [`MAX_RATE_SAMPLES`] of them.
    pub open spec fn wf(&self) -> bool {
        &&& self.log.len() <= self.log_capacity
        &&& self.completions.len() == samples_for(advanced_of(*self))
    }

    /// Construct an empty progress state for a run of `total` chapters,
    /// starting now, with the default log window.
    pub fn new(total: u32) -> (p: Self)
        ensures
            p.wf(),
            p.total == total,
            p.completed == 0,
            p.failed == 0,
            p.current_chapter is None,
            p.log@ == Seq::<DownloadLogEntry>::empty(),
            p.log_capacity == DEFAULT_LOG_WINDOW,
            p.started_at == 0,
            !p.done,
            p.finished_at is None,
            p.completions@ == Seq::<u64>::empty(),
    {
        Self::with_log_capacity(total, DEFAULT_LOG_WINDOW)
    }

    /// Same as [`DownloadProgress::new`] but with a custom log window size.
    pub fn with_log_capacity(total: u32, log_capacity: usize) -> (p: Self)
        ensures
            p.wf(),
            p.total == total,
            p.completed == 0,
            p.failed == 0,
            p.current_chapter is None,
            p.log@ == Seq::<DownloadLogEntry>::empty(),
            p.log_capacity == log_capacity,
            p.started_at == 0,
            !p.done,
            p.finished_at is None,
            p.completions@ == Seq::<u64>::empty(),
    {
        DownloadProgress {
            total,
            completed: 0,
            failed: 0,
            current_chapter: None,
            log: Vec::new(),
            log_capacity,
            done: false,
            clock: instant_now(),
            started_at: 0,
            finished_at: None,
            completions: Vec::new(),
        }
    }

    /// Record that chapter `number` is about to start downloading.
    pub fn record_started(&mut self, number: u32)
        ensures
            old(self).wf() ==> final(self).wf(),
            final(self).current_chapter == Some(number),
            final(self).total == old(self).total,
            final(self).completed == old(self).completed,
            final(self).failed == old(self).failed,
            final(self).log == old(self).log,
            final(self).log_capacity == old(self).log_capacity,
            final(self).done == old(self).done,
            final(self).started_at == old(self).started_at,
            final(self).clock == old(self).clock,
            final(self).finished_at == old(self).finished_at,
            final(self).completions == old(self).completions,
    {
        self.current_chapter = Some(number);
    }

    /// Record a successful (or skipped) chapter completion arriving now.
    pub fn record_completed(&mut self, number: u32, status: CrawlStatus)
        requires
            old(self).completed < u32::MAX,
        ensures
            old(self).wf() ==> final(self).wf(),
            final(self).completed == old(self).completed + 1,
            final(self).failed == old(self).failed,
            final(self).log@ == keep_last(old(self).log@.push(log_entry_for(number, status)), old(self).log_capacity as nat),
            final(self).completions@.len() == keep_last(old(self).completions@.push(0), MAX_RATE_SAMPLES as nat).len(),
            final(self).total == old(self).total,
            final(self).done == old(self).done,
            final(self).started_at == old(self).started_at,
            final(self).clock == old(self).clock,
            final(self).finished_at == old(self).finished_at,
            final(self).log_capacity == old(self).log_capacity,
            final(self).current_chapter == old(self).current_chapter,
    {
        let now = self.now();
        self.record_completed_at(number, status, now);
    }

    /// Record a successful (or skipped) chapter completion that arrived at
    /// `now`, contributing one sample to the throughput window.
    pub fn record_completed_at(&mut self, number: u32, status: CrawlStatus, now: u64)
        requires
            old(self).completed < u32::MAX,
        ensures
            old(self).wf() ==> final(self).wf(),
            final(self).completed == old(self).completed + 1,
            final(self).failed == old(self).failed,
            final(self).log@ == keep_last(old(self).log@.push(log_entry_for(number, status)), old(self).log_capacity as nat),
            final(self).completions@ == keep_last(old(self).completions@.push(now), MAX_RATE_SAMPLES as nat),
            final(self).total == old(self).total,
            final(self).done == old(self).done,
            final(self).started_at == old(self).started_at,
            final(self).clock == old(self).clock,
            final(self).finished_at == old(self).finished_at,
            final(self).log_capacity == old(self).log_capacity,
            final(self).current_chapter == old(self).current_chapter,
    {
        self.completed = self.completed + 1;
        let entry = match status {
            CrawlStatus::Written => DownloadLogEntry::Saved(number),
            CrawlStatus::Skipped | CrawlStatus::SkipAll => DownloadLogEntry::Skip(number),
        };
        self.push_log(entry);
        self.push_sample(now);
    }

    /// Record a failed chapter download arriving now.
    pub fn record_failed(&mut self, number: u32, message: String)
        requires
            old(self).failed < u32::MAX,
        ensures
            old(self).wf() ==> final(self).wf(),
            final(self).failed == old(self).failed + 1,
            final(self).completed == old(self).completed,
            final(self).log@ == keep_last(old(self).log@.push(DownloadLogEntry::Fail(number, message)), old(self).log_capacity as nat),
            final(self).completions@.len() == keep_last(old(self).completions@.push(0), MAX_RATE_SAMPLES as nat).len(),
            final(self).total == old(self).total,
            final(self).done == old(self).done,
            final(self).started_at == old(self).started_at,
            final(self).clock == old(self).clock,
            final(self).finished_at == old(self).finished_at,
            final(self).log_capacity == old(self).log_capacity,
            final(self).current_chapter == old(self).current_chapter,
    {
        let now = self.now();
        self.record_failed_at(number, message, now);
    }

    /// Record a failed chapter download that arrived at `now`. Failures
    /// advance the run just as completions do, so they contribute a sample.
    pub fn record_failed_at(&mut self, number: u32, message: String, now: u64)
        requires
            old(self).failed < u32::MAX,
        ensures
            old(self).wf() ==> final(self).wf(),
            final(self).failed == old(self).failed + 1,
            final(self).completed == old(self).completed,
            final(self).log@ == keep_last(old(self).log@.push(DownloadLogEntry::Fail(number, message)), old(self).log_capacity as nat),
            final(self).completions@ == keep_last(old(self).completions@.push(now), MAX_RATE_SAMPLES as nat),
            final(self).total == old(self).total,
            final(self).done == old(self).done,
            final(self).started_at == old(self).started_at,
            final(self).clock == old(self).clock,
            final(self).finished_at == old(self).finished_at,
            final(self).log_capacity == old(self).log_capacity,
            final(self).current_chapter == old(self).current_chapter,
    {
        self.failed = self.failed + 1;
        self.push_log(DownloadLogEntry::Fail(number, message));
        self.push_sample(now);
    }

    /// Number of arrivals currently held in the throughput window.
    pub fn rate_samples(&self) -> (n: usize)
        ensures
            n == self.completions.len(),
    {
        self.completions.len()
    }

    /// Record a run-scoped notice. Counts towards neither `completed` nor
    /// `failed`, and adds no throughput sample.
    pub fn record_note(&mut self, message: String)
        ensures
            old(self).wf() ==> final(self).wf(),
            final(self).log@ == keep_last(old(self).log@.push(DownloadLogEntry::Note(message)), old(self).log_capacity as nat),
            final(self).completed == old(self).completed,
            final(self).failed == old(self).failed,
            final(self).completions == old(self).completions,
            final(self).total == old(self).total,
            final(self).done == old(self).done,
            final(self).started_at == old(self).started_at,
            final(self).clock == old(self).clock,
            final(self).finished_at == old(self).finished_at,
            final(self).log_capacity == old(self).log_capacity,
            final(self).current_chapter == old(self).current_chapter,
    {
        self.push_log(DownloadLogEntry::Note(message));
    }

    /// Mark the run as done now.
    pub fn finish(&mut self)
        ensures
            old(self).wf() ==> final(self).wf(),
            final(self).done,
            final(self).finished_at is Some,
            final(self).total == old(self).total,
            final(self).completed == old(self).completed,
            final(self).failed == old(self).failed,
            final(self).log == old(self).log,
            final(self).completions == old(self).completions,
            final(self).started_at == old(self).started_at,
            final(self).clock == old(self).clock,
            final(self).log_capacity == old(self).log_capacity,
    {
        let now = self.now();
        self.finish_at(now);
    }

    /// Mark the run as done as of `now`, freezing elapsed time at that instant.
    pub fn finish_at(&mut self, now: u64)
        ensures
            old(self).wf() ==> final(self).wf(),
            final(self).done,
            final(self).finished_at == Some(now),
            final(self).total == old(self).total,
            final(self).completed == old(self).completed,
            final(self).failed == old(self).failed,
            final(self).log == old(self).log,
            final(self).completions == old(self).completions,
            final(self).started_at == old(self).started_at,
            final(self).clock == old(self).clock,
            final(self).log_capacity == old(self).log_capacity,
            final(self).current_chapter == old(self).current_chapter,
    {
        self.done = true;
        self.finished_at = Some(now);
    }

    /// The current instant: nanoseconds the monotonic clock has advanced
    /// since the tracker was created, stopping at `u64::MAX`.
    fn now(&self) -> (t: u64) {
        let n = nanos_since(&self.clock);
        if n > u64::MAX as u128 {
            u64::MAX
        } else {
            n as u64
        }
    }

    /// Nanoseconds this run has taken as of `now`, or its final duration once
    /// the run has ended.
    pub fn elapsed(&self, now: u64) -> (d: u64)
        ensures
            d == elapsed_of(*self, now),
    {
        let end = match self.finished_at {
            Some(end) => end,
            None => now,
        };
        if end >= self.started_at {
            end - self.started_at
        } else {
            0
        }
    }

    /// Estimated nanoseconds remaining as of `now`, or `None` when the samples
    /// do not support an estimate.
    pub fn eta(&self, now: u64) -> (r: Option<u64>)
        requires
            advanced_of(*self) <= u32::MAX,
        ensures
            r == eta_of(*self, now),
    {
        if self.done || self.total == 0 {
            return None;
        }
        let adv = self.advanced();
        let remaining: u32 = if self.total > adv {
            self.total - adv
        } else {
            0
        };
        if remaining == 0 {
            return None;
        }
        let n = self.completions.len();
        if n < 2 {
            return None;
        }
        let oldest = self.completions[0];
        let newest = self.completions[n - 1];
        let spread: u64 = if newest >= oldest {
            newest - oldest
        } else {
            0
        };
        let waited: u64 = if now >= oldest {
            now - oldest
        } else {
            0
        };
        let span = if spread >= waited {
            spread
        } else {
            waited
        };
        if span < MIN_RATE_SPAN_NANOS {
            return None;
        }
        let intervals = (n - 1) as u128;
        let wide_span = span as u128;
        let wide_remaining = remaining as u128;
        proof {
            assert(wide_span * wide_remaining <= u128::MAX) by (nonlinear_arith)
                requires
                    wide_span <= u64::MAX,
                    wide_remaining <= u32::MAX,
            ;
        }
        let est: u128 = wide_span * wide_remaining / intervals;
        if est > u64::MAX as u128 {
            Some(u64::MAX)
        } else {
            Some(est as u64)
        }
    }

    /// Total chapters with a terminal event observed (completed + failed).
    pub fn advanced(&self) -> (n: u32)
        requires
            advanced_of(*self) <= u32::MAX,
        ensures
            n == advanced_of(*self),
    {
        self.completed + self.failed
    }

    /// Apply a runner [`ProgressEvent`] to this state, stamping terminal
    /// events with the current time. The state changes as
    /// [`event_applied`] describes for some arrival instant, the clock's
    /// reading at the call.
    pub fn from_event(&mut self, event: ProgressEvent)
        requires
            event is Completed ==> old(self).completed < u32::MAX,
            event is Failed ==> old(self).failed < u32::MAX,
        ensures
            exists|t: u64| #[trigger] event_applied(*old(self), *final(self), event, t),
            old(self).wf() ==> final(self).wf(),
    {
        let now = self.now();
        self.from_event_at(event, now);
    }

    /// Apply a runner [`ProgressEvent`] that arrived at `now`, as
    /// [`event_applied`] describes.
    pub fn from_event_at(&mut self, event: ProgressEvent, now: u64)
        requires
            event is Completed ==> old(self).completed < u32::MAX,
            event is Failed ==> old(self).failed < u32::MAX,
        ensures
            event_applied(*old(self), *final(self), event, now),
            old(self).wf() ==> final(self).wf(),
    {
        match event {
            ProgressEvent::Started { number, .. } => self.record_started(number),
            ProgressEvent::Completed { number, status } => self.record_completed_at(number, status, now),
            ProgressEvent::Failed { number, message } => self.record_failed_at(number, message, now),
            ProgressEvent::ConcurrencyClamped { requested, effective, source } => {
                let note = clamp_note_string(requested, effective, source);
                self.record_note(note)
            },
        }
    }

    /// Percentage complete (0..=100), rounded.
    pub fn percent(&self) -> (pct: u16)
        requires
            advanced_of(*self) <= u32::MAX,
        ensures
            pct == percent_of(*self),
            pct <= 100,
    {
        if self.total == 0 {
            return 100;
        }
        let adv = self.advanced();
        let a: u64 = if adv < self.total {
            adv as u64
        } else {
            self.total as u64
        };
        let t = self.total as u64;
        let pct = (200 * a + t) / (2 * t);
        proof {
            assert(pct <= 100) by (nonlinear_arith)
                requires
                    a <= t,
                    t > 0,
                    pct == (200 * a + t) / (2 * t),
            ;
        }
        pct as u16
    }

    /// Push an arrival instant while preserving the throughput window's cap.
    fn push_sample(&mut self, now: u64)
        ensures
            final(self).completions@ == keep_last(old(self).completions@.push(now), MAX_RATE_SAMPLES as nat),
            final(self).total == old(self).total,
            final(self).completed == old(self).completed,
            final(self).failed == old(self).failed,
            final(self).log == old(self).log,
            final(self).log_capacity == old(self).log_capacity,
            final(self).done == old(self).done,
            final(self).started_at == old(self).started_at,
            final(self).clock == old(self).clock,
            final(self).finished_at == old(self).finished_at,
            final(self).current_chapter == old(self).current_chapter,
    {
        self.completions.push(now);
        trim_front(&mut self.completions, MAX_RATE_SAMPLES);
    }

    /// Push `entry` while preserving the rolling-window invariant.
    fn push_log(&mut self, entry: DownloadLogEntry)
        ensures
            final(self).log@ == keep_last(old(self).log@.push(entry), old(self).log_capacity as nat),
            final(self).total == old(self).total,
            final(self).completed == old(self).completed,
            final(self).failed == old(self).failed,
            final(self).completions == old(self).completions,
            final(self).log_capacity == old(self).log_capacity,
            final(self).done == old(self).done,
            final(self).started_at == old(self).started_at,
            final(self).clock == old(self).clock,
            final(self).finished_at == old(self).finished_at,
            final(self).current_chapter == old(self).current_chapter,
    {
        self.log.push(entry);
        let cap = self.log_capacity;
        trim_front(&mut self.log, cap);
    }
}

/// Drop elements from the front of `v` until at most `cap` remain.
fn trim_front<T>(v: &mut Vec<T>, cap: usize)
    ensures
        final(v)@ == keep_last(old(v)@, cap as nat),
{
    let ghost full = v@;
    while v.len() > cap
        invariant
            full.len() >= v.len(),
            v.len() >= cap || v@ == full,
            full.len() > cap ==> v.len() >= cap,
            v@ == full.skip(full.len() - v.len()),
        decreases v.len(),
    {
        let ghost before = v@;
        v.remove(0);
        proof {
            assert(v@ =~= before.skip(1));
            assert(full.skip(full.len() - v.len()) =~= before.skip(1));
        }
    }
    proof {
        if full.len() <= cap {
            assert(full.skip(0) =~= full);
        }
    }
}

/// How a runner event arriving at `now` takes the state `old` to `new`:
/// a start names the current chapter; a completion or failure bumps its
/// tally, logs the chapter and adds `now` to the throughput window; a
/// concurrency clamp logs its notice. Nothing else changes.
pub open spec fn event_applied(old: DownloadProgress, new: DownloadProgress, event: ProgressEvent, now: u64) -> bool {
    &&& new.total == old.total
    &&& new.log_capacity == old.log_capacity
    &&& new.started_at == old.started_at
    &&& new.clock == old.clock
    &&& new.done == old.done
    &&& new.finished_at == old.finished_at
    &&& match event {
        ProgressEvent::Started { number, .. } => {
            &&& new.current_chapter == Some(number)
            &&& new.completed == old.completed
            &&& new.failed == old.failed
            &&& new.log@ == old.log@
            &&& new.completions@ == old.completions@
        },
        ProgressEvent::Completed { number, status } => {
            &&& new.current_chapter == old.current_chapter
            &&& new.completed == old.completed + 1
            &&& new.failed == old.failed
            &&& new.log@ == keep_last(old.log@.push(log_entry_for(number, status)), old.log_capacity as nat)
            &&& new.completions@ == keep_last(old.completions@.push(now), MAX_RATE_SAMPLES as nat)
        },
        ProgressEvent::Failed { number, message } => {
            &&& new.current_chapter == old.current_chapter
            &&& new.completed == old.completed
            &&& new.failed == old.failed + 1
            &&& new.log@ == keep_last(old.log@.push(DownloadLogEntry::Fail(number, message)), old.log_capacity as nat)
            &&& new.completions@ == keep_last(old.completions@.push(now), MAX_RATE_SAMPLES as nat)
        },
        ProgressEvent::ConcurrencyClamped { requested, effective, source } => {
            &&& new.current_chapter == old.current_chapter
            &&& new.completed == old.completed
            &&& new.failed == old.failed
            &&& new.completions@ == old.completions@
            &&& exists|m: String| m@ == clamp_note(requested, effective, source@)
                && #[trigger] new.log@ == keep_last(old.log@.push(DownloadLogEntry::Note(m)), old.log_capacity as nat)
        },
    }
}

/// The log entry a completion with `status` produces.
pub open spec fn log_entry_for(number: u32, status: CrawlStatus) -> DownloadLogEntry {
    match status {
        CrawlStatus::Written => DownloadLogEntry::Saved(number),
        _ => DownloadLogEntry::Skip(number),
    }
}

/// The notice logged when the source's policy capped the worker count.
pub open spec fn clamp_note(requested: usize, effective: usize, source: Seq<char>) -> Seq<char> {
    source + " allows at most "@ + decimal(effective as nat) + " concurrent requests: using "@
        + decimal(effective as nat) + " workers instead of "@ + decimal(requested as nat)
}

/// Render [`clamp_note`].
fn clamp_note_string(requested: usize, effective: usize, source: &str) -> (s: String)
    ensures
        s@ == clamp_note(requested, effective, source@),
{
    let mut out = String::from_str(source);
    out.append(" allows at most ");
    let eff = u64_to_string(effective as u64);
    out.append(eff.as_str());
    out.append(" concurrent requests: using ");
    out.append(eff.as_str());
    out.append(" workers instead of ");
    let req = u64_to_string(requested as u64);
    out.append(req.as_str());
    out
}

/// The gauge label: tally, percentage and elapsed time, then the estimate
/// (or a placeholder) while the run is still in flight.
pub open spec fn gauge_text(p: DownloadProgress, now: u64) -> Seq<char> {
    let head = decimal(advanced_of(p) as nat) + " / "@ + decimal(p.total as nat) + "  ("@
        + decimal(percent_of(p) as nat) + "%)  ⏱ "@ + hms(elapsed_of(p, now));
    if p.done {
        head
    } else {
        head + "  ETA "@ + match eta_of(p, now) {
            Some(remaining) => hms(remaining),
            None => "—"@,
        }
    }
}

/// Compose the download gauge's label from `progress` as of `now`.
///
/// While the run is in flight the estimate segment is always present, showing
/// a placeholder when no estimate is available, so the label keeps a stable
/// width. Once the run has ended the segment is dropped entirely.
pub fn gauge_label(progress: &DownloadProgress, now: u64) -> (s: String)
    requires
        advanced_of(*progress) <= u32::MAX,
    ensures
        s@ == gauge_text(*progress, now),
{
    let adv = progress.advanced();
    let mut out = u64_to_string(adv as u64);
    out.append(" / ");
    let total = u64_to_string(progress.total as u64);
    out.append(total.as_str());
    out.append("  (");
    let pct = u64_to_string(progress.percent() as u64);
    out.append(pct.as_str());
    out.append("%)  ⏱ ");
    let elapsed = format_hms(progress.elapsed(now));
    out.append(elapsed.as_str());
    if progress.done {
        return out;
    }
    out.append("  ETA ");
    match progress.eta(now) {
        Some(remaining) => {
            let est = format_hms(remaining);
            out.append(est.as_str());
        },
        None => {
            out.append("—");
        },
    }
    out
}

} // verus!
