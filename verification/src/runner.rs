//! Run-level vocabulary shared by the chapter runners and their observers,
//! and the decisions a run makes between chapter downloads.

use vstd::prelude::*;
use crate::order::{ascending_by, keyed, lemma_insert_keyed, lemma_keyed_cons, lemma_keyed_empty};
use crate::crawler::CrawlStatus;

verus! {

/// One observable progress event emitted by the runners.
#[derive(Debug, Clone, PartialEq, Eq)]
pub enum ProgressEvent {
    /// A chapter download is about to start. `total` is the number of
    /// chapters in this run.
    Started { number: u32, total: u32 },
    /// A chapter completed successfully (written, skipped, or skip-all).
    Completed { number: u32, status: CrawlStatus },
    /// A chapter failed, with the error text also kept in the outcome.
    Failed { number: u32, message: String },
    /// The source's rate policy capped this run below the requested worker
    /// count. Emitted once, before the first chapter starts.
    ConcurrencyClamped {
        /// Workers the user asked for.
        requested: usize,
        /// Workers actually started.
        effective: usize,
        /// Adapter id whose policy imposed the cap.
        source: &'static str,
    },
}

/// Aggregated outcome of running multiple chapter downloads.
#[derive(Debug, Clone, Default)]
pub struct RunnerOutcome {
    /// First successfully resolved per-novel directory, if any chapter ran.
    pub output_dir: Option<String>,
    /// `(chapter_number, error_message)` for each failure, sorted by chapter
    /// number for parallel runs.
    pub failures: Vec<(u32, String)>,
    /// True when the run was aborted before completion.
    pub canceled: bool,
}

} // verus!

verus! {

use crate::crawler::ExistingFilePolicy;
use crate::source::{RatePolicy, SourceError};
use crate::text::{concat, owned, u64_to_string, decimal};

/// The message a chapter failure is reported with, after `retries_spent`
/// rate-limit retries.
pub open spec fn failure_text(error: SourceError, retries_spent: u32) -> Seq<char> {
    match error {
        SourceError::RateLimited { source_name, message } =>
            "rate limited by "@ + source_name@ + ", giving up after "@ + decimal(retries_spent as nat)
                + " retries: "@ + message@,
        SourceError::Unentitled(what) => "not available to this client: "@ + what@,
        _ => error.spec_message(),
    }
}

/// Describe a chapter failure for the run summary. A rate limit says how
/// many retries were spent; an entitlement refusal says the chapter is not
/// available; anything else is reported as it is.
pub fn describe_failure(error: &SourceError, retries_spent: u32) -> (s: String)
    ensures
        s@ == failure_text(*error, retries_spent),
{
    match error {
        SourceError::RateLimited { source_name, message } => {
            let mut s = concat("rate limited by ", source_name);
            s.append(", giving up after ");
            s.append(u64_to_string(retries_spent as u64).as_str());
            s.append(" retries: ");
            s.append(message.as_str());
            s
        },
        SourceError::Unentitled(what) => concat("not available to this client: ", what.as_str()),
        _ => error.message(),
    }
}

/// What a runner does after a chapter attempt failed.
#[derive(Debug, Clone, PartialEq, Eq)]
pub enum RetryDecision {
    /// Back the whole run off by this many milliseconds, then try again.
    Retry {
        /// Retries spent, counting this one.
        retries: u32,
        /// How long the run pauses before the next request.
        backoff_ms: u64,
    },
    /// Report the chapter failed with this message.
    GiveUp(String),
}

/// Decide what follows a failed attempt: a rate-limited chapter is retried
/// while retries remain, each retry backing off one more step of the
/// policy's base; anything else fails the chapter.
pub fn retry_decision(error: &SourceError, retries: u32, policy: &RatePolicy) -> (d: RetryDecision)
    requires
        policy.backoff_base_ms * policy.max_retries <= u64::MAX,
    ensures
        (error is RateLimited && retries < policy.max_retries) ==>
            d == (RetryDecision::Retry { retries: (retries + 1) as u32, backoff_ms: (policy.backoff_base_ms * (retries + 1)) as u64 }),
        !(error is RateLimited && retries < policy.max_retries) ==>
            (d matches RetryDecision::GiveUp(m) && m@ == failure_text(*error, retries)),
{
    let rate_limited = match error {
        SourceError::RateLimited { .. } => true,
        _ => false,
    };
    if rate_limited && retries < policy.max_retries {
        let next = retries + 1;
        proof {
            assert(policy.backoff_base_ms * next <= policy.backoff_base_ms * policy.max_retries) by (nonlinear_arith)
                requires
                    next <= policy.max_retries;
        }
        RetryDecision::Retry { retries: next, backoff_ms: policy.backoff_base_ms * (next as u64) }
    } else {
        RetryDecision::GiveUp(describe_failure(error, retries))
    }
}

/// The request pacer of a run: the earliest moment (in nanoseconds) the
/// next request may go out, and the spacing every request imposes.
#[derive(Debug, Clone, Copy, PartialEq, Eq, Structural)]
pub struct Pacer {
    /// Earliest moment the next request may start.
    pub next_allowed: u64,
    /// Spacing each request imposes on the next, in nanoseconds.
    pub min_delay: u64,
}

impl Pacer {
    /// A pacer that lets the first request go at `now`.
    pub fn new(min_delay_ms: u64, now: u64) -> (p: Pacer)
        requires
            min_delay_ms * 1_000_000 <= u64::MAX,
        ensures
            p.next_allowed == now,
            p.min_delay == min_delay_ms * 1_000_000,
    {
        Pacer { next_allowed: now, min_delay: min_delay_ms * 1_000_000 }
    }

    /// How long a request arriving at `now` must wait for its turn.
    pub fn wait_before_turn(&self, now: u64) -> (wait: u64)
        ensures
            wait == (if self.next_allowed > now { self.next_allowed - now } else { 0 }),
    {
        if self.next_allowed > now { self.next_allowed - now } else { 0 }
    }

    /// A request starts at `now`: the next may not start before `now` plus
    /// the spacing.
    pub fn take_turn(&mut self, now: u64)
        requires
            now + old(self).min_delay <= u64::MAX,
        ensures
            final(self).next_allowed == now + old(self).min_delay,
            final(self).min_delay == old(self).min_delay,
    {
        self.next_allowed = now + self.min_delay;
    }

    /// Push the next request back to at least `now` plus `delay_ms`; an
    /// earlier backoff already further out stands.
    pub fn back_off(&mut self, now: u64, delay_ms: u64)
        requires
            now + delay_ms * 1_000_000 <= u64::MAX,
        ensures
            final(self).next_allowed == (if old(self).next_allowed > now + delay_ms * 1_000_000 {
                old(self).next_allowed
            } else {
                (now + delay_ms * 1_000_000) as u64
            }),
            final(self).next_allowed >= old(self).next_allowed,
            final(self).min_delay == old(self).min_delay,
    {
        let until = now + delay_ms * 1_000_000;
        if self.next_allowed < until {
            self.next_allowed = until;
        }
    }
}

/// What the sequential runner has learnt so far.
pub struct SequentialRun {
    /// The first chapter directory a completed chapter reported.
    pub output_dir: Option<String>,
    /// How existing chapter files are treated from here on.
    pub existing_policy: ExistingFilePolicy,
    /// Each failed chapter with its message, in run order.
    pub failures: Vec<(u32, String)>,
}

/// The characters of each failure's message, with its chapter.
pub open spec fn failure_views(f: Seq<(u32, String)>) -> Seq<(u32, Seq<char>)> {
    f.map_values(|x: (u32, String)| (x.0, x.1@))
}

impl SequentialRun {
    /// A run before its first chapter: no directory, asking about existing
    /// files, no failures.
    pub fn new() -> (r: SequentialRun)
        ensures
            r.output_dir is None,
            r.existing_policy == ExistingFilePolicy::Ask,
            r.failures@.len() == 0,
    {
        SequentialRun { output_dir: None, existing_policy: ExistingFilePolicy::Ask, failures: Vec::new() }
    }

    /// Take in one chapter's result and return the event to report: the
    /// first directory is kept, a skip-all answer applies to every later
    /// chapter, a failure is remembered.
    pub fn record(&mut self, number: u32, result: Result<(String, CrawlStatus), String>) -> (event: ProgressEvent)
        ensures
            match result {
                Ok((dir, status)) => {
                    &&& event == (ProgressEvent::Completed { number, status })
                    &&& final(self).output_dir.deep_view() == (match old(self).output_dir {
                        Some(d) => Some(d@),
                        None => Some(dir@),
                    })
                    &&& final(self).existing_policy == (if status == CrawlStatus::SkipAll {
                        ExistingFilePolicy::SkipAll
                    } else {
                        old(self).existing_policy
                    })
                    &&& failure_views(final(self).failures@) == failure_views(old(self).failures@)
                },
                Err(message) => {
                    &&& (event matches ProgressEvent::Failed { number: n, message: m } && n == number && m@ == message@)
                    &&& final(self).output_dir == old(self).output_dir
                    &&& final(self).existing_policy == old(self).existing_policy
                    &&& failure_views(final(self).failures@) == failure_views(old(self).failures@).push((number, message@))
                },
            },
    {
        match result {
            Ok((dir, status)) => {
                if self.output_dir.is_none() {
                    self.output_dir = Some(dir);
                }
                if status == CrawlStatus::SkipAll {
                    self.existing_policy = ExistingFilePolicy::SkipAll;
                }
                ProgressEvent::Completed { number, status }
            },
            Err(message) => {
                let copy = owned(message.as_str());
                proof {
                    assert(failure_views(self.failures@.push((number, copy))) =~= failure_views(self.failures@).push((number, message@)));
                }
                self.failures.push((number, copy));
                ProgressEvent::Failed { number, message }
            },
        }
    }
}

/// The worker count a parallel run starts, and the notice to report when
/// the source's policy capped it below the request.
pub fn concurrency_plan(workers: usize, policy: &RatePolicy, source: &'static str) -> (r: (usize, Option<ProgressEvent>))
    ensures
        r.0 == policy.spec_effective_workers(workers),
        r.0 >= 1,
        (r.0 < (if workers == 0 { 1 } else { workers })) ==> r.1 == Some(ProgressEvent::ConcurrencyClamped {
            requested: if workers == 0 { 1usize } else { workers }, effective: r.0, source }),
        !(r.0 < (if workers == 0 { 1 } else { workers })) ==> r.1 is None,
{
    let requested = if workers == 0 { 1 } else { workers };
    let effective = policy.effective_workers(workers);
    if effective < requested {
        (effective, Some(ProgressEvent::ConcurrencyClamped { requested, effective, source }))
    } else {
        (effective, None)
    }
}

/// A failure's chapter number, the key failures are ordered by.
pub open spec fn failure_chapter() -> spec_fn((u32, String)) -> u32 {
    |f: (u32, String)| f.0
}

/// Order failures by chapter number, keeping the run order among failures
/// of one chapter (a stable sort).
pub fn sort_failures(failures: Vec<(u32, String)>) -> (r: Vec<(u32, String)>)
    ensures
        ascending_by(r@, failure_chapter()),
        forall|k: u32| #[trigger] keyed(r@, failure_chapter(), k) == keyed(failures@, failure_chapter(), k),
{
    let ghost key = failure_chapter();
    let ghost orig = failures@;
    let mut rest = failures;
    let mut out: Vec<(u32, String)> = Vec::new();
    proof {
        lemma_keyed_empty(key);
        assert(orig.skip(orig.len() as int) =~= Seq::<(u32, String)>::empty());
        assert(out@ =~= Seq::<(u32, String)>::empty());
    }
    while rest.len() > 0
        invariant
            key == failure_chapter(),
            rest@ == orig.take(rest.len() as int),
            rest.len() <= orig.len(),
            ascending_by(out@, key),
            forall|k: u32| #[trigger] keyed(out@, key, k) == keyed(orig.skip(rest.len() as int), key, k),
        decreases rest.len(),
    {
        let ghost n = rest.len() as int;
        let x = rest.pop().unwrap();
        proof {
            assert(x == orig[n - 1]);
            assert(orig.skip(n - 1) =~= seq![x] + orig.skip(n));
            assert(rest@ =~= orig.take(n - 1));
        }
        let mut j: usize = out.len();
        while j > 0 && out[j - 1].0 >= x.0
            invariant
                j <= out.len(),
                forall|m: int| j <= m < out.len() ==> out@[m].0 >= x.0,
            decreases j,
        {
            j = j - 1;
        }
        let ghost before = out@;
        proof {
            assert forall|m: int| 0 <= m < j implies key(before[m]) < key(x) by {
                assert(before[j - 1].0 < x.0);
            }
            lemma_insert_keyed(before, j as int, x, key);
        }
        out.insert(j, x);
        proof {
            assert forall|k: u32| #[trigger] keyed(out@, key, k) == keyed(orig.skip(rest.len() as int), key, k) by {
                lemma_keyed_cons(x, orig.skip(n), key, k);
                assert(keyed(out@, key, k) == keyed(before.insert(j as int, x), key, k));
            }
        }
    }
    proof {
        assert(orig.skip(0) =~= orig);
    }
    out
}

} // verus!
