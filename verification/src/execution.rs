//! Carrying out a resolved plan: the decisions between the first download,
//! retries of failed chapters, the EPUB build and the exit status. The
//! driver performs each action (a download, a question, a build) and hands
//! back what came of it; [`PlanRun`] decides what follows.
//!
//! An EPUB is never built with chapters missing: while chapters have failed,
//! the user is asked to retry them or give the book up.

use vstd::prelude::*;
use crate::text::{concat, decimal, owned, u64_to_string};
use crate::session::FailureAction;
use crate::source::{ref_views, ChapterRef};
use crate::ui::plan::CrawlMode;

verus! {

/// A message for the user.
#[derive(Debug, Clone, PartialEq, Eq)]
pub enum Notice {
    /// A line for standard error.
    Stderr(String),
    /// A line for standard output.
    Stdout(String),
    /// A titled note on the interactive screen.
    Note {
        /// The note's title.
        title: String,
        /// The note's text.
        body: String,
    },
}

/// The plain-value form of a [`Notice`]: which channel (0 standard error,
/// 1 standard output, 2 note), the title (empty but for a note) and the
/// text.
pub open spec fn notice_view(n: Notice) -> (nat, Seq<char>, Seq<char>) {
    match n {
        Notice::Stderr(l) => (0, Seq::empty(), l@),
        Notice::Stdout(l) => (1, Seq::empty(), l@),
        Notice::Note { title, body } => (2, title@, body@),
    }
}

/// The plain-value forms of a list of notices.
pub open spec fn notices_view(v: Seq<Notice>) -> Seq<(nat, Seq<char>, Seq<char>)> {
    v.map_values(|n: Notice| notice_view(n))
}

/// Where a plan run stands.
#[derive(Debug, Clone, Copy, PartialEq, Eq, Structural)]
pub enum PlanStage {
    /// The first download is running.
    Downloading,
    /// A download of the failed chapters is running.
    Retrying,
    /// The user is being asked whether to retry the failed chapters.
    Asking,
    /// The EPUB is being built.
    Building,
    /// The run is over.
    Done,
}

/// What the driver does next.
#[derive(Debug, Clone, PartialEq, Eq)]
pub enum PlanAction {
    /// Ask the user whether to retry the failed chapters or give the EPUB up.
    AskRetry,
    /// Download these chapters again, overwriting what is on disk (which may
    /// be partial after the failure).
    RetryChapters(Vec<u32>),
    /// Build the EPUB from this chapter directory.
    BuildEpub(String),
    /// Show the notices, then end the program with the exit status.
    Exit {
        /// The exit status: 0 success, 1 canceled, 2 chapters failed, 3 the
        /// EPUB could not be built.
        code: i32,
        /// What to tell the user first.
        notices: Vec<Notice>,
    },
}

/// A plan run in progress.
pub struct PlanRun {
    /// Whether the run talks to the user through the interactive screens.
    pub interactive: bool,
    /// Whether the run ends in an EPUB.
    pub epub: bool,
    /// Where the run stands.
    pub stage: PlanStage,
    /// The chapter directory the first download reported.
    pub output_dir: Option<String>,
    /// The chapters that failed in the latest download, with why.
    pub failures: Vec<(u32, String)>,
}

/// The characters of each failure's message, with its chapter.
pub open spec fn failures_view(f: Seq<(u32, String)>) -> Seq<(u32, Seq<char>)> {
    f.map_values(|x: (u32, String)| (x.0, x.1@))
}

/// The report of failed chapters a run that builds no EPUB prints without
/// the interactive screens: a heading, then one line per failure.
pub open spec fn failure_report(f: Seq<(u32, String)>) -> Seq<(nat, Seq<char>, Seq<char>)> {
    seq![(0nat, Seq::<char>::empty(), "\nSome chapters failed:"@)]
        + f.map_values(|x: (u32, String)| (0nat, Seq::<char>::empty(), "  - Chapter "@ + decimal(x.0 as nat) + ": "@ + x.1@))
}

/// The exit status for a finished download with `failures`.
pub open spec fn status_for(failures: nat) -> i32 {
    if failures == 0 { 0 } else { 2 }
}

/// What follows a download, once its failures are known, in a run that
/// builds an EPUB: ask about failures, else build from the chapter
/// directory, else stop for want of one.
pub open spec fn epub_next(failures: nat, dir: Option<Seq<char>>) -> (PlanStage, Option<(nat, Seq<char>)>) {
    if failures > 0 {
        (PlanStage::Asking, None)
    } else {
        match dir {
            Some(d) => (PlanStage::Building, Some((0nat, d))),
            None => (PlanStage::Done, Some((3nat, "[FAIL] No chapter directory available to build EPUB."@))),
        }
    }
}

/// One failed chapter's line in a failure report.
fn failure_line(number: u32, message: &str) -> (s: String)
    ensures
        s@ == "  - Chapter "@ + decimal(number as nat) + ": "@ + message@,
{
    let mut s = concat("  - Chapter ", u64_to_string(number as u64).as_str());
    s.append(": ");
    s.append(message);
    s
}

/// The failure report, as [`failure_report`] describes.
fn report_failures(failures: &Vec<(u32, String)>) -> (r: Vec<Notice>)
    ensures
        notices_view(r@) == failure_report(failures@),
{
    let mut r: Vec<Notice> = Vec::new();
    r.push(Notice::Stderr(owned("\nSome chapters failed:")));
    let ghost f = |x: (u32, String)| (0nat, Seq::<char>::empty(), "  - Chapter "@ + decimal(x.0 as nat) + ": "@ + x.1@);
    let mut i: usize = 0;
    while i < failures.len()
        invariant
            i <= failures.len(),
            f == (|x: (u32, String)| (0nat, Seq::<char>::empty(), "  - Chapter "@ + decimal(x.0 as nat) + ": "@ + x.1@)),
            notices_view(r@) == seq![(0nat, Seq::<char>::empty(), "\nSome chapters failed:"@)] + failures@.take(i as int).map_values(f),
        decreases failures.len() - i,
    {
        let line = failure_line(failures[i].0, failures[i].1.as_str());
        let n = Notice::Stderr(line);
        proof {
            assert(notices_view(r@.push(n)) =~= notices_view(r@).push(notice_view(n)));
            assert(failures@.take(i + 1).map_values(f) =~= failures@.take(i as int).map_values(f).push(f(failures@[i as int])));
        }
        r.push(n);
        i = i + 1;
    }
    proof {
        assert(failures@.take(failures.len() as int) =~= failures@);
    }
    r
}

/// The chapter numbers of a failure list, in order.
fn numbers_of(failures: &Vec<(u32, String)>) -> (r: Vec<u32>)
    ensures
        r@ == failures@.map_values(|x: (u32, String)| x.0),
{
    let mut r: Vec<u32> = Vec::new();
    let mut i: usize = 0;
    while i < failures.len()
        invariant
            i <= failures.len(),
            r@ == failures@.take(i as int).map_values(|x: (u32, String)| x.0),
        decreases failures.len() - i,
    {
        r.push(failures[i].0);
        i = i + 1;
        proof {
            assert(r@ =~= failures@.take(i as int).map_values(|x: (u32, String)| x.0));
        }
    }
    proof {
        assert(failures@.take(failures.len() as int) =~= failures@);
    }
    r
}

impl PlanRun {
    /// A run that starts by downloading.
    pub fn new(interactive: bool, epub: bool) -> (r: PlanRun)
        ensures
            r.interactive == interactive,
            r.epub == epub,
            r.stage == PlanStage::Downloading,
            r.output_dir is None,
            r.failures@.len() == 0,
    {
        PlanRun { interactive, epub, stage: PlanStage::Downloading, output_dir: None, failures: Vec::new() }
    }

    /// A run that only packages chapters already on disk, in `dir` when the
    /// plan could name it: it builds from there, or stops with status 3
    /// when there is no directory to package.
    pub fn epub_only(interactive: bool, dir: Option<String>) -> (r: (PlanRun, PlanAction))
        ensures
            r.0.interactive == interactive,
            r.0.epub,
            r.0.failures@.len() == 0,
            r.0.output_dir.deep_view() == dir.deep_view(),
            match dir {
                Some(d) => r.0.stage == PlanStage::Building && (r.1 matches PlanAction::BuildEpub(b) && b@ == d@),
                None => r.0.stage == PlanStage::Done && (r.1 matches PlanAction::Exit { code, notices } && code == 3
                    && notices_view(notices@) == seq![(0nat, Seq::<char>::empty(),
                        "[FAIL] Could not infer chapter directory: no novel title available to derive the directory from"@)]),
            },
    {
        match dir {
            Some(d) => {
                let action = PlanAction::BuildEpub(owned(d.as_str()));
                (PlanRun { interactive, epub: true, stage: PlanStage::Building, output_dir: Some(d), failures: Vec::new() }, action)
            },
            None => {
                let mut notices: Vec<Notice> = Vec::new();
                notices.push(Notice::Stderr(owned(
                    "[FAIL] Could not infer chapter directory: no novel title available to derive the directory from",
                )));
                proof {
                    assert(notices_view(notices@) =~= seq![(0nat, Seq::<char>::empty(),
                        "[FAIL] Could not infer chapter directory: no novel title available to derive the directory from"@)]);
                }
                (PlanRun { interactive, epub: true, stage: PlanStage::Done, output_dir: None, failures: Vec::new() },
                    PlanAction::Exit { code: 3, notices })
            },
        }
    }

    /// What follows once the failures of a download are known in a run
    /// that builds an EPUB.
    fn next_for_epub(&mut self) -> (a: PlanAction)
        requires
            old(self).epub,
        ensures
            final(self).interactive == old(self).interactive,
            final(self).epub == old(self).epub,
            final(self).output_dir == old(self).output_dir,
            final(self).failures == old(self).failures,
            final(self).stage == epub_next(old(self).failures@.len(), old(self).output_dir.deep_view()).0,
            match epub_next(old(self).failures@.len(), old(self).output_dir.deep_view()).1 {
                None => a == PlanAction::AskRetry,
                Some((code, text)) => if code == 0 {
                    a matches PlanAction::BuildEpub(d) && d@ == text
                } else {
                    a matches PlanAction::Exit { code: c, notices } && c == code
                        && notices_view(notices@) == seq![(0nat, Seq::<char>::empty(), text)]
                },
            },
    {
        if self.failures.len() > 0 {
            self.stage = PlanStage::Asking;
            return PlanAction::AskRetry;
        }
        match &self.output_dir {
            Some(d) => {
                let dir = owned(d.as_str());
                self.stage = PlanStage::Building;
                PlanAction::BuildEpub(dir)
            },
            None => {
                self.stage = PlanStage::Done;
                let mut notices: Vec<Notice> = Vec::new();
                notices.push(Notice::Stderr(owned("[FAIL] No chapter directory available to build EPUB.")));
                proof {
                    assert(notices_view(notices@) =~= seq![(0nat, Seq::<char>::empty(), "[FAIL] No chapter directory available to build EPUB."@)]);
                }
                PlanAction::Exit { code: 3, notices }
            },
        }
    }

    /// A download finished: canceled, or with the chapter directory it
    /// reported and the chapters that failed. A canceled download ends the
    /// program with status 1. After the first download, a run without an
    /// EPUB ends with status 0 or 2, listing the failures on standard error
    /// when not interactive. Otherwise the failures are asked about, or the
    /// EPUB is built; a retry keeps the first download's directory.
    pub fn downloaded(&mut self, canceled: bool, output_dir: Option<String>, failures: Vec<(u32, String)>) -> (a: PlanAction)
        requires
            old(self).stage == PlanStage::Downloading || old(self).stage == PlanStage::Retrying,
            old(self).stage == PlanStage::Retrying ==> old(self).epub,
        ensures
            final(self).interactive == old(self).interactive,
            final(self).epub == old(self).epub,
            canceled ==> final(self).stage == PlanStage::Done && (a matches PlanAction::Exit { code, notices } && code == 1
                && notices_view(notices@) == seq![(0nat, Seq::<char>::empty(), if old(self).stage == PlanStage::Downloading {
                    "[INFO] Download canceled by user."@
                } else {
                    "[INFO] Retry canceled by user."@
                })]),
            !canceled ==> failures_view(final(self).failures@) == failures_view(failures@),
            !canceled ==> final(self).output_dir.deep_view() == (if old(self).stage == PlanStage::Downloading {
                output_dir.deep_view()
            } else {
                old(self).output_dir.deep_view()
            }),
            !canceled && !old(self).epub ==> final(self).stage == PlanStage::Done && (a matches PlanAction::Exit { code, notices }
                && code == status_for(failures@.len())
                && notices_view(notices@) == (if failures@.len() > 0 && !old(self).interactive {
                    failure_report(failures@)
                } else {
                    Seq::empty()
                })),
            (a is BuildEpub) ==> final(self).failures@.len() == 0,
            !canceled && old(self).epub ==> final(self).stage == epub_next(failures@.len(), final(self).output_dir.deep_view()).0
                && match epub_next(failures@.len(), final(self).output_dir.deep_view()).1 {
                    None => a == PlanAction::AskRetry,
                    Some((code, text)) => if code == 0 {
                        a matches PlanAction::BuildEpub(d) && d@ == text
                    } else {
                        a matches PlanAction::Exit { code: c, notices } && c == code
                            && notices_view(notices@) == seq![(0nat, Seq::<char>::empty(), text)]
                    },
                },
    {
        if canceled {
            let line = if self.stage == PlanStage::Downloading {
                owned("[INFO] Download canceled by user.")
            } else {
                owned("[INFO] Retry canceled by user.")
            };
            let ghost text = line@;
            self.stage = PlanStage::Done;
            let mut notices: Vec<Notice> = Vec::new();
            notices.push(Notice::Stderr(line));
            proof {
                assert(notices_view(notices@) =~= seq![(0nat, Seq::<char>::empty(), text)]);
            }
            return PlanAction::Exit { code: 1, notices };
        }
        if self.stage == PlanStage::Downloading {
            self.output_dir = output_dir;
        }
        self.failures = failures;
        if !self.epub {
            let notices = if self.failures.len() > 0 && !self.interactive {
                report_failures(&self.failures)
            } else {
                let v: Vec<Notice> = Vec::new();
                proof {
                    assert(notices_view(v@) =~= Seq::empty());
                }
                v
            };
            self.stage = PlanStage::Done;
            let code = if self.failures.len() == 0 { 0 } else { 2 };
            return PlanAction::Exit { code, notices };
        }
        self.next_for_epub()
    }

    /// The user answered the question about failed chapters: giving up ends
    /// the program with status 2, telling how many chapters failed; a retry
    /// downloads the failed chapters again.
    pub fn answered(&mut self, choice: FailureAction) -> (a: PlanAction)
        requires
            old(self).stage == PlanStage::Asking,
        ensures
            final(self).interactive == old(self).interactive,
            final(self).epub == old(self).epub,
            final(self).output_dir == old(self).output_dir,
            final(self).failures == old(self).failures,
            choice == FailureAction::Retry ==> final(self).stage == PlanStage::Retrying
                && (a matches PlanAction::RetryChapters(ns) && ns@ == old(self).failures@.map_values(|x: (u32, String)| x.0)),
            choice == FailureAction::Abort ==> final(self).stage == PlanStage::Done
                && (a matches PlanAction::Exit { code, notices } && code == 2
                && notices_view(notices@) == seq![if old(self).interactive {
                    (2nat, "EPUB skipped"@, "Skipped EPUB build because "@ + decimal(old(self).failures@.len())
                        + " chapter(s) failed."@)
                } else {
                    (0nat, Seq::<char>::empty(), "[INFO] Skipping EPUB build due to "@ + decimal(old(self).failures@.len())
                        + " failed chapter(s)."@)
                }]),
    {
        match choice {
            FailureAction::Retry => {
                self.stage = PlanStage::Retrying;
                PlanAction::RetryChapters(numbers_of(&self.failures))
            },
            FailureAction::Abort => {
                let count = u64_to_string(self.failures.len() as u64);
                let n = if self.interactive {
                    let mut body = concat("Skipped EPUB build because ", count.as_str());
                    body.append(" chapter(s) failed.");
                    Notice::Note { title: owned("EPUB skipped"), body }
                } else {
                    let mut line = concat("[INFO] Skipping EPUB build due to ", count.as_str());
                    line.append(" failed chapter(s).");
                    Notice::Stderr(line)
                };
                let mut notices: Vec<Notice> = Vec::new();
                notices.push(n);
                proof {
                    assert(notices_view(notices@) =~= seq![notice_view(n)]);
                }
                self.stage = PlanStage::Done;
                PlanAction::Exit { code: 2, notices }
            },
        }
    }

    /// The EPUB build finished, with the file written or why it was not. A
    /// built EPUB ends the program with status 0 (2 should chapters have
    /// failed), telling where it is; a failed build ends it with status 3.
    pub fn built(&mut self, result: Result<String, String>) -> (a: PlanAction)
        requires
            old(self).stage == PlanStage::Building,
        ensures
            final(self).stage == PlanStage::Done,
            final(self).failures == old(self).failures,
            match result {
                Ok(path) => a matches PlanAction::Exit { code, notices } && code == status_for(old(self).failures@.len())
                    && notices_view(notices@) == seq![if old(self).interactive {
                        (2nat, "Done"@, "EPUB created at:\n"@ + path@ + if old(self).failures@.len() > 0 {
                            "\n\n"@ + decimal(old(self).failures@.len()) + " chapter(s) failed during download."@
                        } else {
                            Seq::<char>::empty()
                        })
                    } else {
                        (1nat, Seq::<char>::empty(), "[OK] EPUB -> "@ + path@)
                    }],
                Err(e) => a matches PlanAction::Exit { code, notices } && code == 3
                    && notices_view(notices@) == seq![if old(self).interactive {
                        (2nat, "EPUB build failed"@, e@)
                    } else {
                        (0nat, Seq::<char>::empty(), "[FAIL] EPUB build failed: "@ + e@)
                    }],
            },
    {
        self.stage = PlanStage::Done;
        let (code, n) = match result {
            Ok(path) => {
                let n = if self.interactive {
                    let mut body = concat("EPUB created at:\n", path.as_str());
                    if self.failures.len() > 0 {
                        body.append("\n\n");
                        body.append(u64_to_string(self.failures.len() as u64).as_str());
                        body.append(" chapter(s) failed during download.");
                    }
                    proof {
                        if self.failures@.len() == 0 {
                            assert(body@ =~= "EPUB created at:\n"@ + path@ + Seq::<char>::empty());
                        } else {
                            assert(body@ =~= "EPUB created at:\n"@ + path@ + ("\n\n"@ + decimal(self.failures@.len())
                                + " chapter(s) failed during download."@));
                        }
                    }
                    Notice::Note { title: owned("Done"), body }
                } else {
                    Notice::Stdout(concat("[OK] EPUB -> ", path.as_str()))
                };
                let code: i32 = if self.failures.len() == 0 { 0 } else { 2 };
                (code, n)
            },
            Err(e) => {
                let n = if self.interactive {
                    Notice::Note { title: owned("EPUB build failed"), body: e }
                } else {
                    Notice::Stderr(concat("[FAIL] EPUB build failed: ", e.as_str()))
                };
                (3i32, n)
            },
        };
        let mut notices: Vec<Notice> = Vec::new();
        notices.push(n);
        proof {
            assert(notices_view(notices@) =~= seq![notice_view(n)]);
        }
        PlanAction::Exit { code, notices }
    }

    /// The user canceled the EPUB build on the interactive screen: the
    /// program ends with status 1.
    pub fn build_canceled(&mut self) -> (a: PlanAction)
        requires
            old(self).stage == PlanStage::Building,
        ensures
            final(self).stage == PlanStage::Done,
            a matches PlanAction::Exit { code, notices } && code == 1
                && notices_view(notices@) == seq![(0nat, Seq::<char>::empty(), "[INFO] EPUB build canceled by user."@)],
    {
        self.stage = PlanStage::Done;
        let mut notices: Vec<Notice> = Vec::new();
        notices.push(Notice::Stderr(owned("[INFO] EPUB build canceled by user.")));
        proof {
            assert(notices_view(notices@) =~= seq![(0nat, Seq::<char>::empty(), "[INFO] EPUB build canceled by user."@)]);
        }
        PlanAction::Exit { code: 1, notices }
    }
}

/// A run builds an EPUB only once no chapter is missing: the build follows
/// a download only when that download left no failures.
pub proof fn lemma_builds_only_complete_books(failures: nat, dir: Option<Seq<char>>)
    ensures
        epub_next(failures, dir).0 == PlanStage::Building ==> failures == 0,
        failures > 0 ==> epub_next(failures, dir).0 == PlanStage::Asking,
{
}

/// The lines a non-interactive run prints before downloading: the chapter
/// span when there is one, then the worker count.
pub open spec fn banner_lines(numbers: Seq<u32>, workers: usize) -> Seq<Seq<char>> {
    let using = "[INFO] Using "@ + decimal(workers as nat) + " worker(s)"@;
    if numbers.len() > 0 {
        seq!["[INFO] Downloading chapters "@ + decimal(numbers[0] as nat) + " -> "@ + decimal(numbers.last() as nat)
            + " ("@ + decimal(numbers.len()) + " chapters)"@, using]
    } else {
        seq![using]
    }
}

/// The lines a non-interactive run prints before downloading, as
/// [`banner_lines`] describes.
pub fn download_banner(numbers: &[u32], workers: usize) -> (r: Vec<String>)
    ensures
        r@.map_values(|l: String| l@) == banner_lines(numbers@, workers),
{
    let mut r: Vec<String> = Vec::new();
    if numbers.len() > 0 {
        let mut l = concat("[INFO] Downloading chapters ", u64_to_string(numbers[0] as u64).as_str());
        l.append(" -> ");
        l.append(u64_to_string(numbers[numbers.len() - 1] as u64).as_str());
        l.append(" (");
        l.append(u64_to_string(numbers.len() as u64).as_str());
        l.append(" chapters)");
        r.push(l);
    }
    let mut using = concat("[INFO] Using ", u64_to_string(workers as u64).as_str());
    using.append(" worker(s)");
    r.push(using);
    proof {
        assert(r@.map_values(|l: String| l@) =~= banner_lines(numbers@, workers));
    }
    r
}

/// The notice for a requested end past the last chapter the source has.
pub fn end_clamp_notice(requested_end: u32, last: u32) -> (s: String)
    ensures
        s@ == "[INFO] Requested end chapter "@ + decimal(requested_end as nat) + " exceeds the last available chapter "@
            + decimal(last as nat) + "; stopping at "@ + decimal(last as nat) + "."@,
{
    let n = u64_to_string(last as u64);
    let mut s = concat("[INFO] Requested end chapter ", u64_to_string(requested_end as u64).as_str());
    s.append(" exceeds the last available chapter ");
    s.append(n.as_str());
    s.append("; stopping at ");
    s.append(n.as_str());
    s.append(".");
    s
}

/// The title an EPUB is built under: the plan's, else "Unknown Novel", as
/// the main-page extractor names a page without a usable title.
pub fn epub_title(novel_title: Option<&str>) -> (s: String)
    ensures
        s@ == match novel_title {
            Some(t) => t@,
            None => "Unknown Novel"@,
        },
{
    match novel_title {
        Some(t) => owned(t),
        None => owned("Unknown Novel"),
    }
}

/// What a non-interactive run does: package only, download and package, or
/// download only.
pub fn plan_mode(epub_only: bool, epub: bool) -> (m: CrawlMode)
    ensures
        m == (if epub_only { CrawlMode::EpubOnly } else if epub { CrawlMode::CrawlEpub } else { CrawlMode::Crawl }),
{
    if epub_only {
        CrawlMode::EpubOnly
    } else if epub {
        CrawlMode::CrawlEpub
    } else {
        CrawlMode::Crawl
    }
}

/// The chapters of `index` numbered from `start` through `end`, in index
/// order.
pub open spec fn in_window(index: Seq<ChapterRef>, start: u32, end: u32) -> Seq<(u32, Option<Seq<char>>, Seq<char>)>
    decreases index.len(),
{
    if index.len() == 0 {
        Seq::empty()
    } else {
        let r = in_window(index.drop_last(), start, end);
        let c = index.last();
        if start <= c.number && c.number <= end { r.push(c@) } else { r }
    }
}

/// The chapters of `index` within the chapter window, as [`in_window`]
/// describes.
pub fn chapters_in_window(index: &[ChapterRef], start: u32, end: u32) -> (r: Vec<ChapterRef>)
    ensures
        ref_views(r@) == in_window(index@, start, end),
{
    let mut r: Vec<ChapterRef> = Vec::new();
    let mut i: usize = 0;
    while i < index.len()
        invariant
            i <= index.len(),
            ref_views(r@) == in_window(index@.take(i as int), start, end),
        decreases index.len() - i,
    {
        proof {
            assert(index@.take(i as int + 1).drop_last() =~= index@.take(i as int));
        }
        if start <= index[i].number && index[i].number <= end {
            let c = index[i].duplicate();
            proof {
                assert(ref_views(r@.push(c)) =~= ref_views(r@).push(c@));
            }
            r.push(c);
        }
        i = i + 1;
    }
    proof {
        assert(index@.take(index.len() as int) =~= index@);
    }
    r
}

/// The chapter numbers from `start` through `end`.
pub fn window_numbers(start: u32, end: u32) -> (r: Vec<u32>)
    ensures
        r@ == Seq::new(if start <= end { (end - start + 1) as nat } else { 0 }, |i: int| (start + i) as u32),
{
    let mut r: Vec<u32> = Vec::new();
    if start > end {
        proof {
            assert(r@ =~= Seq::new(0, |i: int| (start + i) as u32));
        }
        return r;
    }
    let mut n: u32 = start;
    loop
        invariant_except_break
            start <= n <= end,
            r@ == Seq::new((n - start) as nat, |i: int| (start + i) as u32),
        ensures
            r@ == Seq::new((end - start + 1) as nat, |i: int| (start + i) as u32),
        decreases end - n,
    {
        r.push(n);
        proof {
            assert(r@ =~= Seq::new((n - start + 1) as nat, |i: int| (start + i) as u32));
        }
        if n == end {
            break;
        }
        n = n + 1;
    }
    r
}

} // verus!
