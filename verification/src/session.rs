//! The decisions the command-line program makes around a run: reading the
//! user's answers, clamping the chapter window, choosing what to retry and
//! wording the reports.

use vstd::prelude::*;
use crate::crawler::{CrawlStatus, ExistingChapterDecision, ExistingFilePolicy};
use crate::runner::ProgressEvent;
use crate::source::{ref_views, ChapterRef};
use crate::text::{chars_of, concat, decimal, join, lemma_join_push, owned, str_eq, string_of, u64_to_string};
use crate::utils::{trim, trim_str};
use crate::epub::cover::{lowercase, to_lowercase};
use crate::source::registry::{ascii_lower, ascii_lower_char};

verus! {

/// Strictly ascending, so each number once.
pub open spec fn ascending(s: Seq<u32>) -> bool {
    forall|i: int, j: int| 0 <= i < j < s.len() ==> #[trigger] s[i] < #[trigger] s[j]
}

/// The chapter numbers of a failure list.
pub open spec fn failed_numbers(f: Seq<(u32, String)>) -> Seq<u32> {
    f.map_values(|x: (u32, String)| x.0)
}

/// The decimal forms of `ns`.
pub open spec fn decimals(ns: Seq<u32>) -> Seq<Seq<char>> {
    ns.map_values(|n: u32| decimal(n as nat))
}

/// Whether `text` lists the distinct numbers of `numbers` in ascending
/// order, comma-separated.
pub open spec fn lists_numbers(text: Seq<char>, numbers: Seq<u32>) -> bool {
    exists|l: Seq<u32>| ascending(l) && (forall|x: u32| #[trigger] l.contains(x) <==> numbers.contains(x))
        && text == join(decimals(l), ", "@)
}

/// The failed chapters as `1, 4, 7`: sorted, each chapter once.
pub fn format_failure_chapter_list(failures: &[(u32, String)]) -> (s: String)
    ensures
        lists_numbers(s@, failed_numbers(failures@)),
{
    let mut l: Vec<u32> = Vec::new();
    let mut i: usize = 0;
    while i < failures.len()
        invariant
            i <= failures.len(),
            ascending(l@),
            forall|x: u32| #[trigger] l@.contains(x) <==> failed_numbers(failures@).take(i as int).contains(x),
        decreases failures.len() - i,
    {
        let n = failures[i].0;
        let ghost fv = failed_numbers(failures@);
        let ghost ta = fv.take(i + 1);
        let ghost pa = fv.take(i as int);
        proof {
            assert(ta =~= pa.push(n));
        }
        let mut p: usize = 0;
        while p < l.len() && l[p] < n
            invariant
                p <= l.len(),
                forall|k: int| 0 <= k < p ==> #[trigger] l@[k] < n,
            decreases l.len() - p,
        {
            p = p + 1;
        }
        if p < l.len() && l[p] == n {
            proof {
                assert forall|x: u32| #[trigger] l@.contains(x) <==> ta.contains(x) by {
                    if x == n {
                        assert(l@[p as int] == n);
                        assert(ta[i as int] == n);
                    }
                    if ta.contains(x) && x != n {
                        let m = choose|m: int| 0 <= m < i + 1 && ta[m] == x;
                        assert(pa[m] == x);
                    }
                    if pa.contains(x) {
                        let m = choose|m: int| 0 <= m < i && pa[m] == x;
                        assert(ta[m] == x);
                    }
                }
            }
        } else {
            let ghost old_l = l@;
            l.insert(p, n);
            proof {
                old_l.insert_ensures(p as int, n);
                assert forall|a: int, b: int| 0 <= a < b < l@.len() implies #[trigger] l@[a] < #[trigger] l@[b] by {
                    if a < p && b < p {
                    } else if a < p && b == p {
                    } else if a < p && b > p {
                        assert(l@[b] == old_l[b - 1]);
                        assert(old_l[a] < old_l[b - 1] || a == b - 1);
                    } else if a == p {
                        assert(l@[b] == old_l[b - 1]);
                        assert(old_l[p as int] >= n);
                        assert(old_l[p as int] != n);
                        if b - 1 > p {
                            assert(old_l[p as int] < old_l[b - 1]);
                        }
                    } else {
                        assert(l@[a] == old_l[a - 1] && l@[b] == old_l[b - 1]);
                    }
                }
                assert forall|x: u32| #[trigger] l@.contains(x) <==> ta.contains(x) by {
                    if l@.contains(x) {
                        let k = choose|k: int| 0 <= k < l@.len() && l@[k] == x;
                        if k < p {
                            assert(old_l[k] == x);
                            assert(old_l.contains(x));
                        } else if k > p {
                            assert(old_l[k - 1] == x);
                            assert(old_l.contains(x));
                        } else {
                            assert(ta[i as int] == n);
                        }
                        if old_l.contains(x) {
                            let m = choose|m: int| 0 <= m < i && pa[m] == x;
                            assert(ta[m] == x);
                        }
                    }
                    if ta.contains(x) {
                        let m = choose|m: int| 0 <= m < i + 1 && ta[m] == x;
                        if m < i {
                            assert(pa[m] == x);
                            assert(old_l.contains(x));
                            let k = choose|k: int| 0 <= k < old_l.len() && old_l[k] == x;
                            if k < p {
                                assert(l@[k] == x);
                            } else {
                                assert(l@[k + 1] == x);
                            }
                        } else {
                            assert(l@[p as int] == x);
                        }
                    }
                }
            }
        }
        i = i + 1;
    }
    proof {
        assert(failed_numbers(failures@).take(failures.len() as int) =~= failed_numbers(failures@));
    }
    let ghost ds = decimals(l@);
    let mut s = String::new();
    let mut k: usize = 0;
    while k < l.len()
        invariant
            k <= l.len(),
            ds == decimals(l@),
            s@ == join(ds.take(k as int), ", "@),
        decreases l.len() - k,
    {
        if k > 0 {
            s.append(", ");
            proof {
                lemma_join_push(ds, ", "@, k as int);
            }
        } else {
            proof {
                assert(ds.take(1) =~= seq![ds[0]]);
            }
        }
        s.append(u64_to_string(l[k] as u64).as_str());
        k = k + 1;
    }
    proof {
        assert(ds.take(l.len() as int) =~= ds);
        assert(lists_numbers(s@, failed_numbers(failures@)));
    }
    s
}

/// The status line of one progress event, when it has one.
pub open spec fn event_line(e: ProgressEvent) -> Option<Seq<char>> {
    match e {
        ProgressEvent::Started { .. } => None,
        ProgressEvent::Completed { number, status } => Some("["@ + match status {
            CrawlStatus::Written => "OK"@,
            CrawlStatus::Skipped => "SKIP"@,
            CrawlStatus::SkipAll => "SKIP-ALL"@,
        } + "] Chapter "@ + decimal(number as nat)),
        ProgressEvent::Failed { number, message } => Some("[FAIL] Chapter "@ + decimal(number as nat) + ": "@ + message@),
        ProgressEvent::ConcurrencyClamped { requested, effective, source } => Some("[INFO] "@ + source@
            + " allows at most "@ + decimal(effective as nat) + " concurrent requests; using "@
            + decimal(effective as nat) + " workers instead of "@ + decimal(requested as nat) + "."@),
    }
}

/// Format a single-line status update for one chapter event, printed beside
/// the progress bar or on its own when the bar is hidden.
pub fn format_event(event: &ProgressEvent) -> (r: Option<String>)
    ensures
        r.deep_view() == event_line(*event),
{
    match event {
        ProgressEvent::Started { .. } => None,
        ProgressEvent::Completed { number, status } => {
            let label = match status {
                CrawlStatus::Written => "OK",
                CrawlStatus::Skipped => "SKIP",
                CrawlStatus::SkipAll => "SKIP-ALL",
            };
            let mut s = concat("[", label);
            s.append("] Chapter ");
            s.append(u64_to_string(*number as u64).as_str());
            Some(s)
        },
        ProgressEvent::Failed { number, message } => {
            let mut s = concat("[FAIL] Chapter ", u64_to_string(*number as u64).as_str());
            s.append(": ");
            s.append(message.as_str());
            Some(s)
        },
        ProgressEvent::ConcurrencyClamped { requested, effective, source } => {
            let e = u64_to_string(*effective as u64);
            let mut s = concat("[INFO] ", source);
            s.append(" allows at most ");
            s.append(e.as_str());
            s.append(" concurrent requests; using ");
            s.append(e.as_str());
            s.append(" workers instead of ");
            s.append(u64_to_string(*requested as u64).as_str());
            s.append(".");
            Some(s)
        },
    }
}

/// The decision a typed answer to the existing-chapter question stands for.
pub open spec fn existing_answer(line: Seq<char>) -> ExistingChapterDecision {
    let a = ascii_lower(trim(line));
    if a == "r"@ || a == "redownload"@ {
        ExistingChapterDecision::Redownload
    } else if a == "a"@ || a == "all"@ || a == "skip_all"@ || a == "skip-all"@ {
        ExistingChapterDecision::SkipAll
    } else {
        ExistingChapterDecision::Skip
    }
}

/// Read the answer to "redownload / skip / skip all existing": `r` or
/// `redownload` redownloads, `a`, `all`, `skip_all` or `skip-all` skips
/// every existing chapter, anything else skips this one.
pub fn parse_existing_answer(line: &str) -> (d: ExistingChapterDecision)
    ensures
        d == existing_answer(line@),
{
    let t = chars_of(trim_str(line).as_str());
    let mut lower: Vec<char> = Vec::new();
    let mut i: usize = 0;
    while i < t.len()
        invariant
            i <= t.len(),
            lower@ == ascii_lower(t@.take(i as int)),
        decreases t.len() - i,
    {
        let c = t[i];
        let l = if 'A' <= c && c <= 'Z' {
            let n: u32 = (c as u32) + 32;
            let b: u8 = n as u8;
            b as char
        } else {
            c
        };
        assert(l == ascii_lower_char(c));
        lower.push(l);
        i = i + 1;
        proof {
            assert(lower@ =~= ascii_lower(t@.take(i as int)));
        }
    }
    proof {
        assert(t@.take(t.len() as int) =~= t@);
    }
    let a = string_of(lower.as_slice());
    if str_eq(a.as_str(), "r") || str_eq(a.as_str(), "redownload") {
        ExistingChapterDecision::Redownload
    } else if str_eq(a.as_str(), "a") || str_eq(a.as_str(), "all") || str_eq(a.as_str(), "skip_all")
        || str_eq(a.as_str(), "skip-all") {
        ExistingChapterDecision::SkipAll
    } else {
        ExistingChapterDecision::Skip
    }
}

/// What the user chose after a run left chapters failed.
#[derive(Debug, Clone, Copy, PartialEq, Eq, Structural)]
pub enum FailureAction {
    /// Download the failed chapters again.
    Retry,
    /// Give up on the EPUB.
    Abort,
}

/// Read the answer to "retry failed chapters / abort": `r` or `retry`
/// retries, anything else aborts.
pub fn parse_failure_answer(line: &str) -> (a: FailureAction)
    ensures
        a == (if lowercase(trim(line@)) == "r"@ || lowercase(trim(line@)) == "retry"@ {
            FailureAction::Retry
        } else {
            FailureAction::Abort
        }),
{
    let l = to_lowercase(trim_str(line).as_str());
    if str_eq(l.as_str(), "r") || str_eq(l.as_str(), "retry") {
        FailureAction::Retry
    } else {
        FailureAction::Abort
    }
}

/// The question put to the user when chapters failed.
pub fn failure_question(failures: &[(u32, String)]) -> (s: String)
    ensures
        exists|list: Seq<char>| lists_numbers(list, failed_numbers(failures@)) && s@ == decimal(failures@.len())
            + " chapter(s) failed:\n"@ + list + "\n\nRetry the failed chapters before building the EPUB?"@,
{
    let list = format_failure_chapter_list(failures);
    let mut s = u64_to_string(failures.len() as u64);
    s.append(" chapter(s) failed:\n");
    s.append(list.as_str());
    s.append("\n\nRetry the failed chapters before building the EPUB?");
    s
}

/// The chapter window of a non-interactive run: from the requested start
/// (default 1) to the requested end, else the last chapter, else the start;
/// an end past the last chapter is pulled back to it, with a notice.
pub open spec fn chapter_window(start: Option<u32>, end: Option<u32>, last: Option<u32>) -> (u32, u32, bool) {
    let s = match start { Some(s) => s, None => 1u32 };
    let e = match (end, last) {
        (Some(e), _) => e,
        (None, Some(l)) => l,
        (None, None) => s,
    };
    match last {
        Some(l) => if e > l { (s, l, true) } else { (s, e, false) },
        None => (s, e, false),
    }
}

/// Resolve the chapter window of a non-interactive run; the flag says the
/// end was pulled back to the last available chapter.
pub fn resolve_chapter_window(start: Option<u32>, end: Option<u32>, last: Option<u32>) -> (r: (u32, u32, bool))
    ensures
        r == chapter_window(start, end, last),
{
    let s = match start {
        Some(s) => s,
        None => 1,
    };
    let e = match (end, last) {
        (Some(e), _) => e,
        (None, Some(l)) => l,
        (None, None) => s,
    };
    match last {
        Some(l) => if e > l { (s, l, true) } else { (s, e, false) },
        None => (s, e, false),
    }
}

/// The chapters of `plan` whose numbers failed, in plan order: what a retry
/// downloads again.
pub open spec fn retry_selection(plan: Seq<ChapterRef>, failed: Seq<u32>) -> Seq<(u32, Option<Seq<char>>, Seq<char>)>
    decreases plan.len(),
{
    if plan.len() == 0 {
        Seq::empty()
    } else {
        let r = retry_selection(plan.drop_last(), failed);
        if failed.contains(plan.last().number) { r.push(plan.last()@) } else { r }
    }
}

/// Whether some failure is for chapter `n`.
fn failed_chapter(failures: &[(u32, String)], n: u32) -> (r: bool)
    ensures
        r == failed_numbers(failures@).contains(n),
{
    let mut i: usize = 0;
    while i < failures.len()
        invariant
            i <= failures.len(),
            forall|k: int| 0 <= k < i ==> failed_numbers(failures@)[k] != n,
        decreases failures.len() - i,
    {
        if failures[i].0 == n {
            proof {
                assert(failed_numbers(failures@)[i as int] == n);
            }
            return true;
        }
        i = i + 1;
    }
    false
}

/// The chapters to download again after `failures`.
pub fn retry_chapters(plan: &[ChapterRef], failures: &[(u32, String)]) -> (r: Vec<ChapterRef>)
    ensures
        ref_views(r@) == retry_selection(plan@, failed_numbers(failures@)),
{
    let mut r: Vec<ChapterRef> = Vec::new();
    let mut i: usize = 0;
    while i < plan.len()
        invariant
            i <= plan.len(),
            ref_views(r@) == retry_selection(plan@.take(i as int), failed_numbers(failures@)),
        decreases plan.len() - i,
    {
        proof {
            assert(plan@.take(i as int + 1).drop_last() =~= plan@.take(i as int));
        }
        if failed_chapter(failures, plan[i].number) {
            let c = plan[i].duplicate();
            proof {
                assert(ref_views(r@.push(c)) =~= ref_views(r@).push(c@));
            }
            r.push(c);
        }
        i = i + 1;
    }
    proof {
        assert(plan@.take(plan.len() as int) =~= plan@);
    }
    r
}

/// The program's exit status after a run: 0 when every chapter arrived,
/// 2 when some failed.
pub fn run_exit_code(failure_count: usize) -> (code: i32)
    ensures
        code == (if failure_count == 0 { 0i32 } else { 2i32 }),
{
    if failure_count == 0 { 0 } else { 2 }
}

/// The line a non-interactive run prints before asking whether to retry
/// failed chapters.
pub fn failure_prompt_line(failures: &[(u32, String)]) -> (s: String)
    ensures
        exists|list: Seq<char>| lists_numbers(list, failed_numbers(failures@)) && s@ == "\n[FAIL] "@ + decimal(failures@.len())
            + " chapter(s) failed: "@ + list,
{
    let list = format_failure_chapter_list(failures);
    let mut s = concat("\n[FAIL] ", u64_to_string(failures.len() as u64).as_str());
    s.append(" chapter(s) failed: ");
    s.append(list.as_str());
    s
}

/// Why a run cannot start with these worker and existing-file settings, if
/// it cannot: parallel workers cannot stop to ask about existing chapters.
pub fn workers_policy_error(workers: usize, if_exists: ExistingFilePolicy) -> (r: Option<String>)
    ensures
        if workers > 1 && if_exists == ExistingFilePolicy::Ask {
            r matches Some(m) && m@ == "Error: --workers > 1 requires --if-exists skip or --if-exists overwrite."@
        } else {
            r is None
        },
{
    if workers > 1 && if_exists == ExistingFilePolicy::Ask {
        Some(owned("Error: --workers > 1 requires --if-exists skip or --if-exists overwrite."))
    } else {
        None
    }
}

/// Whether a progress event moves the progress bar on: only a chapter's
/// end does, whether it succeeded or failed.
pub fn advances_bar(event: &ProgressEvent) -> (r: bool)
    ensures
        r == (event is Completed || event is Failed),
{
    match event {
        ProgressEvent::Completed { .. } | ProgressEvent::Failed { .. } => true,
        _ => false,
    }
}

/// The progress bar's message for the chapter now downloading.
pub fn current_chapter_message(number: u32) -> (s: String)
    ensures
        s@ == "→ chapter "@ + decimal(number as nat),
{
    concat("→ chapter ", u64_to_string(number as u64).as_str())
}

} // verus!
