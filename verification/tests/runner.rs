use novel_downloader::crawler::{CrawlStatus, ExistingChapterDecision, ExistingFilePolicy};
use novel_downloader::runner::{
    concurrency_plan, describe_failure, retry_decision, sort_failures, Pacer, ProgressEvent, RetryDecision,
    SequentialRun,
};
use novel_downloader::session::{
    failure_question, format_event, format_failure_chapter_list, parse_existing_answer, parse_failure_answer,
    resolve_chapter_window, retry_chapters, run_exit_code, FailureAction, failure_prompt_line, workers_policy_error,
    advances_bar, current_chapter_message,
};
use novel_downloader::source::{ChapterRef, RatePolicy, SourceError};

fn xtruyen_policy() -> RatePolicy {
    RatePolicy { max_concurrency: 2, min_delay_ms: 500, max_retries: 3, backoff_base_ms: 2000 }
}

#[test]
fn a_rate_limited_chapter_is_retried_with_a_growing_backoff() {
    let error = SourceError::RateLimited { source_name: "xtruyen", message: "HTTP 429".to_string() };
    let policy = xtruyen_policy();
    assert_eq!(retry_decision(&error, 0, &policy), RetryDecision::Retry { retries: 1, backoff_ms: 2000 });
    assert_eq!(retry_decision(&error, 2, &policy), RetryDecision::Retry { retries: 3, backoff_ms: 6000 });
    assert_eq!(
        retry_decision(&error, 3, &policy),
        RetryDecision::GiveUp("rate limited by xtruyen, giving up after 3 retries: HTTP 429".to_string())
    );
}

#[test]
fn other_failures_are_not_retried() {
    let policy = xtruyen_policy();
    assert_eq!(
        retry_decision(&SourceError::Unentitled("Chương 9".to_string()), 0, &policy),
        RetryDecision::GiveUp("not available to this client: Chương 9".to_string())
    );
    assert_eq!(
        retry_decision(&SourceError::NotFound("https://x/".to_string()), 0, &policy),
        RetryDecision::GiveUp("not found: https://x/".to_string())
    );
    assert_eq!(describe_failure(&SourceError::Other("boom".to_string()), 5), "boom");
}

#[test]
fn the_pacer_spaces_requests_and_honours_backoff() {
    let mut pacer = Pacer::new(500, 1_000);
    assert_eq!(pacer.wait_before_turn(1_000), 0);
    pacer.take_turn(1_000);
    assert_eq!(pacer.wait_before_turn(1_000), 500_000_000);
    assert_eq!(pacer.wait_before_turn(600_000_000), 0);
    pacer.back_off(2_000, 2_000);
    assert_eq!(pacer.next_allowed, 2_000_002_000);
    pacer.back_off(0, 1);
    assert_eq!(pacer.next_allowed, 2_000_002_000, "an earlier backoff further out stands");
}

#[test]
fn a_sequential_run_keeps_the_first_directory_and_remembers_failures() {
    let mut run = SequentialRun::new();
    let e1 = run.record(1, Ok(("out/novel".to_string(), CrawlStatus::Written)));
    assert_eq!(e1, ProgressEvent::Completed { number: 1, status: CrawlStatus::Written });
    let e2 = run.record(2, Err("HTTP 503".to_string()));
    assert_eq!(e2, ProgressEvent::Failed { number: 2, message: "HTTP 503".to_string() });
    run.record(3, Ok(("elsewhere".to_string(), CrawlStatus::SkipAll)));
    assert_eq!(run.output_dir.as_deref(), Some("out/novel"));
    assert_eq!(run.existing_policy, ExistingFilePolicy::SkipAll);
    assert_eq!(run.failures, vec![(2, "HTTP 503".to_string())]);
}

#[test]
fn a_capped_source_clamps_the_worker_count_and_says_so() {
    let (workers, notice) = concurrency_plan(8, &xtruyen_policy(), "xtruyen");
    assert_eq!(workers, 2);
    assert_eq!(notice, Some(ProgressEvent::ConcurrencyClamped { requested: 8, effective: 2, source: "xtruyen" }));
    let (workers, notice) = concurrency_plan(0, &xtruyen_policy(), "xtruyen");
    assert_eq!((workers, notice), (1, None));
    let unlimited = RatePolicy { max_concurrency: usize::MAX, min_delay_ms: 0, max_retries: 0, backoff_base_ms: 0 };
    assert_eq!(concurrency_plan(16, &unlimited, "metruyenhot"), (16, None));
}

#[test]
fn failures_are_reported_in_chapter_order() {
    let sorted = sort_failures(vec![
        (9, "c".to_string()),
        (2, "a".to_string()),
        (9, "d".to_string()),
        (4, "b".to_string()),
    ]);
    assert_eq!(
        sorted,
        vec![(2, "a".to_string()), (4, "b".to_string()), (9, "c".to_string()), (9, "d".to_string())]
    );
}

#[test]
fn the_failure_list_is_sorted_and_deduplicated() {
    let failures = vec![(7, "x".to_string()), (1, "y".to_string()), (7, "z".to_string()), (4, "w".to_string())];
    assert_eq!(format_failure_chapter_list(&failures), "1, 4, 7");
    assert_eq!(format_failure_chapter_list(&[]), "");
    assert_eq!(
        failure_question(&failures),
        "4 chapter(s) failed:\n1, 4, 7\n\nRetry the failed chapters before building the EPUB?"
    );
}

#[test]
fn progress_events_render_as_status_lines() {
    assert_eq!(format_event(&ProgressEvent::Started { number: 1, total: 2 }), None);
    assert_eq!(
        format_event(&ProgressEvent::Completed { number: 3, status: CrawlStatus::SkipAll }).unwrap(),
        "[SKIP-ALL] Chapter 3"
    );
    assert_eq!(
        format_event(&ProgressEvent::Failed { number: 4, message: "HTTP 404".to_string() }).unwrap(),
        "[FAIL] Chapter 4: HTTP 404"
    );
    assert_eq!(
        format_event(&ProgressEvent::ConcurrencyClamped { requested: 8, effective: 2, source: "xtruyen" }).unwrap(),
        "[INFO] xtruyen allows at most 2 concurrent requests; using 2 workers instead of 8."
    );
}

#[test]
fn answers_to_the_existing_chapter_question_are_read_leniently() {
    assert_eq!(parse_existing_answer(" R\n"), ExistingChapterDecision::Redownload);
    assert_eq!(parse_existing_answer("Redownload"), ExistingChapterDecision::Redownload);
    assert_eq!(parse_existing_answer("skip-all"), ExistingChapterDecision::SkipAll);
    assert_eq!(parse_existing_answer("ALL"), ExistingChapterDecision::SkipAll);
    assert_eq!(parse_existing_answer("whatever"), ExistingChapterDecision::Skip);
    assert_eq!(parse_failure_answer(" Retry\n"), FailureAction::Retry);
    assert_eq!(parse_failure_answer(""), FailureAction::Abort);
}

#[test]
fn the_chapter_window_stops_at_the_last_available_chapter() {
    assert_eq!(resolve_chapter_window(None, None, Some(120)), (1, 120, false));
    assert_eq!(resolve_chapter_window(Some(5), Some(500), Some(120)), (5, 120, true));
    assert_eq!(resolve_chapter_window(Some(5), None, None), (5, 5, false));
    assert_eq!(resolve_chapter_window(None, Some(7), None), (1, 7, false));
}

#[test]
fn only_the_failed_chapters_are_retried() {
    let plan: Vec<ChapterRef> =
        (1..=4u32).map(|n| ChapterRef { number: n, title: Some(format!("C{n}")), locator: format!("l{n}") }).collect();
    let again = retry_chapters(&plan, &[(3, "x".to_string()), (1, "y".to_string())]);
    assert_eq!(again.iter().map(|c| c.number).collect::<Vec<_>>(), vec![1, 3]);
    assert_eq!(again[1].title.as_deref(), Some("C3"));
    assert_eq!(run_exit_code(0), 0);
    assert_eq!(run_exit_code(2), 2);
}

#[test]
fn session_reports_for_the_terminal() {
    let failures = vec![(7, "x".to_string()), (3, "y".to_string()), (7, "z".to_string())];
    assert_eq!(failure_prompt_line(&failures), "\n[FAIL] 3 chapter(s) failed: 3, 7");
    assert_eq!(
        workers_policy_error(4, ExistingFilePolicy::Ask).as_deref(),
        Some("Error: --workers > 1 requires --if-exists skip or --if-exists overwrite.")
    );
    assert_eq!(workers_policy_error(1, ExistingFilePolicy::Ask), None);
    assert_eq!(workers_policy_error(4, ExistingFilePolicy::Skip), None);
    assert!(advances_bar(&ProgressEvent::Failed { number: 1, message: "m".to_string() }));
    assert!(advances_bar(&ProgressEvent::Completed { number: 1, status: CrawlStatus::Written }));
    assert!(!advances_bar(&ProgressEvent::Started { number: 1, total: 2 }));
    assert_eq!(current_chapter_message(12), "→ chapter 12");
}
