use novel_downloader::execution::{
    chapters_in_window, download_banner, end_clamp_notice, epub_title, plan_mode, window_numbers, Notice, PlanAction,
    PlanRun, PlanStage,
};
use novel_downloader::session::FailureAction;
use novel_downloader::source::ChapterRef;
use novel_downloader::ui::plan::CrawlMode;

fn failures() -> Vec<(u32, String)> {
    vec![(4, "timeout".to_string()), (2, "HTTP 500".to_string())]
}

#[test]
fn a_crawl_without_epub_exits_two_and_lists_failures_when_not_interactive() {
    let mut run = PlanRun::new(false, false);
    let action = run.downloaded(false, Some("out/novel".to_string()), failures());
    assert_eq!(
        action,
        PlanAction::Exit {
            code: 2,
            notices: vec![
                Notice::Stderr("\nSome chapters failed:".to_string()),
                Notice::Stderr("  - Chapter 4: timeout".to_string()),
                Notice::Stderr("  - Chapter 2: HTTP 500".to_string()),
            ],
        }
    );
    assert_eq!(run.stage, PlanStage::Done);
}

#[test]
fn a_clean_crawl_without_epub_exits_zero_silently() {
    let mut run = PlanRun::new(true, false);
    assert_eq!(run.downloaded(false, None, Vec::new()), PlanAction::Exit { code: 0, notices: Vec::new() });
}

#[test]
fn a_canceled_download_exits_one() {
    let mut run = PlanRun::new(false, true);
    assert_eq!(
        run.downloaded(true, None, Vec::new()),
        PlanAction::Exit { code: 1, notices: vec![Notice::Stderr("[INFO] Download canceled by user.".to_string())] }
    );
}

#[test]
fn failures_before_an_epub_are_asked_about_and_retried_until_clean() {
    let mut run = PlanRun::new(false, true);
    assert_eq!(run.downloaded(false, Some("out/novel".to_string()), failures()), PlanAction::AskRetry);
    assert_eq!(run.answered(FailureAction::Retry), PlanAction::RetryChapters(vec![4, 2]));
    assert_eq!(run.stage, PlanStage::Retrying);
    assert_eq!(run.downloaded(false, Some("elsewhere".to_string()), vec![(2, "again".to_string())]), PlanAction::AskRetry);
    assert_eq!(run.answered(FailureAction::Retry), PlanAction::RetryChapters(vec![2]));
    assert_eq!(run.downloaded(false, None, Vec::new()), PlanAction::BuildEpub("out/novel".to_string()));
    assert_eq!(
        run.built(Ok("out/novel.epub".to_string())),
        PlanAction::Exit { code: 0, notices: vec![Notice::Stdout("[OK] EPUB -> out/novel.epub".to_string())] }
    );
}

#[test]
fn giving_up_on_failed_chapters_skips_the_epub() {
    let mut run = PlanRun::new(true, true);
    assert_eq!(run.downloaded(false, Some("d".to_string()), failures()), PlanAction::AskRetry);
    assert_eq!(
        run.answered(FailureAction::Abort),
        PlanAction::Exit {
            code: 2,
            notices: vec![Notice::Note {
                title: "EPUB skipped".to_string(),
                body: "Skipped EPUB build because 2 chapter(s) failed.".to_string(),
            }],
        }
    );
    let mut quiet = PlanRun::new(false, true);
    quiet.downloaded(false, Some("d".to_string()), failures());
    assert_eq!(
        quiet.answered(FailureAction::Abort),
        PlanAction::Exit {
            code: 2,
            notices: vec![Notice::Stderr("[INFO] Skipping EPUB build due to 2 failed chapter(s).".to_string())],
        }
    );
}

#[test]
fn a_canceled_retry_exits_one() {
    let mut run = PlanRun::new(false, true);
    run.downloaded(false, Some("d".to_string()), failures());
    run.answered(FailureAction::Retry);
    assert_eq!(
        run.downloaded(true, None, Vec::new()),
        PlanAction::Exit { code: 1, notices: vec![Notice::Stderr("[INFO] Retry canceled by user.".to_string())] }
    );
}

#[test]
fn an_epub_without_a_chapter_directory_exits_three() {
    let mut run = PlanRun::new(false, true);
    assert_eq!(
        run.downloaded(false, None, Vec::new()),
        PlanAction::Exit {
            code: 3,
            notices: vec![Notice::Stderr("[FAIL] No chapter directory available to build EPUB.".to_string())],
        }
    );
    let (_, action) = PlanRun::epub_only(false, None);
    assert_eq!(
        action,
        PlanAction::Exit {
            code: 3,
            notices: vec![Notice::Stderr(
                "[FAIL] Could not infer chapter directory: no novel title available to derive the directory from".to_string()
            )],
        }
    );
}

#[test]
fn an_epub_only_run_builds_and_reports_on_the_screen() {
    let (mut run, action) = PlanRun::epub_only(true, Some("out/Novel".to_string()));
    assert_eq!(action, PlanAction::BuildEpub("out/Novel".to_string()));
    assert_eq!(
        run.built(Ok("out/Novel.epub".to_string())),
        PlanAction::Exit {
            code: 0,
            notices: vec![Notice::Note { title: "Done".to_string(), body: "EPUB created at:\nout/Novel.epub".to_string() }],
        }
    );
    let (mut failing, _) = PlanRun::epub_only(false, Some("d".to_string()));
    assert_eq!(
        failing.built(Err("no chapters".to_string())),
        PlanAction::Exit { code: 3, notices: vec![Notice::Stderr("[FAIL] EPUB build failed: no chapters".to_string())] }
    );
    let (mut canceled, _) = PlanRun::epub_only(true, Some("d".to_string()));
    assert_eq!(
        canceled.build_canceled(),
        PlanAction::Exit { code: 1, notices: vec![Notice::Stderr("[INFO] EPUB build canceled by user.".to_string())] }
    );
}

#[test]
fn the_download_banner_names_the_span_and_the_workers() {
    assert_eq!(
        download_banner(&[3, 4, 5], 2),
        vec!["[INFO] Downloading chapters 3 -> 5 (3 chapters)".to_string(), "[INFO] Using 2 worker(s)".to_string()]
    );
    assert_eq!(download_banner(&[], 1), vec!["[INFO] Using 1 worker(s)".to_string()]);
}

#[test]
fn plan_helpers_pick_the_window_title_and_mode() {
    assert_eq!(
        end_clamp_notice(90, 80),
        "[INFO] Requested end chapter 90 exceeds the last available chapter 80; stopping at 80."
    );
    assert_eq!(epub_title(Some("Sách")), "Sách");
    assert_eq!(epub_title(None), "Unknown Novel");
    assert_eq!(plan_mode(true, true), CrawlMode::EpubOnly);
    assert_eq!(plan_mode(false, true), CrawlMode::CrawlEpub);
    assert_eq!(plan_mode(false, false), CrawlMode::Crawl);
    assert_eq!(window_numbers(2, 5), vec![2, 3, 4, 5]);
    assert_eq!(window_numbers(7, 7), vec![7]);
    assert!(window_numbers(5, 2).is_empty());
    let index: Vec<ChapterRef> = (1..=6)
        .map(|n| ChapterRef { number: n, title: None, locator: format!("c{n}") })
        .collect();
    let picked: Vec<u32> = chapters_in_window(&index, 2, 4).iter().map(|c| c.number).collect();
    assert_eq!(picked, vec![2, 3, 4]);
}
