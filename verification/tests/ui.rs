use novel_downloader::crawler::{CrawlStatus, ExistingFilePolicy};
use novel_downloader::runner::ProgressEvent;
use novel_downloader::source::{ChapterRef, Novel};
use novel_downloader::ui::plan::{build_summary, epub_destination_dir, CrawlMode, SummaryParams};
use novel_downloader::ui::progress::{format_hms, gauge_label, DownloadLogEntry, DownloadProgress};
use novel_downloader::ui::prompts::{
    note_key, prompt_block_height, text_area_block_height, text_area_cursor, text_area_frame, text_area_prompt_step,
    text_area_scroll, value_line, PromptOutcome, ValueLine,
};
use novel_downloader::ui::text_area::{
    wrap_text, wrapped_cursor_position, EditorKey, EditorKeyEvent, TextArea, TextAreaAction, TextAreaLayout,
};
use novel_downloader::ui::wizard::{
    after_font_choice, author_answer, base_url_error, chapter_answer, discovery_failed_note, end_chapter_initial,
    if_exists_choices, if_exists_initial, metadata_failed_note, positive_integer_error, select_chapters,
    start_chapter_initial, step_after_author, step_after_end_chapter, step_after_fast_skip, step_after_mode,
    step_before_confirm, step_before_font_choice, step_before_if_exists, step_before_title, title_error,
    workers_answer, workers_error, FontChoice, WizardStep, after_discovery_note, after_prefill_note,
    discovery_outcome, needs_prefill, prefill_outcome, NovelAnswers, StepNext, WizardRoute,
};

const SEC: u64 = 1_000_000_000;

fn press(key: EditorKey) -> EditorKeyEvent {
    EditorKeyEvent { key, ctrl: false, alt: false, release: false }
}

#[test]
fn download_progress_records_started_and_completed() {
    let mut progress = DownloadProgress::new(3);
    assert_eq!(progress.total, 3);
    assert_eq!(progress.completed, 0);
    progress.record_started(1);
    assert_eq!(progress.current_chapter, Some(1));
    progress.record_completed(1, CrawlStatus::Written);
    assert_eq!(progress.completed, 1);
    assert_eq!(progress.log.last(), Some(&DownloadLogEntry::Saved(1)));
    progress.record_completed(2, CrawlStatus::Skipped);
    assert_eq!(progress.completed, 2);
    assert_eq!(progress.log.last(), Some(&DownloadLogEntry::Skip(2)));
}

#[test]
fn download_progress_records_failures() {
    let mut progress = DownloadProgress::new(2);
    progress.record_started(1);
    progress.record_failed(1, "HTTP 503".to_string());
    assert_eq!(progress.failed, 1);
    assert_eq!(progress.log.last(), Some(&DownloadLogEntry::Fail(1, "HTTP 503".to_string())));
    assert_eq!(progress.advanced(), 1);
}

#[test]
fn download_progress_finish_marks_done() {
    let mut progress = DownloadProgress::new(1);
    progress.record_started(1);
    progress.record_completed(1, CrawlStatus::Written);
    assert!(!progress.done);
    progress.finish();
    assert!(progress.done);
}

#[test]
fn download_progress_log_caps_to_window() {
    let cap = 5;
    let mut progress = DownloadProgress::with_log_capacity(20, cap);
    for n in 1..=15u32 {
        progress.record_completed(n, CrawlStatus::Written);
    }
    assert_eq!(progress.log.len(), cap);
    assert_eq!(progress.log.last(), Some(&DownloadLogEntry::Saved(15)));
    assert_eq!(progress.log.first(), Some(&DownloadLogEntry::Saved(11)));
}

#[test]
fn download_progress_default_log_capacity_is_generous() {
    let progress = DownloadProgress::new(0);
    assert!(progress.log_capacity >= 200, "default capacity too small: {}", progress.log_capacity);
}

#[test]
fn format_hms_always_renders_an_hour_field() {
    assert_eq!(format_hms(0), "00:00:00");
    assert_eq!(format_hms((4 * 60 + 12) * SEC), "00:04:12");
    assert_eq!(format_hms((3600 + 9 * 60 + 6) * SEC), "01:09:06");
}

#[test]
fn format_hms_does_not_wrap_past_a_day() {
    assert_eq!(format_hms((30 * 3600 + 61) * SEC), "30:01:01");
}

#[test]
fn gauge_label_shows_tally_elapsed_and_estimate_in_flight() {
    let mut progress = DownloadProgress::new(100);
    let t0 = progress.started_at;
    for n in 1..=10u32 {
        progress.record_completed_at(n, CrawlStatus::Written, t0 + n as u64 * 2 * SEC);
    }
    let label = gauge_label(&progress, t0 + 20 * SEC);
    assert!(label.contains("10 / 100"), "tally missing: {label}");
    assert!(label.contains("10%"), "percentage missing: {label}");
    assert!(label.contains("00:00:20"), "elapsed missing: {label}");
    assert!(label.contains("00:03:00"), "estimate missing: {label}");
}

#[test]
fn gauge_label_shows_a_placeholder_when_the_estimate_is_withheld() {
    let mut progress = DownloadProgress::new(100);
    let t0 = progress.started_at;
    progress.record_completed_at(1, CrawlStatus::Written, t0 + 10_000_000);
    let label = gauge_label(&progress, t0 + 20_000_000);
    assert!(label.contains("1 / 100"), "tally missing: {label}");
    assert!(label.contains("00:00:00"), "elapsed missing: {label}");
    assert!(label.contains("ETA"), "ETA segment missing: {label}");
    assert!(label.contains('—'), "placeholder missing: {label}");
}

#[test]
fn gauge_label_drops_the_estimate_once_the_run_has_ended() {
    let mut progress = DownloadProgress::new(2);
    let t0 = progress.started_at;
    progress.record_completed_at(1, CrawlStatus::Written, t0 + 2 * SEC);
    progress.record_completed_at(2, CrawlStatus::Written, t0 + 6 * SEC);
    progress.finish_at(t0 + 7 * SEC);
    let label = gauge_label(&progress, t0 + 300 * SEC);
    assert!(label.contains("2 / 2"), "tally missing: {label}");
    assert!(label.contains("00:00:07"), "frozen elapsed missing: {label}");
    assert!(!label.contains("ETA"), "estimate should be gone: {label}");
    assert!(!label.contains('—'), "placeholder should be gone: {label}");
}

#[test]
fn download_progress_estimates_from_steady_throughput() {
    let mut progress = DownloadProgress::new(100);
    let t0 = progress.started_at;
    for n in 1..=10u32 {
        progress.record_completed_at(n, CrawlStatus::Written, t0 + n as u64 * 2 * SEC);
    }
    let eta = progress.eta(t0 + 20 * SEC).unwrap();
    assert_eq!(eta, 180 * SEC);
}

#[test]
fn download_progress_eta_converges_on_the_slow_rate_after_a_burst() {
    let mut progress = DownloadProgress::new(1000);
    let t0 = progress.started_at;
    for n in 1..=900u32 {
        progress.record_completed_at(n, CrawlStatus::Skipped, t0 + n as u64 * 30_000);
    }
    for n in 901..=920u32 {
        progress.record_completed_at(n, CrawlStatus::Written, t0 + (n as u64 - 900) * SEC);
    }
    let now = t0 + 20 * SEC;
    let eta = progress.eta(now).unwrap();
    assert_eq!(progress.advanced(), 920);
    assert!(eta >= 70 * SEC && eta <= 90 * SEC, "expected ~80s, got {eta}");
}

#[test]
fn download_progress_eta_grows_while_the_run_is_stalled() {
    let mut progress = DownloadProgress::new(100);
    let t0 = progress.started_at;
    for n in 1..=10u32 {
        progress.record_completed_at(n, CrawlStatus::Written, t0 + n as u64 * 2 * SEC);
    }
    let before = progress.eta(t0 + 20 * SEC).unwrap();
    let after = progress.eta(t0 + 200 * SEC).unwrap();
    assert!(after > before, "expected growth, got {before} -> {after}");
}

#[test]
fn download_progress_withholds_eta_below_two_samples() {
    let mut progress = DownloadProgress::new(100);
    let t0 = progress.started_at;
    assert_eq!(progress.eta(t0 + 5 * SEC), None);
    progress.record_completed_at(1, CrawlStatus::Written, t0 + SEC);
    assert_eq!(progress.eta(t0 + 5 * SEC), None);
}

#[test]
fn download_progress_withholds_eta_when_no_chapters_are_expected() {
    let mut progress = DownloadProgress::new(0);
    let t0 = progress.started_at;
    progress.record_completed_at(1, CrawlStatus::Written, t0 + SEC);
    progress.record_completed_at(2, CrawlStatus::Written, t0 + 4 * SEC);
    assert_eq!(progress.eta(t0 + 5 * SEC), None);
}

#[test]
fn download_progress_withholds_eta_once_the_run_has_ended() {
    let mut progress = DownloadProgress::new(100);
    let t0 = progress.started_at;
    progress.record_completed_at(1, CrawlStatus::Written, t0 + SEC);
    progress.record_completed_at(2, CrawlStatus::Written, t0 + 4 * SEC);
    assert!(progress.eta(t0 + 4 * SEC).is_some());
    progress.finish_at(t0 + 5 * SEC);
    assert_eq!(progress.eta(t0 + 5 * SEC), None);
}

#[test]
fn download_progress_withholds_eta_for_an_instantaneous_burst() {
    let mut progress = DownloadProgress::new(1000);
    let t0 = progress.started_at;
    for n in 1..=900u32 {
        progress.record_completed_at(n, CrawlStatus::Skipped, t0 + n as u64 * 30_000);
    }
    assert_eq!(progress.rate_samples(), 20);
    assert_eq!(progress.eta(t0 + 50_000_000), None);
}

#[test]
fn download_progress_window_records_terminal_events_only() {
    let mut progress = DownloadProgress::new(10);
    let t0 = progress.started_at;
    progress.record_started(1);
    assert_eq!(progress.rate_samples(), 0);
    progress.record_completed_at(1, CrawlStatus::Written, t0 + SEC);
    progress.record_failed_at(2, "HTTP 503".to_string(), t0 + 2 * SEC);
    assert_eq!(progress.rate_samples(), 2);
    progress.record_note("rate policy capped workers".to_string());
    assert_eq!(progress.rate_samples(), 2);
}

#[test]
fn download_progress_window_caps_while_advanced_keeps_counting() {
    let mut progress = DownloadProgress::new(200);
    let t0 = progress.started_at;
    for n in 1..=60u32 {
        progress.record_completed_at(n, CrawlStatus::Written, t0 + n as u64 * SEC);
    }
    assert_eq!(progress.advanced(), 60);
    assert_eq!(progress.rate_samples(), 20);
}

#[test]
fn download_progress_reports_elapsed_before_any_chapter_event() {
    let progress = DownloadProgress::new(5);
    let now = progress.started_at + 3 * SEC;
    assert_eq!(progress.elapsed(now), 3 * SEC);
}

#[test]
fn download_progress_elapsed_advances_with_the_clock() {
    let progress = DownloadProgress::new(5);
    let first = progress.elapsed(progress.started_at + 2 * SEC);
    let second = progress.elapsed(progress.started_at + 7 * SEC);
    assert!(second > first);
    assert_eq!(second - first, 5 * SEC);
}

#[test]
fn download_progress_elapsed_freezes_at_the_end_of_the_run() {
    let mut progress = DownloadProgress::new(1);
    progress.record_completed(1, CrawlStatus::Written);
    let ended = progress.started_at + 12 * SEC;
    progress.finish_at(ended);
    assert!(progress.done);
    let much_later = progress.started_at + 600 * SEC;
    assert_eq!(progress.elapsed(much_later), 12 * SEC);
}

#[test]
fn download_progress_aborted_run_freezes_elapsed_too() {
    let mut progress = DownloadProgress::new(10);
    progress.record_completed(1, CrawlStatus::Written);
    let aborted_at = progress.started_at + 4 * SEC;
    progress.finish_at(aborted_at);
    assert!(progress.advanced() < progress.total);
    assert_eq!(progress.elapsed(progress.started_at + 90 * SEC), 4 * SEC);
}

#[test]
fn download_progress_follows_runner_events() {
    let mut progress = DownloadProgress::new(4);
    progress.from_event(ProgressEvent::Started { number: 1, total: 4 });
    progress.from_event(ProgressEvent::Completed { number: 1, status: CrawlStatus::Written });
    progress.from_event(ProgressEvent::Failed { number: 2, message: "boom".to_string() });
    assert_eq!(progress.current_chapter, Some(1));
    assert_eq!(progress.completed, 1);
    assert_eq!(progress.failed, 1);
    assert_eq!(progress.percent(), 50);
    progress.from_event(ProgressEvent::ConcurrencyClamped { requested: 8, effective: 2, source: "xtruyen" });
    assert_eq!(progress.advanced(), 2);
    assert!(matches!(progress.log.last(), Some(DownloadLogEntry::Note(_))));
}

#[test]
fn build_summary_names_the_source_when_it_fixes_the_pacing() {
    let chapters: Vec<u32> = (1..=3).collect();
    let summary = build_summary(SummaryParams {
        source: "xtruyen",
        base_url: "https://xtruyen.vn/truyen/mot-truyen",
        mode: CrawlMode::Crawl,
        output_root: "/tmp/out",
        chapter_numbers: Some(chapters.as_slice()),
        delay: "0.5",
        workers: 2,
        if_exists: ExistingFilePolicy::Skip,
        chapter_dir: None,
        font_path: None,
        fast_skip: false,
        novel_title: None,
        novel_author: None,
        pacing_fixed_by_source: true,
    });
    assert!(summary.contains("Workers: 2 (required by xtruyen)"), "got:\n{summary}");
    assert!(summary.contains("Delay: 0.5s (required by xtruyen)"), "got:\n{summary}");
}

#[test]
fn build_summary_leaves_pacing_unannotated_for_an_unconstrained_source() {
    let chapters: Vec<u32> = (1..=3).collect();
    let summary = build_summary(SummaryParams {
        source: "metruyenhot",
        base_url: "https://metruyenhotvn.com/foo",
        mode: CrawlMode::Crawl,
        output_root: "/tmp/out",
        chapter_numbers: Some(chapters.as_slice()),
        delay: "0",
        workers: 8,
        if_exists: ExistingFilePolicy::Skip,
        chapter_dir: None,
        font_path: None,
        fast_skip: false,
        novel_title: None,
        novel_author: None,
        pacing_fixed_by_source: false,
    });
    assert!(summary.contains("Workers: 8\n"), "got:\n{summary}");
    assert!(!summary.contains("required by"), "got:\n{summary}");
}

#[test]
fn build_summary_includes_every_chosen_option_for_crawl_epub() {
    let chapters: Vec<u32> = (1..=50).collect();
    let summary = build_summary(SummaryParams {
        source: "metruyenhot",
        base_url: "https://metruyenhotvn.com/foo",
        mode: CrawlMode::CrawlEpub,
        output_root: "/tmp/out",
        chapter_numbers: Some(chapters.as_slice()),
        delay: "0.5",
        workers: 4,
        if_exists: ExistingFilePolicy::Skip,
        chapter_dir: None,
        font_path: Some("/tmp/MyFont.ttf"),
        fast_skip: true,
        novel_title: Some("Tên Truyện"),
        novel_author: Some("Tác Giả"),
        pacing_fixed_by_source: false,
    });
    assert!(summary.contains("Base URL: https://metruyenhotvn.com/foo"));
    assert!(summary.contains("Title: Tên Truyện"));
    assert!(summary.contains("Author: Tác Giả"));
    assert!(summary.contains("Mode: Crawl chapters and build EPUB"));
    assert!(summary.contains("Output root: /tmp/out"));
    assert!(summary.contains("Chapters: 1 -> 50 (50 total)"));
    assert!(summary.contains("Workers: 4"));
    assert!(summary.contains("Delay: 0.5s"));
    assert!(summary.contains("If chapter exists: skip"));
    assert!(summary.contains("Fast skip: yes"), "got:\n{summary}");
    assert!(summary.contains("Build EPUB: yes"));
    assert!(summary.contains("/tmp/MyFont.ttf"));
    assert!(summary.contains("EPUB output: /tmp/out/ten_truyen"), "got:\n{summary}");
}

#[test]
fn prompt_block_height_grows_with_message_lines() {
    assert!(prompt_block_height("") >= 5);
    assert!(prompt_block_height("one liner") >= 5);
    let ten = "a\nb\nc\nd\ne\nf\ng\nh\ni\nj";
    assert!(prompt_block_height(ten) >= 12, "expected >= 12 rows, got {}", prompt_block_height(ten));
    assert_eq!(prompt_block_height(ten), 12);
}

#[test]
fn build_summary_marks_fast_skip_no_when_disabled() {
    let chapters: Vec<u32> = vec![1, 2];
    let summary = build_summary(SummaryParams {
        source: "metruyenhot",
        base_url: "https://x/",
        mode: CrawlMode::Crawl,
        output_root: "output",
        chapter_numbers: Some(chapters.as_slice()),
        delay: "0",
        workers: 1,
        if_exists: ExistingFilePolicy::Ask,
        chapter_dir: None,
        font_path: None,
        fast_skip: false,
        novel_title: None,
        novel_author: None,
        pacing_fixed_by_source: false,
    });
    assert!(summary.contains("Fast skip: no"));
    assert!(summary.contains("Build EPUB: no"));
    assert!(!summary.contains("EPUB output:"), "got:\n{summary}");
}

#[test]
fn build_summary_names_the_epub_destination_for_build_only() {
    let summary = build_summary(SummaryParams {
        source: "khodocsach",
        base_url: "https://khodocsach.com/my-novel.kds/",
        mode: CrawlMode::EpubOnly,
        output_root: "output",
        chapter_numbers: None,
        delay: "0",
        workers: 1,
        if_exists: ExistingFilePolicy::Skip,
        chapter_dir: Some("/books/my-novel"),
        font_path: None,
        fast_skip: false,
        novel_title: Some("My Novel"),
        novel_author: None,
        pacing_fixed_by_source: false,
    });
    assert!(summary.contains("EPUB output: /books/my-novel"), "got:\n{summary}");
    assert!(!summary.contains("Output root:"), "got:\n{summary}");
    assert!(summary.contains("Author: (none)"), "got:\n{summary}");
    assert!(summary.contains("Font path: default packaged font"), "got:\n{summary}");
    assert!(!summary.contains("Workers:"), "got:\n{summary}");
}

#[test]
fn epub_destination_dir_is_the_chapter_dir_for_build_only() {
    assert_eq!(
        epub_destination_dir(CrawlMode::EpubOnly, "output", Some("/books/my-novel"), Some("My Novel")),
        Some("/books/my-novel".to_string())
    );
}

#[test]
fn epub_destination_dir_infers_the_per_novel_dir_when_no_chapter_dir_is_given() {
    assert_eq!(
        epub_destination_dir(CrawlMode::EpubOnly, "output", None, Some("My Novel")),
        Some("output/my_novel".to_string())
    );
}

#[test]
fn epub_destination_dir_is_under_the_output_root_for_crawl_epub() {
    assert_eq!(
        epub_destination_dir(CrawlMode::CrawlEpub, "output", None, Some("My Novel")),
        Some("output/my_novel".to_string())
    );
}

#[test]
fn epub_destination_dir_ignores_a_chapter_dir_when_chapters_are_downloaded() {
    assert_eq!(
        epub_destination_dir(CrawlMode::CrawlEpub, "output", Some("/books/elsewhere"), Some("My Novel")),
        Some("output/my_novel".to_string())
    );
}

#[test]
fn epub_destination_dir_is_none_when_no_epub_is_built() {
    assert_eq!(epub_destination_dir(CrawlMode::Crawl, "output", None, Some("My Novel")), None);
}

#[test]
fn epub_destination_dir_is_none_when_the_title_is_unknown() {
    assert_eq!(epub_destination_dir(CrawlMode::CrawlEpub, "output", None, None), None);
}

#[test]
fn epub_destination_dir_falls_back_to_book_for_a_title_without_letters() {
    assert_eq!(
        epub_destination_dir(CrawlMode::CrawlEpub, "output/", None, Some("—!—")),
        Some("output/book".to_string())
    );
    assert_eq!(
        epub_destination_dir(CrawlMode::CrawlEpub, "out", None, Some("Đường Đến  Đỉnh-Núi 2")),
        Some("out/duong_den_dinh_nui_2".to_string())
    );
}

#[test]
fn text_area_block_height_covers_the_lines_plus_the_borders() {
    assert_eq!(text_area_block_height(4), 6);
}

#[test]
fn text_area_block_height_never_goes_below_a_single_line_box() {
    assert_eq!(text_area_block_height(0), 3);
    assert_eq!(text_area_block_height(1), 3);
}

#[test]
fn text_area_block_height_saturates_for_huge_values() {
    assert_eq!(text_area_block_height(70_000), u16::MAX);
    assert_eq!(text_area_block_height(65_534), u16::MAX);
}

#[test]
fn text_area_scroll_stays_at_the_top_while_the_cursor_fits() {
    assert_eq!(text_area_scroll(0, 5), 0);
    assert_eq!(text_area_scroll(4, 5), 0);
}

#[test]
fn text_area_scroll_follows_a_cursor_past_the_last_visible_row() {
    assert_eq!(text_area_scroll(5, 5), 1);
    assert_eq!(text_area_scroll(9, 5), 5);
}

#[test]
fn text_area_scroll_survives_a_block_with_no_room_for_a_row() {
    assert_eq!(text_area_scroll(3, 0), 3);
}

#[test]
fn text_area_prompt_submits_the_edited_value() {
    let mut editor = TextArea::new();
    let layout = TextAreaLayout { width: 10 };
    assert_eq!(text_area_prompt_step(&mut editor, press(EditorKey::Char('h')), layout), None);
    assert_eq!(text_area_prompt_step(&mut editor, press(EditorKey::Char('i')), layout), None);
    assert_eq!(
        text_area_prompt_step(&mut editor, press(EditorKey::Enter), layout),
        Some(PromptOutcome::Submitted("hi".to_string()))
    );
    assert_eq!(text_area_prompt_step(&mut editor, press(EditorKey::Esc), layout), Some(PromptOutcome::Back));
    let ctrl_c = EditorKeyEvent { key: EditorKey::Char('c'), ctrl: true, alt: false, release: false };
    assert_eq!(text_area_prompt_step(&mut editor, ctrl_c, layout), Some(PromptOutcome::Quit));
    assert_eq!(editor.value(), "hi");
}

#[test]
fn text_area_edits_at_the_cursor() {
    let mut editor = TextArea::new();
    editor.set_value("abc");
    let layout = TextAreaLayout { width: 80 };
    assert_eq!(editor.cursor(), 3);
    assert_eq!(editor.handle_key(press(EditorKey::Left), layout), TextAreaAction::Continue);
    editor.handle_key(press(EditorKey::Char('X')), layout);
    assert_eq!(editor.value(), "abXc");
    editor.handle_key(press(EditorKey::Backspace), layout);
    editor.handle_key(press(EditorKey::Home), layout);
    editor.handle_key(press(EditorKey::Delete), layout);
    assert_eq!(editor.value(), "bc");
    assert_eq!(editor.cursor(), 0);
}

#[test]
fn wrap_text_keeps_every_character_and_fits_each_row() {
    let value = "Sương mù phủ kín thung lũng\nTrời đã sáng";
    let rows = wrap_text(value, 8);
    assert_eq!(rows.concat(), value);
    for row in &rows {
        assert!(row.trim_end_matches('\n').chars().count() <= 8, "row too wide: {row:?}");
    }
    let (row, col) = wrapped_cursor_position(&rows, value.chars().count(), 8);
    assert_eq!(row, rows.len() - 1);
    assert_eq!(col, rows.last().unwrap().chars().count());
}

#[test]
fn step_after_end_chapter_skips_the_pacing_prompts_for_a_rate_limited_source() {
    assert_eq!(step_after_end_chapter(true), WizardStep::IfExists);
}

#[test]
fn step_after_end_chapter_keeps_the_pacing_prompts_for_an_unconstrained_source() {
    assert_eq!(step_after_end_chapter(false), WizardStep::Workers);
}

#[test]
fn step_before_if_exists_mirrors_the_forward_route() {
    assert_eq!(step_before_if_exists(true), WizardStep::EndChapter);
    assert_eq!(step_before_if_exists(false), WizardStep::Delay);
}

#[test]
fn step_after_mode_skips_the_output_root_for_epub_only() {
    assert_eq!(step_after_mode(CrawlMode::EpubOnly), WizardStep::ChapterDir);
}

#[test]
fn step_after_mode_keeps_the_output_root_for_download_modes() {
    assert_eq!(step_after_mode(CrawlMode::Crawl), WizardStep::OutputRoot);
    assert_eq!(step_after_mode(CrawlMode::CrawlEpub), WizardStep::OutputRoot);
}

#[test]
fn title_and_author_steps_route_by_mode() {
    assert_eq!(step_before_title(CrawlMode::EpubOnly), WizardStep::ChapterDir);
    assert_eq!(step_before_title(CrawlMode::Crawl), WizardStep::Discover);
    assert_eq!(step_after_author(CrawlMode::EpubOnly), WizardStep::FontChoice);
    assert_eq!(step_after_author(CrawlMode::CrawlEpub), WizardStep::StartChapter);
}

#[test]
fn select_chapters_slices_the_index_to_the_chosen_numbers() {
    let index: Vec<ChapterRef> = (1..=5u32)
        .map(|n| ChapterRef { number: n, title: None, locator: format!("https://x/chuong-{n}/") })
        .collect();
    let chosen = select_chapters(&index, Some(&[2, 4, 9]));
    assert_eq!(chosen.iter().map(|c| c.number).collect::<Vec<_>>(), vec![2, 4]);
    assert_eq!(chosen[1].locator, "https://x/chuong-4/");
    assert!(select_chapters(&index, None).is_empty());
}

#[test]
fn base_url_error_requires_an_http_url_on_a_supported_host() {
    assert_eq!(base_url_error("  ", false).as_deref(), Some("Enter a valid http:// or https:// URL."));
    assert_eq!(base_url_error("ftp://metruyenhotvn.com/x", false).as_deref(), Some("Enter a valid http:// or https:// URL."));
    assert_eq!(base_url_error(" https://metruyenhotvn.com/foo ", false), None);
    assert!(base_url_error("https://example.com/foo", false).is_some());
}

#[test]
fn count_prompts_accept_only_positive_whole_numbers() {
    assert_eq!(positive_integer_error(" 12 "), None);
    assert_eq!(positive_integer_error("0").as_deref(), Some("Enter a positive integer."));
    assert_eq!(positive_integer_error("x").as_deref(), Some("Enter a positive integer."));
    assert_eq!(workers_error("4"), None);
    assert_eq!(workers_error("-1").as_deref(), Some("Enter a positive integer."));
    assert_eq!(workers_answer(" 3 "), 3);
    assert_eq!(workers_answer("0"), 1);
    assert_eq!(workers_answer("many"), 1);
    assert_eq!(chapter_answer(" 42", 7), 42);
    assert_eq!(chapter_answer("?", 7), 7);
}

#[test]
fn title_and_author_answers_are_trimmed() {
    assert_eq!(title_error("   ").as_deref(), Some("Enter a book title."));
    assert_eq!(title_error(" Sách "), None);
    assert_eq!(author_answer("  "), None);
    assert_eq!(author_answer(" Tác Giả ").as_deref(), Some("Tác Giả"));
}

#[test]
fn chapter_prompts_start_from_sensible_defaults() {
    assert_eq!(start_chapter_initial(0), 1);
    assert_eq!(start_chapter_initial(5), 5);
    assert_eq!(end_chapter_initial(9, Some(80), 1), 9);
    assert_eq!(end_chapter_initial(0, Some(80), 1), 80);
    assert_eq!(end_chapter_initial(0, None, 0), 1);
    assert_eq!(end_chapter_initial(0, None, 6), 6);
}

#[test]
fn parallel_runs_are_not_offered_the_ask_policy() {
    assert_eq!(
        if_exists_choices(1),
        vec![ExistingFilePolicy::Ask, ExistingFilePolicy::Skip, ExistingFilePolicy::Overwrite]
    );
    assert_eq!(if_exists_choices(4), vec![ExistingFilePolicy::Skip, ExistingFilePolicy::Overwrite]);
    assert_eq!(if_exists_initial(4, ExistingFilePolicy::Ask), ExistingFilePolicy::Skip);
    assert_eq!(if_exists_initial(1, ExistingFilePolicy::Ask), ExistingFilePolicy::Ask);
    assert_eq!(if_exists_initial(4, ExistingFilePolicy::Overwrite), ExistingFilePolicy::Overwrite);
}

#[test]
fn font_steps_route_by_mode_and_choice() {
    assert_eq!(step_after_fast_skip(CrawlMode::Crawl), WizardStep::Confirm);
    assert_eq!(step_after_fast_skip(CrawlMode::CrawlEpub), WizardStep::FontChoice);
    assert_eq!(step_before_font_choice(CrawlMode::EpubOnly), WizardStep::Author);
    assert_eq!(step_before_font_choice(CrawlMode::CrawlEpub), WizardStep::FastSkip);
    assert_eq!(after_font_choice(&FontChoice::Custom, Some("a.ttf".to_string())), (WizardStep::FontPath, Some("a.ttf".to_string())));
    assert_eq!(
        after_font_choice(&FontChoice::Remembered("/f/b.ttf".to_string()), None),
        (WizardStep::Confirm, Some("/f/b.ttf".to_string()))
    );
    assert_eq!(after_font_choice(&FontChoice::Default, Some("a.ttf".to_string())), (WizardStep::Confirm, None));
    assert_eq!(step_before_confirm(CrawlMode::Crawl, &FontChoice::Custom), WizardStep::FastSkip);
    assert_eq!(step_before_confirm(CrawlMode::CrawlEpub, &FontChoice::Custom), WizardStep::FontPath);
    assert_eq!(step_before_confirm(CrawlMode::EpubOnly, &FontChoice::Default), WizardStep::FontChoice);
}

#[test]
fn failure_notes_say_what_can_still_be_done() {
    assert_eq!(
        discovery_failed_note("https://x/n", "HTTP 404"),
        "Could not read https://x/n:\nHTTP 404\n\nYou can still enter the title, author, and chapter range manually."
    );
    assert_eq!(
        metadata_failed_note("https://x/n", "timeout"),
        "Could not read https://x/n:\ntimeout\n\nYou can still enter the title and author manually."
    );
}

#[test]
fn text_area_frame_wraps_inside_the_borders_and_hides_breaks() {
    let frame = text_area_frame("one two\nthree", 9);
    assert_eq!(frame.layout.width, 7);
    assert_eq!(frame.rows, vec!["one two".to_string(), "three".to_string()]);
    assert_eq!(frame.block_height, 4);
    let empty = text_area_frame("", 1);
    assert_eq!(empty.layout.width, 0);
    assert_eq!(empty.block_height, 3);
}

#[test]
fn text_area_cursor_scrolls_and_places_the_cursor_inside_the_block() {
    // "a\nb\nc\nd": the cursor at the end sits on the fourth row.
    let (scroll, cell) = text_area_cursor("a\nb\nc\nd", 7, 10, 2, 5, 12, 4);
    assert_eq!(scroll, 2);
    assert_eq!(cell, Some((2 + 1 + 1, 5 + 1 + 1)));
    let (top, at) = text_area_cursor("abc", 1, 10, 0, 0, 12, 5);
    assert_eq!(top, 0);
    assert_eq!(at, Some((2, 1)));
    let (_, none) = text_area_cursor("abc", 1, 10, 0, 0, 12, 2);
    assert_eq!(none, None);
}

#[test]
fn a_note_continues_on_enter_goes_back_on_esc_and_quits_on_ctrl_c() {
    assert_eq!(note_key(press(EditorKey::Enter)), Some(PromptOutcome::Submitted(())));
    assert_eq!(note_key(press(EditorKey::Esc)), Some(PromptOutcome::Back));
    let ctrl_c = EditorKeyEvent { key: EditorKey::Char('c'), ctrl: true, alt: false, release: false };
    assert_eq!(note_key(ctrl_c), Some(PromptOutcome::Quit));
    assert_eq!(note_key(press(EditorKey::Char('c'))), None);
}

#[test]
fn the_value_row_shows_the_value_or_the_placeholder() {
    assert_eq!(value_line("abc", Some("hint")), ValueLine::Value("abc".to_string()));
    assert_eq!(value_line("", Some("hint")), ValueLine::Placeholder("hint".to_string()));
    assert_eq!(value_line("", None), ValueLine::Blank);
}

#[test]
fn from_event_at_stamps_terminal_events_with_their_arrival() {
    let mut progress = DownloadProgress::with_log_capacity(5, 10);
    progress.from_event_at(ProgressEvent::Started { number: 1, total: 5 }, 7 * SEC);
    assert_eq!(progress.current_chapter, Some(1));
    assert_eq!(progress.rate_samples(), 0);
    progress.from_event_at(ProgressEvent::Completed { number: 1, status: CrawlStatus::Written }, 3 * SEC);
    progress.from_event_at(ProgressEvent::Failed { number: 2, message: "HTTP 503".to_string() }, 9 * SEC);
    assert_eq!(progress.completions, vec![3 * SEC, 9 * SEC]);
    assert_eq!(progress.current_chapter, Some(1));
    assert_eq!(progress.advanced(), 2);
    progress.from_event_at(ProgressEvent::ConcurrencyClamped { requested: 8, effective: 2, source: "xtruyen" }, 11 * SEC);
    assert_eq!(progress.rate_samples(), 2);
    assert_eq!(
        progress.log.last(),
        Some(&DownloadLogEntry::Note("xtruyen allows at most 2 concurrent requests: using 2 workers instead of 8".to_string()))
    );
    assert!(!progress.done);
    assert_eq!(progress.finished_at, None);
}

#[test]
fn the_sample_window_follows_chapters_advanced() {
    let mut progress = DownloadProgress::new(100);
    for n in 1..=30u32 {
        if n % 3 == 0 {
            progress.from_event_at(ProgressEvent::Failed { number: n, message: "x".to_string() }, n as u64 * SEC);
        } else {
            progress.from_event_at(ProgressEvent::Completed { number: n, status: CrawlStatus::Skipped }, n as u64 * SEC);
        }
        progress.record_note("note".to_string());
        assert_eq!(progress.rate_samples(), std::cmp::min(progress.advanced() as usize, 20));
    }
    assert_eq!(progress.completions.first(), Some(&(11 * SEC)));
}

#[test]
fn text_area_prompt_step_submits_the_edited_text() {
    let mut editor = TextArea::new();
    editor.set_value("ab");
    let layout = TextAreaLayout { width: 20 };
    assert_eq!(text_area_prompt_step(&mut editor, press(EditorKey::Char('c')), layout), None);
    assert_eq!(
        text_area_prompt_step(&mut editor, press(EditorKey::Enter), layout),
        Some(PromptOutcome::Submitted("abc".to_string()))
    );
    assert_eq!(editor.value(), "abc");
}

fn blank_answers() -> NovelAnswers {
    NovelAnswers {
        title: None,
        author: None,
        cover_url: None,
        status: None,
        description: None,
        last_discovered: None,
        chapter_index: Vec::new(),
    }
}

fn sample_novel() -> Novel {
    Novel {
        title: "Truyện".to_string(),
        author: Some("Tác Giả".to_string()),
        description: Some("Mô tả.".to_string()),
        status: None,
        cover_url: Some("https://x/c.jpg".to_string()),
        chapters: vec![
            ChapterRef { number: 1, title: Some("Một".to_string()), locator: "u1".to_string() },
            ChapterRef { number: 2, title: None, locator: "u2".to_string() },
        ],
    }
}

#[test]
fn discovery_outcome_fills_the_answers_and_shows_the_novel_note() {
    let (answers, next) = discovery_outcome(
        PromptOutcome::Submitted(Ok(sample_novel())),
        blank_answers(),
        vec!["Chapters: 2".to_string()],
    );
    assert_eq!(answers.title.as_deref(), Some("Truyện"));
    assert_eq!(answers.author.as_deref(), Some("Tác Giả"));
    assert_eq!(answers.cover_url.as_deref(), Some("https://x/c.jpg"));
    assert_eq!(answers.status, None);
    assert_eq!(answers.last_discovered, Some(2));
    assert_eq!(answers.chapter_index.len(), 2);
    assert_eq!(
        next,
        StepNext::Note {
            title: "Novel".to_string(),
            body: "Title: Truyện\nAuthor: Tác Giả\nChapters: 2\n\nDescription:\nMô tả.".to_string(),
        }
    );
    assert_eq!(after_discovery_note(PromptOutcome::Submitted(())), WizardRoute::Go(WizardStep::Title));
    assert_eq!(after_discovery_note(PromptOutcome::Back), WizardRoute::Go(WizardStep::OutputRoot));
    assert_eq!(after_discovery_note(PromptOutcome::Quit), WizardRoute::Quit);
}

#[test]
fn discovery_outcome_reports_a_failure_and_routes_escape_and_quit() {
    let (answers, next) =
        discovery_outcome(PromptOutcome::Submitted(Err("boom".to_string())), blank_answers(), Vec::new());
    assert_eq!(answers, blank_answers());
    assert_eq!(
        next,
        StepNext::Note {
            title: "Discovery failed".to_string(),
            body: "boom\n\nYou can still enter the title, author, and chapter range manually.".to_string(),
        }
    );
    let (_, back) = discovery_outcome(PromptOutcome::Back, blank_answers(), Vec::new());
    assert_eq!(back, StepNext::Route(WizardRoute::Go(WizardStep::OutputRoot)));
    let (_, quit) = discovery_outcome(PromptOutcome::Quit, blank_answers(), Vec::new());
    assert_eq!(quit, StepNext::Route(WizardRoute::Quit));
}

#[test]
fn title_prefill_reads_metadata_only_in_epub_only_mode_without_a_title() {
    assert!(needs_prefill(CrawlMode::EpubOnly, &None));
    assert!(!needs_prefill(CrawlMode::EpubOnly, &Some("T".to_string())));
    assert!(!needs_prefill(CrawlMode::CrawlEpub, &None));
    let mut answers = blank_answers();
    answers.status = Some("Full".to_string());
    let (filled, next) = prefill_outcome(PromptOutcome::Submitted(Ok(sample_novel())), answers, WizardStep::ChapterDir);
    assert_eq!(next, StepNext::Route(WizardRoute::Prompt));
    assert_eq!(filled.title.as_deref(), Some("Truyện"));
    assert_eq!(filled.cover_url.as_deref(), Some("https://x/c.jpg"));
    assert_eq!(filled.status.as_deref(), Some("Full"));
    assert_eq!(filled.last_discovered, None);
    let (_, failed) =
        prefill_outcome(PromptOutcome::Submitted(Err("gone".to_string())), blank_answers(), WizardStep::ChapterDir);
    assert_eq!(
        failed,
        StepNext::Note {
            title: "Could not read novel info".to_string(),
            body: "gone\n\nYou can still enter the title and author manually.".to_string(),
        }
    );
    assert_eq!(after_prefill_note(PromptOutcome::Submitted(()), WizardStep::ChapterDir), WizardRoute::Prompt);
    assert_eq!(after_prefill_note(PromptOutcome::Back, WizardStep::ChapterDir), WizardRoute::Go(WizardStep::ChapterDir));
}

#[test]
fn a_stalled_estimate_grows_and_a_finished_run_freezes() {
    let mut progress = DownloadProgress::new(30);
    for n in 1..=10u32 {
        progress.record_completed_at(n, CrawlStatus::Written, n as u64 * 2 * SEC);
    }
    let early = progress.eta(20 * SEC).unwrap();
    let late = progress.eta(200 * SEC).unwrap();
    assert!(late > early);
    progress.finish_at(12 * SEC);
    assert_eq!(progress.elapsed(600 * SEC), 12 * SEC);
    assert_eq!(progress.eta(600 * SEC), None);
}

#[test]
fn wrapping_ends_in_an_empty_row_exactly_after_a_break_or_nothing() {
    assert_eq!(wrap_text("", 10).last().map(|r| r.is_empty()), Some(true));
    assert_eq!(wrap_text("abc\n", 10).last().map(|r| r.is_empty()), Some(true));
    assert_eq!(wrap_text("abc", 10).last().map(|r| r.is_empty()), Some(false));
}
