use novel_downloader::crawler::discovery::{
    discover_last_chapter_number_from_html, find_last_page_url, last_chapter_listed, max_chapter_in_html,
};
use novel_downloader::crawler::{
    answered_step, build_html_document, chapter_file_name, escape_html, existing_chapter_step, CrawlStatus,
    ExistingChapterDecision, ExistingFilePolicy, ExistingStep,
};
use novel_downloader::source::metruyenhot::extract_full_chapter_text;

#[test]
fn escape_html_replaces_special_characters() {
    assert_eq!(
        escape_html("<a href=\"x\">'b' & c</a>"),
        "&lt;a href=&quot;x&quot;&gt;&apos;b&apos; &amp; c&lt;/a&gt;"
    );
}

#[test]
fn escape_html_preserves_safe_text() {
    assert_eq!(escape_html("plain text 1 2 3"), "plain text 1 2 3");
}

#[test]
fn escape_html_escapes_an_ampersand_only_once() {
    assert_eq!(escape_html("&amp;"), "&amp;amp;");
}

#[test]
fn build_html_document_escapes_titles_and_paragraphs() {
    let doc = build_html_document(
        "A & B",
        "<Chapter>",
        &["Hello & goodbye".to_string(), "<script>".to_string()],
    );
    assert!(doc.contains("<title>&lt;Chapter&gt;</title>"));
    assert!(doc.contains("<div class=\"novel-title\">A &amp; B</div>"));
    assert!(doc.contains("<p>Hello &amp; goodbye</p>"));
    assert!(doc.contains("<p>&lt;script&gt;</p>"));
}

#[test]
fn build_html_document_renders_chapter_title_as_h1() {
    let doc = build_html_document("N", "C1", &[]);
    assert!(doc.contains("<h1 class=\"chapter-title\">C1</h1>"));
}

#[test]
fn discover_last_chapter_number_from_html_returns_max_chuong() {
    let html = r#"<html><body>
  <a href="/foo/chuong-1/">c1</a>
  <a href="/foo/chuong-9/">c9</a>
  <a href="/foo/chuong-3/">c3</a>
</body></html>"#;
    let n = discover_last_chapter_number_from_html(html, "https://metruyenhotvn.com/foo/").unwrap();
    assert_eq!(n, 9);
}

#[test]
fn discover_last_chapter_number_from_html_errors_when_no_chuong_links() {
    let err = discover_last_chapter_number_from_html("<html></html>", "https://x/foo/").unwrap_err();
    assert!(err.to_lowercase().contains("chuong"));
    assert_eq!(err, "Could not find any /chuong-N/ links on https://x/foo/.");
}

#[test]
fn find_last_page_url_resolves_relative_href_against_main_url() {
    let html = r#"<html><body><div class="pagination"><ul>
        <li class="nexts"><a href="?page=48"></a></li>
    </ul></div></body></html>"#;
    let u = find_last_page_url(html, "https://metruyenhotvn.com/foo/").unwrap();
    assert_eq!(u, "https://metruyenhotvn.com/foo/?page=48");
}

#[test]
fn find_last_page_url_returns_none_for_single_page_chapter_list() {
    let html = r#"<html><body><a href="/foo/chuong-1/">c1</a></body></html>"#;
    assert!(find_last_page_url(html, "https://metruyenhotvn.com/foo/").is_none());
}

#[test]
fn max_chapter_in_html_ignores_chuong_links_under_a_different_novel_slug() {
    let html = r#"<html><body>
        <a href="/different-novel/chuong-9999/">other novel</a>
        <a href="/foo/chuong-42/">c42</a>
    </body></html>"#;
    let n = max_chapter_in_html(html, "https://metruyenhotvn.com/foo/").unwrap();
    assert_eq!(n, 42);
}

#[test]
fn max_chapter_in_html_accepts_chuong_links_on_any_host_with_matching_slug() {
    let html = r#"<html><body>
        <a href="https://metruyenhotne.com/foo/chuong-2351/">c2351</a>
        <a href="https://metruyenhotne.com/foo/chuong-2376/">c2376</a>
    </body></html>"#;
    let n = max_chapter_in_html(html, "https://metruyenhotvn.com/foo/").unwrap();
    assert_eq!(n, 2376);
}

#[test]
fn max_chapter_in_html_skips_numbers_that_do_not_parse() {
    let html = r#"<a href="/foo/chuong-7/">c7</a><a href="/foo/chuong-x/">cx</a>
        <a href="/foo/chuong-99999999999/">huge</a><a href="/foo/chuong-+8">c8</a>"#;
    assert_eq!(max_chapter_in_html(html, "https://metruyenhotvn.com/foo").unwrap(), 8);
    assert_eq!(max_chapter_in_html(html, "not a url"), None);
}

#[test]
fn extract_full_chapter_text_pulls_titles_and_paragraphs() {
    let html = r#"
<html><body>
  <div class="rv-full-story-title"><h1>Người Chồng Vô Dụng</h1></div>
  <div class="rv-chapt-title"><h2>Chương 12: Bí mật</h2></div>
  <div class="chapter-c">
    <p>Đoạn một.</p>
    <p>Đoạn hai.</p>
    <p>Bạn đang đọc truyện mới tại spam.com</p>
    <p>Đoạn ba.</p>
  </div>
</body></html>
"#;
    let chapter = extract_full_chapter_text(html).unwrap();
    assert_eq!(chapter.novel_title, "Người Chồng Vô Dụng");
    assert_eq!(chapter.chapter_title, "Chương 12: Bí mật");
    assert_eq!(
        chapter.paragraphs,
        vec!["Đoạn một.", "Đoạn hai.", "Đoạn ba."]
    );
}

#[test]
fn extract_full_chapter_text_falls_back_to_default_titles() {
    let html = r#"
<html><body>
  <div class="chapter-c">
    <p>Hello world.</p>
  </div>
</body></html>
"#;
    let chapter = extract_full_chapter_text(html).unwrap();
    assert_eq!(chapter.novel_title, "Unknown Novel");
    assert_eq!(chapter.chapter_title, "Untitled Chapter");
    assert_eq!(chapter.paragraphs, vec!["Hello world."]);
}

#[test]
fn extract_full_chapter_text_filters_css_hidden_noise_paragraphs() {
    let html = r#"
<html><head><style>
  .mshow-hb { display: none; }
  .rotating-xyz { color: red; display:none }
</style></head><body>
<div class="chapter-c">
  <p>Đoạn thật một.</p>
  <p class="mshow-hb">Lên google tìm kiếm từ khóa metruyenH0t để đọc...</p>
  <p class="rotating-xyz">Bạn đang đọc truyện mới tại đâu đó.</p>
  <p>Đoạn thật hai.</p>
  <div><p class="rotating-xyz">Quảng cáo lồng trong div.</p><p>Đoạn thật ba.</p></div>
</div>
</body></html>
"#;
    let chapter = extract_full_chapter_text(html).unwrap();
    assert_eq!(
        chapter.paragraphs,
        vec!["Đoạn thật một.", "Đoạn thật hai.", "Đoạn thật ba."]
    );
}

#[test]
fn extract_full_chapter_text_keeps_paragraphs_whose_class_is_not_hidden() {
    let html = r#"
<html><head><style>.fancy { color: navy; }</style></head><body>
<div class="chapter-c">
  <p class="fancy">Đoạn được tô màu nhưng vẫn hiển thị.</p>
  <p>Đoạn thường.</p>
</div>
</body></html>
"#;
    let chapter = extract_full_chapter_text(html).unwrap();
    assert_eq!(
        chapter.paragraphs,
        vec!["Đoạn được tô màu nhưng vẫn hiển thị.", "Đoạn thường."]
    );
}

#[test]
fn extract_full_chapter_text_dedupes_consecutive_lines() {
    let html = r#"
<div class="chapter-c">
  <p>Lặp lại</p>
  <p>Lặp lại</p>
  <p>Khác</p>
</div>
"#;
    let chapter = extract_full_chapter_text(html).unwrap();
    assert_eq!(chapter.paragraphs, vec!["Lặp lại", "Khác"]);
}

#[test]
fn extract_full_chapter_text_extracts_injected_backup_content() {
    let injected = "var contentS = '<p>Đoạn ẩn 1.</p><p>Đoạn ẩn 2.</p>'; div.";
    let injected = format!("{}innerHTML = contentS;", injected);
    let html = format!(
        r#"
<html><body>
  <div class="chapter-c">
    <p>Mở đầu.</p>
    <div id="data-content-truyen-backup"></div>
    <p>Kết thúc.</p>
  </div>
  <script>{}</script>
</body></html>
"#,
        injected
    );
    let chapter = extract_full_chapter_text(&html).unwrap();
    assert_eq!(
        chapter.paragraphs,
        vec!["Mở đầu.", "Đoạn ẩn 1.", "Đoạn ẩn 2.", "Kết thúc."]
    );
}

#[test]
fn extract_full_chapter_text_errors_when_chapter_div_missing() {
    let html = "<html><body><p>nothing</p></body></html>";
    let err = extract_full_chapter_text(html).unwrap_err();
    assert!(err.to_string().contains("chapter-c"));
}

#[test]
fn extract_full_chapter_text_unescapes_quotes_in_injected_content() {
    let html = "<div class=\"chapter-c\"><p>A.</p><div id=\"content-metruyenhot\"></div></div>\
        <script>var contentS = '<p>It\\'s \\\"quoted\\\".</p>'; div.innerHTML = contentS;</script>";
    let chapter = extract_full_chapter_text(html).unwrap();
    assert_eq!(chapter.paragraphs, vec!["A.", "It's \"quoted\"."]);
}

#[test]
fn extract_full_chapter_text_falls_back_to_a_content_attribute_for_an_empty_paragraph() {
    let html = "<div class=\"chapter-c\"><p class=\"x\" data-line=\"  From  attribute \"></p><span>Span line</span></div>";
    let chapter = extract_full_chapter_text(html).unwrap();
    assert_eq!(chapter.paragraphs, vec!["From attribute", "Span line"]);
}

#[test]
fn chapter_files_are_named_to_sort_in_reading_order() {
    assert_eq!(chapter_file_name(1), "chapter_0001.html");
    assert_eq!(chapter_file_name(42), "chapter_0042.html");
    assert_eq!(chapter_file_name(999), "chapter_0999.html");
    assert_eq!(chapter_file_name(12345), "chapter_12345.html");
}

#[test]
fn existing_chapters_follow_the_policy_and_the_run() {
    assert_eq!(existing_chapter_step(false, ExistingFilePolicy::Skip, ExistingFilePolicy::Ask), ExistingStep::Fetch);
    assert_eq!(existing_chapter_step(true, ExistingFilePolicy::Skip, ExistingFilePolicy::Ask), ExistingStep::Keep(CrawlStatus::Skipped));
    assert_eq!(existing_chapter_step(true, ExistingFilePolicy::Overwrite, ExistingFilePolicy::Ask), ExistingStep::Fetch);
    assert_eq!(existing_chapter_step(true, ExistingFilePolicy::Ask, ExistingFilePolicy::Ask), ExistingStep::Ask);
    assert_eq!(existing_chapter_step(true, ExistingFilePolicy::Ask, ExistingFilePolicy::SkipAll), ExistingStep::Keep(CrawlStatus::Skipped));
    assert_eq!(answered_step(ExistingChapterDecision::Redownload), ExistingStep::Fetch);
    assert_eq!(answered_step(ExistingChapterDecision::Skip), ExistingStep::Keep(CrawlStatus::Skipped));
    assert_eq!(answered_step(ExistingChapterDecision::SkipAll), ExistingStep::Keep(CrawlStatus::SkipAll));
}

#[test]
fn last_chapter_listed_prefers_the_last_page_and_falls_back_to_the_main_page() {
    let main_url = "https://metruyenhotvn.com/foo/";
    let main = "<a href=\"/foo/chuong-1/\">1</a><a href=\"/foo/chuong-50/\">50</a>";
    let last = "<a href=\"/foo/chuong-120/\">120</a>";
    assert_eq!(last_chapter_listed(main, main_url, None), Ok(50));
    assert_eq!(last_chapter_listed(main, main_url, Some(("https://metruyenhotvn.com/foo?page=3", last))), Ok(120));
    assert_eq!(last_chapter_listed(main, main_url, Some(("https://metruyenhotvn.com/foo?page=3", "<p></p>"))), Ok(50));
    assert_eq!(
        last_chapter_listed("<p></p>", main_url, Some(("https://x/p", "<p></p>"))).unwrap_err(),
        "No chapter links on https://x/p or https://metruyenhotvn.com/foo/."
    );
    assert_eq!(last_chapter_listed("<p></p>", main_url, None).unwrap_err(), "No chapter links on https://metruyenhotvn.com/foo/.");
}
