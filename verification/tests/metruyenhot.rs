use novel_downloader::source::metruyenhot::metadata::{author_in_line, description_from_siblings};
use novel_downloader::source::metruyenhot::parser::{chapter_paragraphs_from, pick_title};
use novel_downloader::source::metruyenhot::{
    chapter_from_page, chapter_index, chapter_url, extract_author_from_main_page, extract_cover_image_url,
    extract_full_chapter_text, extract_novel_description_from_main_page, extract_novel_status_from_main_page,
    extract_novel_title_from_main_page, main_page_url, metadata_from_main_page, novel_from_main_page,
};

/// A main page laid out as the site serves it: title block, info block with
/// author and status, marker paragraph, description, cover and chapter list.
const NOVEL_PAGE: &str = r#"<!DOCTYPE html>
<html lang="vi"><head>
<title>Vô Địch Tiên Nhân - truyenazz</title>
</head><body>
<div class="content1">
  <div class="book-img"><img class=lazyloaded src=/uploads/vo-dich-tien-nhan.jpg alt="Vô Địch Tiên Nhân"></div>
  <h1>Vô Địch Tiên Nhân</h1>
  <div class="info">
    <p>Tác giả: <a href="/tac-gia/tan-can/">Tần Cấn</a></p>
    <p>Thể loại: <a href="/the-loai/tien-hiep/">Tiên Hiệp</a></p>
    <p>Trạng thái: <span class="status">Đang ra</span></p>
  </div>
  <p>Thông tin chi tiết:</p>
  <p></p>
  <p>Dương Bách Xuyên đi dạo công viên cùng bạn gái thì gặp chuyện lạ.</p>
</div>
<ul class="list-chapter">
  <li><a href="/vo-dich-tien-nhan/chuong-1/">Chương 1</a></li>
  <li><a href="/vo-dich-tien-nhan/chuong-120/">Chương 120</a></li>
</ul>
</body></html>"#;

/// A chapter page laid out as the site serves it.
const CHAPTER_PAGE: &str = r#"<!DOCTYPE html>
<html><head><style>.ms-b{display:none}</style></head><body>
<div class="rv-full-story-title"><h1>Vô Địch Tiên Nhân</h1></div>
<div class="rv-chapt-title"><h2>Chương 1: Gặp gỡ</h2></div>
<div class="chapter-c">
  <p>Đoạn một.</p>
  <p>Đoạn hai.</p>
  <p class="ms-b">Lên google tìm kiếm từ khóa metruyenH0t.</p>
  <div id="content-metruyenhot"></div>
  <p>Đoạn năm.</p>
  <p>Nhấn Mở Bình Luận để xem thêm</p>
</div>
<script>var contentS = '<p>Đoạn ba.</p><p>Đoạn bốn.</p>'; div.innerHTML = contentS;</script>
</body></html>"#;

#[test]
fn extract_novel_title_prefers_h1_over_title_tag() {
    let html = "<html><head><title>Foo - truyenazz</title></head><body><h1>Cuốn Sách</h1></body></html>";
    assert_eq!(extract_novel_title_from_main_page(html), "Cuốn Sách");
}

#[test]
fn extract_novel_title_strips_trailing_truyenazz_suffix() {
    let html = "<html><head><title>Foo Bar - truyenazz</title></head><body></body></html>";
    assert_eq!(extract_novel_title_from_main_page(html), "Foo Bar");
}

#[test]
fn extract_novel_title_falls_back_to_unknown() {
    assert_eq!(extract_novel_title_from_main_page("<html></html>"), "Unknown Novel");
}

#[test]
fn extract_author_returns_none_when_missing() {
    assert!(extract_author_from_main_page("<html><body>Nothing</body></html>").is_none());
}

#[test]
fn extract_author_strips_after_genre_marker() {
    let html = "<html><body>Tác giả: Nguyễn Văn A Thể loại: Tu chân</body></html>";
    assert_eq!(extract_author_from_main_page(html).unwrap(), "Nguyễn Văn A");
}

#[test]
fn extract_author_drops_trailing_commas() {
    let html = "<html><body>tác giả:   Lê B , ,\nkhác</body></html>";
    assert_eq!(extract_author_from_main_page(html).unwrap(), "Lê B");
}

#[test]
fn extract_author_is_none_when_the_line_is_only_a_genre() {
    let html = "<html><body>Tác giả: Thể loại: Tu chân</body></html>";
    assert!(extract_author_from_main_page(html).is_none());
}

#[test]
fn extract_cover_image_url_finds_lazy_loaded_img() {
    let html = "<html><body><div class=\"book-img\"><img class=\"lazyloaded\" src=\"/cover.jpg\"></div></body></html>";
    let url = extract_cover_image_url("https://metruyenhotvn.com/foo/", html).unwrap();
    assert_eq!(url, "https://metruyenhotvn.com/cover.jpg");
}

#[test]
fn extract_cover_image_url_skips_data_uris() {
    let html = "<html><body><img src=\"data:image/png;base64,aaa\"><img class=\"lazyloaded\" src=\"/cover.jpg\"></body></html>";
    let url = extract_cover_image_url("https://metruyenhotvn.com/foo/", html).unwrap();
    assert_eq!(url, "https://metruyenhotvn.com/cover.jpg");
}

#[test]
fn extract_cover_image_url_returns_none_when_no_img() {
    assert!(extract_cover_image_url("https://x/", "<html></html>").is_none());
}

#[test]
fn extract_cover_image_url_reads_a_data_src_relative_to_the_page() {
    let html = "<html><body><img data-src=\" img/c.png \"></body></html>";
    let url = extract_cover_image_url("https://metruyenhotvn.com/foo/", html).unwrap();
    assert_eq!(url, "https://metruyenhotvn.com/foo/img/c.png");
}

#[test]
fn extract_cover_image_url_is_none_for_a_main_url_that_does_not_parse() {
    let html = "<html><body><img src=\"https://cdn.example/c.png\"></body></html>";
    assert!(extract_cover_image_url("not a url", html).is_none());
}

#[test]
fn extract_novel_status_pulls_status_span_under_info_p() {
    let html = r#"
    <html><body>
      <div class="content1">
        <div class="info">
          <p>Trạng thái: <span class="status">Đang ra</span></p>
        </div>
      </div>
    </body></html>
    "#;
    assert_eq!(extract_novel_status_from_main_page(html).as_deref(), Some("Đang ra"));
}

#[test]
fn extract_novel_status_returns_none_when_missing() {
    assert!(extract_novel_status_from_main_page("<html></html>").is_none());
    let unrelated = "<html><body><span class=\"status\">Đang ra</span></body></html>";
    assert!(extract_novel_status_from_main_page(unrelated).is_none());
}

#[test]
fn extract_novel_description_returns_second_sibling_after_info() {
    let html = r#"
    <html><body>
      <div class="content1">
        <div class="info"><p>info goes here</p></div>
        <p>first sibling — not the desc</p>
        <p>The novel description goes here.</p>
      </div>
    </body></html>
    "#;
    assert_eq!(
        extract_novel_description_from_main_page(html).as_deref(),
        Some("The novel description goes here.")
    );
}

#[test]
fn extract_novel_description_ignores_whitespace_text_nodes() {
    let html = "<html><body><div class=\"content1\"><div class=\"info\"></div>\n  <p>first</p>\n  <p>second is desc</p></div></body></html>";
    assert_eq!(extract_novel_description_from_main_page(html).as_deref(), Some("second is desc"));
}

#[test]
fn extract_novel_description_returns_none_when_missing() {
    assert!(extract_novel_description_from_main_page("<html></html>").is_none());
    let only_one_sibling = r#"<html><body><div class="content1"><div class="info"></div><p>only one</p></div></body></html>"#;
    assert!(extract_novel_description_from_main_page(only_one_sibling).is_none());
}

#[test]
fn extract_novel_description_skips_empty_paragraph_between_marker_and_body() {
    let html = "<html><body><div class=\"content1\"><div class=\"info\"></div>\
        <p>Thông tin chi tiết:</p>\
        <p></p>\
        <p>real description</p></div></body></html>";
    assert_eq!(extract_novel_description_from_main_page(html).as_deref(), Some("real description"));
}

#[test]
fn extract_novel_title_from_metruyenhot_main_page() {
    let title = extract_novel_title_from_main_page(NOVEL_PAGE);
    assert!(title.contains("Vô Địch Tiên Nhân"), "title was: {title}");
}

#[test]
fn extract_author_from_metruyenhot_main_page() {
    let author = extract_author_from_main_page(NOVEL_PAGE).expect("author present");
    assert_eq!(author, "Tần Cấn");
}

#[test]
fn extract_novel_status_from_metruyenhot_main_page() {
    let status = extract_novel_status_from_main_page(NOVEL_PAGE).expect("status present");
    assert_eq!(status, "Đang ra");
}

#[test]
fn extract_novel_description_from_metruyenhot_main_page() {
    let desc = extract_novel_description_from_main_page(NOVEL_PAGE).expect("description present");
    assert!(
        desc.contains("bạn gái") || desc.contains("Dương Bách Xuyên") || desc.contains("công viên"),
        "description was: {desc}"
    );
}

#[test]
fn extract_cover_image_url_from_metruyenhot_main_page() {
    let url = extract_cover_image_url("https://metruyenhotvn.com/vo-dich-tien-nhan/", NOVEL_PAGE);
    assert!(url.as_deref().map(|u| u.starts_with("http")).unwrap_or(false), "cover url: {url:?}");
}

#[test]
fn extract_full_chapter_text_handles_metruyenhot_chapter_fixture() {
    let content = extract_full_chapter_text(CHAPTER_PAGE).expect("parser should accept metruyenhot");
    assert!(content.novel_title.contains("Vô Địch Tiên Nhân"), "novel title: {}", content.novel_title);
    assert!(content.chapter_title.contains("Chương 1"), "chapter title: {}", content.chapter_title);
    assert!(content.paragraphs.len() >= 5, "expected at least 5 paragraphs, got {}", content.paragraphs.len());
    assert_eq!(content.paragraphs, vec!["Đoạn một.", "Đoạn hai.", "Đoạn ba.", "Đoạn bốn.", "Đoạn năm."]);
}

#[test]
fn main_page_url_keeps_exactly_one_trailing_slash() {
    assert_eq!(main_page_url("https://metruyenhotvn.com/foo"), "https://metruyenhotvn.com/foo/");
    assert_eq!(main_page_url("https://metruyenhotvn.com/foo///"), "https://metruyenhotvn.com/foo/");
}

#[test]
fn chapter_url_appends_the_chapter_segment() {
    assert_eq!(chapter_url("https://metruyenhotvn.com/foo/", 7), "https://metruyenhotvn.com/foo/chuong-7/");
}

#[test]
fn chapter_index_numbers_every_chapter_up_to_the_last() {
    let index = chapter_index("https://metruyenhotvn.com/foo/", 3);
    assert_eq!(index.len(), 3);
    assert_eq!(index[0].number, 1);
    assert_eq!(index[2].number, 3);
    assert_eq!(index[2].title, None);
    assert_eq!(index[2].locator, "https://metruyenhotvn.com/foo/chuong-3/");
    assert!(chapter_index("https://metruyenhotvn.com/foo/", 0).is_empty());
}

#[test]
fn metadata_from_main_page_runs_every_extractor() {
    let novel = metadata_from_main_page("https://metruyenhotvn.com/vo-dich-tien-nhan/", NOVEL_PAGE);
    assert_eq!(novel.title, "Vô Địch Tiên Nhân");
    assert_eq!(novel.author.as_deref(), Some("Tần Cấn"));
    assert_eq!(novel.status.as_deref(), Some("Đang ra"));
    assert_eq!(
        novel.cover_url.as_deref(),
        Some("https://metruyenhotvn.com/uploads/vo-dich-tien-nhan.jpg")
    );
    assert!(novel.chapters.is_empty());
}

#[test]
fn novel_from_main_page_synthesizes_the_index() {
    let novel = novel_from_main_page("https://metruyenhotvn.com/vo-dich-tien-nhan/", NOVEL_PAGE, 2);
    assert_eq!(novel.chapters.len(), 2);
    assert_eq!(novel.chapters[1].locator, "https://metruyenhotvn.com/vo-dich-tien-nhan/chuong-2/");
}

#[test]
fn chapter_from_page_fails_on_an_empty_body() {
    let err = chapter_from_page("https://x/foo/chuong-1/", "<div class=\"chapter-c\"><p> </p></div>").unwrap_err();
    assert_eq!(err, "No chapter content extracted from https://x/foo/chuong-1/");
    assert!(chapter_from_page("https://x/", "<p>none</p>").unwrap_err().contains("chapter-c"));
    assert_eq!(chapter_from_page("https://x/", CHAPTER_PAGE).unwrap().paragraphs.len(), 5);
}

fn el(tag: &str, attrs: &[(&str, &str)], text: &str) -> (String, Vec<(String, String)>, String) {
    (
        tag.to_string(),
        attrs.iter().map(|(k, v)| (k.to_string(), v.to_string())).collect(),
        text.to_string(),
    )
}

#[test]
fn chapter_paragraphs_from_splices_filters_and_dedupes_given_elements() {
    let children = vec![
        (el("p", &[], "  Một  "), vec![]),
        (el("p", &[("class", "x ms-b")], "Ẩn"), vec![]),
        (el("div", &[("id", "data-content-truyen-backup")], ""), vec![]),
        (el("div", &[], "ignored"), vec![el("p", &[], "Hai"), el("p", &[("class", "ms-b")], "Ẩn nữa")]),
        (el("span", &[], "Hai"), vec![]),
        (el("p", &[("style", "x"), ("data-t", " Ba ")], ""), vec![]),
    ];
    let hidden = vec!["ms-b".to_string()];
    let injected = vec!["Tiêm".to_string(), "".to_string()];
    assert_eq!(chapter_paragraphs_from(&children, &hidden, &injected), vec!["Một", "Tiêm", "Hai", "Ba"]);
}

#[test]
fn pick_title_prefers_the_primary_then_the_first_non_empty_fallback() {
    let some = |v: &[&str]| Some(v.iter().map(|s| s.to_string()).collect::<Vec<String>>());
    assert_eq!(pick_title(some(&[" A "]), some(&["B"]), "D"), "A");
    assert_eq!(pick_title(some(&[" ", "A"]), some(&["", " B "]), "D"), "B");
    assert_eq!(pick_title(None, None, "D"), "D");
}

#[test]
fn author_in_line_cuts_the_genre_and_trailing_commas() {
    assert_eq!(author_in_line(" Tần Cấn ,Thể loại: Huyền huyễn"), "Tần Cấn");
    assert_eq!(author_in_line("A &amp; B"), "A & B");
}

#[test]
fn description_from_siblings_skips_the_marker() {
    let sibs = vec![el("p", &[], "Marker"), el("div", &[], "not a p"), el("p", &[], " "), el("p", &[], " Desc ")];
    assert_eq!(description_from_siblings(&sibs).as_deref(), Some("Desc"));
    assert_eq!(description_from_siblings(&vec![el("p", &[], "Only")]), None);
}
