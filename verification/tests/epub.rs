use novel_downloader::epub::cover::{canonical_extension_for_media_type, pick_cover_extension};
use novel_downloader::epub::package::{
    apply_drop_cap, chapter_xhtml, content_opf, nav_xhtml, ncx_xml, split_drop_cap, title_page_xhtml,
    ChapterEntry, ContentOpfParams,
};

fn entry(n: u32, title: &str) -> ChapterEntry {
    ChapterEntry { id: format!("ch{n}"), file_name: format!("chapter_{n:04}.xhtml"), title: title.to_string() }
}

#[test]
fn pick_cover_extension_uses_media_type_first() {
    assert_eq!(pick_cover_extension("https://x/cover.bin", "image/png"), ".png");
}

#[test]
fn pick_cover_extension_falls_back_to_url_extension() {
    assert_eq!(pick_cover_extension("https://x/cover.jpeg", ""), ".jpeg");
}

#[test]
fn pick_cover_extension_defaults_to_jpg() {
    assert_eq!(pick_cover_extension("https://x/cover", ""), ".jpg");
}

#[test]
fn pick_cover_extension_maps_jpeg_to_jpg() {
    let ext = pick_cover_extension("https://x/cover", "image/jpeg");
    assert_eq!(ext, ".jpg");
    assert_ne!(ext, ".jfif");
}

#[test]
fn pick_cover_extension_maps_core_image_types() {
    for (media_type, expected) in
        [("image/png", ".png"), ("image/gif", ".gif"), ("image/svg+xml", ".svg"), ("image/webp", ".webp")]
    {
        assert_eq!(pick_cover_extension("https://x/cover", media_type), expected);
    }
}

#[test]
fn pick_cover_extension_rejects_unrecognized_url_extension() {
    assert_eq!(pick_cover_extension("https://x/cover.jfif", ""), ".jpg");
}

#[test]
fn pick_cover_extension_reads_a_media_type_loosely_and_an_extension_in_any_case() {
    assert_eq!(pick_cover_extension("https://x/c", "  IMAGE/PNG "), ".png");
    assert_eq!(pick_cover_extension("https://x/a/COVER.WEBP?size=2", "text/html"), ".webp");
    assert_eq!(pick_cover_extension("not a url", ""), ".jpg");
    assert_eq!(canonical_extension_for_media_type("image/jpeg"), Some(".jpg"));
    assert_eq!(canonical_extension_for_media_type("image/bmp"), None);
}

#[test]
fn chapter_xhtml_wraps_body_in_xhtml_skeleton() {
    let xhtml = chapter_xhtml("Chương 1", "<p>Hello</p>");
    assert!(xhtml.starts_with("<?xml"));
    assert!(xhtml.contains("<title>Chương 1</title>"));
    assert!(xhtml.contains("<h1>Chương 1</h1>"));
    assert!(xhtml.contains("<p class=\"dropcap-para\"><span class=\"dropcap\">H</span>ello</p>"));
}

#[test]
fn chapter_xhtml_renders_the_exact_skeleton() {
    assert_eq!(
        chapter_xhtml("A & B", "<div>x</div>"),
        "<?xml version=\"1.0\" encoding=\"utf-8\"?>\n<!DOCTYPE html>\n\
<html xmlns=\"http://www.w3.org/1999/xhtml\" xml:lang=\"vi\" lang=\"vi\">\n<head>\n<title>A &amp; B</title>\n\
<link href=\"../styles/main.css\" rel=\"stylesheet\" type=\"text/css\"/>\n</head>\n<body>\n<h1>A &amp; B</h1>\n\
<div>x</div>\n</body>\n</html>"
    );
}

#[test]
fn title_page_xhtml_includes_author_when_present() {
    let with = title_page_xhtml("Truyện X", Some("Tác giả Y"));
    assert!(with.contains("Tác giả Y"));
    let without = title_page_xhtml("Truyện X", None);
    assert!(!without.contains("Tác giả Y"));
}

#[test]
fn nav_xhtml_lists_each_chapter_as_link() {
    let xhtml = nav_xhtml("N", &[entry(1, "C1"), entry(2, "C2")]);
    assert!(xhtml.contains("<a href=\"text/chapter_0001.xhtml\">C1</a>"));
    assert!(xhtml.contains("<a href=\"text/chapter_0002.xhtml\">C2</a>"));
    assert!(xhtml.contains("<ol>\n        <li><a href=\"text/chapter_0001.xhtml\">C1</a></li>\n        <li>"));
    assert!(xhtml.contains("C2</a></li>\n</ol>\n</nav>"));
}

#[test]
fn ncx_xml_emits_one_navpoint_per_chapter() {
    let xml = ncx_xml("N", "https://x/", &[entry(1, "C1")]);
    assert!(xml.contains("<navPoint id=\"navPoint-1\""));
    assert!(xml.contains("playOrder=\"1\""));
    assert!(xml.contains("text/chapter_0001.xhtml"));
}

#[test]
fn ncx_xml_numbers_navpoints_in_reading_order() {
    let xml = ncx_xml("N & M", "id", &[entry(1, "C1"), entry(2, "C<2>")]);
    assert!(xml.contains("<navPoint id=\"navPoint-2\" playOrder=\"2\">\n<navLabel><text>C&lt;2&gt;</text></navLabel>"));
    assert!(xml.contains("<docTitle><text>N &amp; M</text></docTitle>"));
    assert!(xml.ends_with("</navPoint>\n</navMap>\n</ncx>"));
}

#[test]
fn content_opf_includes_metadata_and_spine() {
    let opf = content_opf(ContentOpfParams {
        identifier: "https://x/".into(),
        title: "T".into(),
        author: Some("A".into()),
        include_cover: true,
        cover_ext: ".jpg".into(),
        include_font: true,
        font_file_name: "epub-font.ttf".into(),
        chapters: vec![entry(1, "C1")],
        modified: "2026-08-20T08:42:00Z".into(),
    });
    assert!(opf.contains("<dc:title>T</dc:title>"));
    assert!(opf.contains("<dc:creator>A</dc:creator>"));
    assert!(opf.contains("<meta name=\"cover\" content=\"cover-image\"/>"));
    assert!(opf.contains("href=\"cover.jpg\""));
    assert!(opf.contains("media-type=\"image/jpeg\""));
    assert!(opf.contains("href=\"fonts/epub-font.ttf\""));
    assert!(opf.contains("<itemref idref=\"ch1\""));
}

#[test]
fn content_opf_declares_dcterms_modified_exactly_once() {
    let opf = content_opf(ContentOpfParams {
        identifier: "https://x/".into(),
        title: "T".into(),
        author: None,
        include_cover: false,
        cover_ext: ".jpg".into(),
        include_font: false,
        font_file_name: "epub-font.ttf".into(),
        chapters: vec![entry(1, "C1")],
        modified: "2026-08-20T08:42:00Z".into(),
    });
    let meta = "<meta property=\"dcterms:modified\">2026-08-20T08:42:00Z</meta>";
    assert_eq!(opf.matches(meta).count(), 1);
    let metadata = opf
        .split_once("<metadata")
        .and_then(|(_, rest)| rest.split_once("</metadata>"))
        .map(|(inner, _)| inner)
        .expect("package document has a metadata element");
    assert!(metadata.contains(meta));
    assert!(!opf.contains("cover-image"));
    assert!(!opf.contains("epub-font"));
}

#[test]
fn split_drop_cap_splits_a_letter_opening_from_the_rest() {
    assert_eq!(
        split_drop_cap("Sương mù phủ kín thung lũng"),
        Some(('S', "ương mù phủ kín thung lũng".to_string()))
    );
}

#[test]
fn split_drop_cap_rejects_openings_that_are_not_letters() {
    assert_eq!(split_drop_cap("\"Ngươi là ai?\" hắn hỏi"), None);
    assert_eq!(split_drop_cap("- Ngươi là ai?"), None);
    assert_eq!(split_drop_cap("&quot;Ngươi là ai?&quot;"), None);
    assert_eq!(split_drop_cap("1954 là năm ấy"), None);
    assert_eq!(split_drop_cap(" Sương mù phủ kín"), None);
    assert_eq!(split_drop_cap(""), None);
}

#[test]
fn chapter_xhtml_marks_the_first_paragraph_with_a_drop_cap() {
    let xhtml = chapter_xhtml("Chương 1", "<p>Sương mù phủ kín thung lũng</p>");
    assert!(xhtml.contains(
        "<p class=\"dropcap-para\"><span class=\"dropcap\">S</span>ương mù phủ kín thung lũng</p>"
    ));
}

#[test]
fn chapter_xhtml_drop_caps_only_the_first_paragraph() {
    let xhtml = chapter_xhtml(
        "Chương 1",
        "<p>Sương mù phủ kín thung lũng</p>\n<p>Hắn bước ra khỏi cửa</p>\n<p>Trời đã sáng</p>",
    );
    assert_eq!(xhtml.matches("class=\"dropcap\"").count(), 1);
    assert_eq!(xhtml.matches("class=\"dropcap-para\"").count(), 1);
    assert!(xhtml.contains("<p>Hắn bước ra khỏi cửa</p>"));
    assert!(xhtml.contains("<p>Trời đã sáng</p>"));
}

#[test]
fn chapter_xhtml_leaves_a_dialogue_opening_alone() {
    let body = "<p>\"Ngươi là ai?\" hắn hỏi</p>\n<p>Không ai trả lời</p>";
    let xhtml = chapter_xhtml("Chương 1", body);
    assert!(!xhtml.contains("dropcap"));
    assert!(xhtml.contains(body));
}

#[test]
fn title_page_xhtml_carries_no_drop_cap() {
    let xhtml = title_page_xhtml("Truyện X", Some("Tác giả Y"));
    assert!(!xhtml.contains("dropcap"));
}

#[test]
fn chapter_xhtml_leaves_a_body_without_a_paragraph_alone() {
    let body = "<div>Sương mù phủ kín thung lũng</div>";
    let xhtml = chapter_xhtml("Chương 1", body);
    assert!(!xhtml.contains("dropcap"));
    assert!(xhtml.contains(body));
}

#[test]
fn split_drop_cap_composes_a_decomposed_letter_into_one_character() {
    let decomposed = "E\u{0302}\u{0301}m đềm trôi qua";
    assert_eq!(split_drop_cap(decomposed), Some(('\u{1EBE}', "m đềm trôi qua".to_string())));
}

#[test]
fn apply_drop_cap_keeps_what_surrounds_the_first_paragraph() {
    assert_eq!(
        apply_drop_cap("<h2>x</h2><p>Ai <b>đó</b></p>").unwrap(),
        "<h2>x</h2><p class=\"dropcap-para\"><span class=\"dropcap\">A</span>i <b>đó</b></p>"
    );
    assert_eq!(apply_drop_cap("<p>no closing tag"), None);
}
