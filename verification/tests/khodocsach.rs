use novel_downloader::source::khodocsach::api::{ApiError, Book, ChapterContentResponse, ChapterListItem, Term, Ticket};
use novel_downloader::source::khodocsach::listing::reading_order;
use novel_downloader::source::khodocsach::{
    book_url, chapter_from_response, chapter_locator, content_url, http_failure, index_from_listing, listing_continues,
    listing_url, novel_from_book, parse_locator, retries_with_fresh_ticket, ticket_url,
};
use novel_downloader::source::khodocsach::parser::{api_base, book_slug_from_url, split_paragraphs, strip_html_to_text};
use novel_downloader::source::khodocsach::{ApiFailure, Khodocsach};
use novel_downloader::source::{SiteAdapter, SourceError};

#[test]
fn api_base_appends_the_rest_namespace_to_the_origin() {
    assert_eq!(
        api_base("https://khodocsach.com/mot-truyen").unwrap(),
        "https://khodocsach.com/wp-json/app/v1"
    );
}

#[test]
fn api_base_keeps_a_non_default_port() {
    assert_eq!(
        api_base("http://127.0.0.1:1234/mot-truyen").unwrap(),
        "http://127.0.0.1:1234/wp-json/app/v1"
    );
}

#[test]
fn api_base_errors_on_a_url_without_a_host() {
    assert!(api_base("not-a-url").is_err());
}

#[test]
fn book_slug_from_url_reads_a_single_segment_path() {
    assert_eq!(
        book_slug_from_url("https://khodocsach.com/mot-truyen-thu-nghiem").unwrap(),
        "mot-truyen-thu-nghiem"
    );
}

#[test]
fn book_slug_from_url_strips_the_kds_permalink_extension() {
    assert_eq!(
        book_slug_from_url("https://khodocsach.com/nguoi-tim-xac.kds/").unwrap(),
        "nguoi-tim-xac"
    );
    assert_eq!(
        book_slug_from_url("https://khodocsach.com/nguoi-tim-xac.kds").unwrap(),
        "nguoi-tim-xac"
    );
}

#[test]
fn book_slug_from_url_rejects_a_path_that_is_only_an_extension() {
    assert!(book_slug_from_url("https://khodocsach.com/.kds").is_err());
}

#[test]
fn book_slug_from_url_tolerates_a_trailing_slash_and_a_query() {
    assert_eq!(
        book_slug_from_url("https://khodocsach.com/mot-truyen-thu-nghiem/?a=b").unwrap(),
        "mot-truyen-thu-nghiem"
    );
}

#[test]
fn book_slug_from_url_rejects_the_site_root() {
    assert!(book_slug_from_url("https://khodocsach.com").is_err());
    assert!(book_slug_from_url("https://khodocsach.com/").is_err());
}

#[test]
fn book_slug_from_url_rejects_a_chapter_page() {
    assert!(
        book_slug_from_url("https://khodocsach.com/mot-truyen-thu-nghiem/chuong-1-p127361").is_err()
    );
}

#[test]
fn book_slug_from_url_rejects_taxonomy_archives() {
    assert!(book_slug_from_url("https://khodocsach.com/the_genre/co-dai/").is_err());
    assert!(book_slug_from_url("https://khodocsach.com/the_genre").is_err());
    assert!(book_slug_from_url("https://khodocsach.com/wp-json").is_err());
}

#[test]
fn book_slug_from_url_explains_each_refusal() {
    assert_eq!(
        book_slug_from_url("https://khodocsach.com/").unwrap_err(),
        "not a khodocsach book page: https://khodocsach.com/ (expected a single-segment path like /ten-truyen)"
    );
    assert_eq!(
        book_slug_from_url("https://khodocsach.com/wp-json").unwrap_err(),
        "not a khodocsach book page: https://khodocsach.com/wp-json"
    );
    assert_eq!(book_slug_from_url("nope").unwrap_err(), "invalid URL: nope");
}

#[test]
fn strip_html_to_text_drops_tags_and_decodes_entities() {
    assert_eq!(
        strip_html_to_text("<p>Dòng đầu.</p>\n<p>Dòng hai &amp; ba.</p>"),
        "Dòng đầu. Dòng hai & ba."
    );
}

#[test]
fn strip_html_to_text_keeps_adjacent_paragraphs_apart() {
    assert_eq!(strip_html_to_text("<p>a</p><p>b</p>"), "a b");
}

#[test]
fn strip_html_to_text_returns_empty_for_markup_only_input() {
    assert_eq!(strip_html_to_text("<p></p>"), "");
}

#[test]
fn split_paragraphs_keeps_one_paragraph_per_line_in_order() {
    assert_eq!(split_paragraphs("Một.\nHai.\nBa."), vec!["Một.", "Hai.", "Ba."]);
}

#[test]
fn split_paragraphs_drops_blank_and_whitespace_only_lines() {
    assert_eq!(split_paragraphs("Một.\n\n   \n\tHai.\n"), vec!["Một.", "Hai."]);
}

#[test]
fn split_paragraphs_drops_known_boilerplate() {
    assert_eq!(
        split_paragraphs("Một.\nNhấn Mở Bình Luận để xem thêm.\nHai."),
        vec!["Một.", "Hai."]
    );
}

#[test]
fn split_paragraphs_returns_empty_for_content_with_nothing_usable() {
    assert!(split_paragraphs("   \n\n\t").is_empty());
}

#[test]
fn split_paragraphs_strips_the_ad_and_nav_markup_that_wraps_every_chapter() {
    assert_eq!(
        split_paragraphs(&[
            r#"<div class="ads-responsive incontent-ad" id="ads-chapter-pc-top"></div>Một."#,
            "\nHai.\n",
            r#"</div><hr class="chapter-end"><div class="chapter-nav">"#
        ]
        .concat()),
        vec!["Một.", "Hai."],
        "the tags go, the prose sharing their line stays, and a markup-only line drops"
    );
}

#[test]
fn split_paragraphs_strips_the_tag_the_endpoint_truncates_mid_way() {
    assert_eq!(
        split_paragraphs("Một.\nHai.<hr class=\"chapter-end\"><div class=\"chapter-nav\" "),
        vec!["Một.", "Hai."],
        "the payload ends mid-tag, and that fragment shares its line with prose"
    );
}

#[test]
fn split_paragraphs_keeps_a_comparison_that_only_looks_like_a_truncated_tag() {
    assert_eq!(
        split_paragraphs("Một.\nHắn thấy a < b"),
        vec!["Một.", "Hắn thấy a < b"],
        "a bare `<` with no letter behind it is arithmetic, not a tag"
    );
}

#[test]
fn split_paragraphs_leaves_an_escaped_angle_bracket_in_the_prose() {
    assert_eq!(
        split_paragraphs("<p>Điều kiện: a &lt;b&gt; c</p>"),
        vec!["Điều kiện: a <b> c"],
        "stripping before decoding is what keeps `&lt;b&gt;` from being eaten as a tag"
    );
}

#[test]
fn split_paragraphs_handles_crlf_line_endings() {
    assert_eq!(split_paragraphs("Một.\r\nHai.\r\n"), vec!["Một.", "Hai."]);
}

#[test]
fn khodocsach_rate_policy_is_aggressive_due_to_ua_rotation() {
    let policy = Khodocsach.rate_policy();
    assert_eq!(policy.max_concurrency, usize::MAX);
    assert_eq!(policy.min_delay_ms, 0);
    assert_eq!(policy.max_retries, 2);
    assert_eq!(policy.backoff_base_ms, 2000);
    assert!(!policy.fixes_pacing());
}

#[test]
fn api_failure_maps_observed_statuses_onto_pipeline_errors() {
    let failure = |status: u16| ApiFailure {
        status,
        code: "rate_limited".to_string(),
        message: "Too many requests".to_string(),
        retry_after_ms: None,
    };
    assert_eq!(
        failure(429).into_source_error(),
        SourceError::RateLimited { source_name: "khodocsach", message: "Too many requests".to_string() }
    );
    assert_eq!(failure(403).into_source_error(), SourceError::ClientRejected("Too many requests".to_string()));
    assert_eq!(failure(404).into_source_error(), SourceError::NotFound("Too many requests".to_string()));
    assert_eq!(
        failure(500).into_source_error(),
        SourceError::Other("khodocsach API error (HTTP 500, rate_limited): Too many requests".to_string())
    );
    assert_eq!(
        ApiFailure::transport("connection reset".to_string()).into_source_error(),
        SourceError::Other("khodocsach transport: connection reset".to_string())
    );
    assert_eq!(
        ApiFailure::malformed("bad JSON".to_string()).into_source_error().message(),
        "khodocsach malformed response: bad JSON"
    );
}

#[test]
fn api_failure_spots_a_rejected_ticket() {
    let mut f = ApiFailure::transport("x".to_string());
    assert!(!f.is_ticket_invalid());
    f.status = 401;
    assert!(f.is_ticket_invalid());
    f.status = 403;
    f.code = "ticket_invalid".to_string();
    assert!(f.is_ticket_invalid());
}

fn book(desc: Option<&str>, cover: Option<&str>, author: Option<&str>) -> Book {
    Book {
        id: 83420,
        title: "Một Truyện Thử Nghiệm".to_string(),
        desc: desc.map(|d| d.to_string()),
        cover: cover.map(|c| c.to_string()),
        author: author.map(|a| Term { name: a.to_string() }),
        status: Some(Term { name: "Đang cập nhật".to_string() }),
    }
}

#[test]
fn novel_from_book_strips_the_description_and_leaves_the_index_empty() {
    let novel = novel_from_book(&book(Some("<p>Giới &amp; thiệu</p>"), Some("https://x/-cover.jpg"), Some("Tác Giả")));
    assert_eq!(novel.title, "Một Truyện Thử Nghiệm");
    assert_eq!(novel.author.as_deref(), Some("Tác Giả"));
    assert_eq!(novel.description.as_deref(), Some("Giới & thiệu"));
    assert_eq!(novel.status.as_deref(), Some("Đang cập nhật"));
    assert_eq!(novel.cover_url.as_deref(), Some("https://x/-cover.jpg"));
    assert!(novel.chapters.is_empty());
}

#[test]
fn novel_from_book_treats_empty_description_and_cover_as_absent() {
    let novel = novel_from_book(&book(Some("<p> </p>"), Some(""), None));
    assert_eq!(novel.description, None);
    assert_eq!(novel.cover_url, None);
    assert_eq!(novel.author, None);
}

#[test]
fn listing_url_and_book_url_name_the_endpoints() {
    assert_eq!(book_url("https://khodocsach.com/wp-json/app/v1", "ten-truyen"), "https://khodocsach.com/wp-json/app/v1/books/ten-truyen");
    assert_eq!(
        listing_url("https://khodocsach.com/wp-json/app/v1", 83420, 3),
        "https://khodocsach.com/wp-json/app/v1/books/83420/chapters?page=3&per_page=200"
    );
    assert!(listing_continues(1, 2));
    assert!(!listing_continues(2, 2));
    assert_eq!(ticket_url("https://k/wp-json/app/v1/chapters/9"), "https://k/wp-json/app/v1/chapters/9/ticket");
}

fn item(id: u64, index: u32, title: &str) -> ChapterListItem {
    ChapterListItem { id, index, title: title.to_string() }
}

#[test]
fn reading_order_sorts_by_number_and_keeps_ties_in_listing_order() {
    let items = vec![item(30, 3, "c"), item(21, 2, "b-first"), item(10, 1, "a"), item(22, 2, "b-second")];
    let ordered = reading_order(items);
    let ids: Vec<u64> = ordered.iter().map(|i| i.id).collect();
    assert_eq!(ids, vec![10, 21, 22, 30]);
    assert!(reading_order(Vec::new()).is_empty());
}

#[test]
fn chapter_locator_round_trips_through_parse_locator() {
    let base = "https://khodocsach.com/wp-json/app/v1";
    let locator = chapter_locator(base, 991, "Truyện & Thử = Nghiệm?").unwrap();
    assert!(locator.starts_with("https://khodocsach.com/wp-json/app/v1/chapters/991?book="));
    let (url, title) = parse_locator(&locator).unwrap();
    assert_eq!(url, "https://khodocsach.com/wp-json/app/v1/chapters/991");
    assert_eq!(title, "Truyện & Thử = Nghiệm?");
}

#[test]
fn parse_locator_defaults_a_missing_title_and_rejects_garbage() {
    let (url, title) = parse_locator("https://k/wp-json/app/v1/chapters/5?x=1").unwrap();
    assert_eq!(url, "https://k/wp-json/app/v1/chapters/5");
    assert_eq!(title, "");
    assert!(parse_locator("not a url").is_err());
    assert!(chapter_locator("not a base", 1, "t").is_err());
}

#[test]
fn index_from_listing_builds_locators_in_order() {
    let base = "https://khodocsach.com/wp-json/app/v1";
    let refs = index_from_listing(base, &vec![item(10, 1, "Một"), item(11, 2, "Hai")], "T").unwrap();
    assert_eq!(refs.len(), 2);
    assert_eq!(refs[1].number, 2);
    assert_eq!(refs[1].title.as_deref(), Some("Hai"));
    assert_eq!(refs[1].locator, "https://khodocsach.com/wp-json/app/v1/chapters/11?book=T");
    assert!(index_from_listing("bad base", &vec![item(1, 1, "x")], "T").is_err());
}

#[test]
fn content_url_carries_the_ticket() {
    let ticket = Ticket { nonce: "n1".to_string(), exp: -5, sig: "s+g".to_string() };
    assert_eq!(
        content_url("https://k/wp-json/app/v1/chapters/9", &ticket).unwrap(),
        "https://k/wp-json/app/v1/chapters/9?nonce=n1&exp=-5&sig=s%2Bg"
    );
    let failure = content_url("nope", &ticket).err().unwrap();
    assert_eq!(failure.status, 0);
    assert_eq!(failure.code, "transport");
    assert!(failure.message.starts_with("invalid chapter locator nope: "));
}

#[test]
fn http_failure_reads_the_envelope_or_names_the_status() {
    let envelope = ApiError { code: "ticket_invalid".to_string(), message: "expired".to_string() };
    let f = http_failure(401, Some(envelope), "https://k/x", Some(2000));
    assert_eq!((f.status, f.code.as_str(), f.message.as_str(), f.retry_after_ms), (401, "ticket_invalid", "expired", Some(2000)));
    assert!(retries_with_fresh_ticket(&f, false));
    assert!(!retries_with_fresh_ticket(&f, true));
    let g = http_failure(502, None, "https://k/x", None);
    assert_eq!((g.code.as_str(), g.message.as_str()), ("unknown", "HTTP 502 from https://k/x"));
    assert!(!retries_with_fresh_ticket(&g, false));
}

#[test]
fn chapter_from_response_distinguishes_gated_empty_and_readable_chapters() {
    let gated = ChapterContentResponse { title: "Chương 9".to_string(), content: "x".to_string(), can_read: false };
    assert_eq!(
        chapter_from_response("https://k/c/9", "T".to_string(), gated).unwrap_err(),
        SourceError::Unentitled("Chương 9 is not available to this client".to_string())
    );
    let empty = ChapterContentResponse { title: "Chương 9".to_string(), content: "<p> </p>\n".to_string(), can_read: true };
    assert_eq!(
        chapter_from_response("https://k/c/9", "T".to_string(), empty).unwrap_err(),
        SourceError::Other("No chapter content extracted from https://k/c/9".to_string())
    );
    let ok = ChapterContentResponse { title: "Chương 9".to_string(), content: "Một.\nHai.".to_string(), can_read: true };
    let content = chapter_from_response("https://k/c/9", "T".to_string(), ok).unwrap();
    assert_eq!((content.novel_title.as_str(), content.chapter_title.as_str()), ("T", "Chương 9"));
    assert_eq!(content.paragraphs, vec!["Một.", "Hai."]);
}
