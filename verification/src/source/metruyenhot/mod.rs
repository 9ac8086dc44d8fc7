//! The metruyenhot adapter: `metruyenhotne.com` and `metruyenhotvn.com`,
//! which serve the same backend template. Chapters live at
//! `<novel>/chuong-<N>/` and the site publishes no chapter index, so the
//! index is synthesized from the highest chapter number found.

use vstd::prelude::*;
use crate::source::{content_result, ref_views, ChapterContent, ChapterRef, Novel, NovelView, RatePolicy, SiteAdapter};
use crate::text::{chars_of, concat, decimal, push_decimal, string_of};
use crate::utils::{trim_chars, trim_end_char};

pub mod metadata;
pub mod parser;

pub use metadata::{
    extract_author_from_main_page, extract_cover_image_url, extract_novel_description_from_main_page,
    extract_novel_status_from_main_page, extract_novel_title_from_main_page,
};
pub use parser::extract_full_chapter_text;
use metadata::{author_of, cover_of, description_of, main_title_of, status_of};
use parser::chapter_of;

verus! {

/// The metruyenhot adapter. Stateless.
pub struct Metruyenhot;

impl SiteAdapter for Metruyenhot {
    fn id(&self) -> (r: &'static str)
        ensures
            r@ == "metruyenhot"@,
    {
        "metruyenhot"
    }

    fn display_name(&self) -> (r: &'static str)
        ensures
            r@ == "metruyenhot"@,
    {
        "metruyenhot"
    }

    fn hosts(&self) -> (r: Vec<&'static str>)
        ensures
            r@.map_values(|h: &str| h@) == seq!["metruyenhotne.com"@, "metruyenhotvn.com"@],
    {
        let mut v: Vec<&'static str> = Vec::new();
        v.push("metruyenhotne.com");
        v.push("metruyenhotvn.com");
        proof {
            assert(v@.map_values(|h: &str| h@) =~= seq!["metruyenhotne.com"@, "metruyenhotvn.com"@]);
        }
        v
    }

    /// The site tolerates any concurrency and needs no spacing or retries.
    fn rate_policy(&self) -> (p: RatePolicy)
        ensures
            p == (RatePolicy { max_concurrency: usize::MAX, min_delay_ms: 0, max_retries: 0, backoff_base_ms: 0 }),
    {
        RatePolicy { max_concurrency: usize::MAX, min_delay_ms: 0, max_retries: 0, backoff_base_ms: 0 }
    }
}

/// A novel URL in its main-page form: without trailing slashes, then with
/// exactly one, which every relative link on the page resolves against.
pub open spec fn main_page_of(url: Seq<char>) -> Seq<char> {
    trim_end_char(url, '/').push('/')
}

/// A novel URL in its main-page form, as [`main_page_of`] describes.
pub fn main_page_url(url: &str) -> (r: String)
    ensures
        r@ == main_page_of(url@),
{
    let v = chars_of(url);
    let mut t = trim_chars(&v, false, '/', false, true);
    t.push('/');
    string_of(t.as_slice())
}

/// The address of chapter `number` under a main-page URL:
/// `<main>chuong-<number>/`.
pub open spec fn chapter_address(main_url: Seq<char>, number: u32) -> Seq<char> {
    main_url + "chuong-"@ + decimal(number as nat) + "/"@
}

/// The address of chapter `number`, as [`chapter_address`] describes.
pub fn chapter_url(main_url: &str, number: u32) -> (r: String)
    ensures
        r@ == chapter_address(main_url@, number),
{
    let mut v = chars_of(main_url);
    let mid = chars_of("chuong-");
    let mut i: usize = 0;
    let ghost base = v@;
    while i < mid.len()
        invariant
            i <= mid.len(),
            v@ == base + mid@.take(i as int),
        decreases mid.len() - i,
    {
        v.push(mid[i]);
        i = i + 1;
        proof {
            assert(v@ =~= base + mid@.take(i as int));
        }
    }
    proof {
        assert(mid@.take(mid.len() as int) =~= mid@);
    }
    push_decimal(number as u64, &mut v);
    v.push('/');
    proof {
        reveal_strlit("/");
        assert(v@ =~= main_url@ + "chuong-"@ + decimal(number as nat) + "/"@);
    }
    string_of(v.as_slice())
}

/// The novel a main page describes, with an empty chapter index.
pub open spec fn metadata_of(main_url: Seq<char>, html: Seq<char>) -> NovelView {
    (main_title_of(html), author_of(html), description_of(html), status_of(html), cover_of(main_url, html), Seq::empty())
}

/// Run the five main-page extractors over a fetched main page, leaving the
/// chapter index empty.
pub fn metadata_from_main_page(main_url: &str, html: &str) -> (n: Novel)
    ensures
        n@ == metadata_of(main_url@, html@),
{
    let n = Novel {
        title: extract_novel_title_from_main_page(html),
        author: extract_author_from_main_page(html),
        description: extract_novel_description_from_main_page(html),
        status: extract_novel_status_from_main_page(html),
        cover_url: extract_cover_image_url(main_url, html),
        chapters: Vec::new(),
    };
    proof {
        assert(ref_views(n.chapters@) =~= Seq::empty());
    }
    n
}

/// The index the site implies for a novel whose last chapter is `last`:
/// chapters `1..=last`, untitled, at their [`chapter_address`].
pub open spec fn synthesized_index(main_url: Seq<char>, last: u32) -> Seq<(u32, Option<Seq<char>>, Seq<char>)> {
    Seq::new(last as nat, |i: int| ((i + 1) as u32, None::<Seq<char>>, chapter_address(main_url, (i + 1) as u32)))
}

/// The chapter index `1..=last` under a main-page URL.
pub fn chapter_index(main_url: &str, last: u32) -> (r: Vec<ChapterRef>)
    ensures
        ref_views(r@) == synthesized_index(main_url@, last),
{
    let mut out: Vec<ChapterRef> = Vec::new();
    let mut n: u32 = 0;
    while n < last
        invariant
            n <= last,
            ref_views(out@) == synthesized_index(main_url@, n),
        decreases last - n,
    {
        let number = n + 1;
        let locator = chapter_url(main_url, number);
        let c = ChapterRef { number, title: None, locator };
        proof {
            assert(ref_views(out@.push(c)) =~= ref_views(out@).push(c@));
            assert(c@ == (number, None::<Seq<char>>, chapter_address(main_url@, number)));
            assert(synthesized_index(main_url@, number) =~= synthesized_index(main_url@, n).push(c@));
        }
        out.push(c);
        n = number;
    }
    out
}

/// The novel behind a fetched main page whose chapter list ends at chapter
/// `last`: its metadata and the synthesized index.
pub open spec fn novel_of(main_url: Seq<char>, html: Seq<char>, last: u32) -> NovelView {
    let m = metadata_of(main_url, html);
    (m.0, m.1, m.2, m.3, m.4, synthesized_index(main_url, last))
}

/// The novel behind a fetched main page, as [`novel_of`] describes.
pub fn novel_from_main_page(main_url: &str, html: &str, last: u32) -> (n: Novel)
    ensures
        n@ == novel_of(main_url@, html@, last),
{
    let mut n = metadata_from_main_page(main_url, html);
    n.chapters = chapter_index(main_url, last);
    n
}

/// A fetched chapter page's content, or why it has none: the page's own
/// error, or an empty body, which fails here rather than reaching disk as an
/// empty chapter file.
pub open spec fn chapter_page_content(url: Seq<char>, html: Seq<char>) -> Result<(Seq<char>, Seq<char>, Seq<Seq<char>>), Seq<char>> {
    match chapter_of(html) {
        Err(e) => Err(e),
        Ok(c) => if c.2.len() == 0 { Err("No chapter content extracted from "@ + url) } else { Ok(c) },
    }
}

/// The content of the chapter page fetched from `url`, as
/// [`chapter_page_content`] describes.
pub fn chapter_from_page(url: &str, html: &str) -> (r: Result<ChapterContent, String>)
    ensures
        content_result(r) == chapter_page_content(url@, html@),
{
    let content = match extract_full_chapter_text(html) {
        Ok(c) => c,
        Err(e) => return Err(e),
    };
    if content.paragraphs.len() == 0 {
        return Err(concat("No chapter content extracted from ", url));
    }
    Ok(content)
}

} // verus!
