//! The xtruyen adapter: `xtruyen.vn`. The chapter index comes from the
//! chapter-group endpoint the site's own reader uses, and chapter prose from
//! an encoded payload inside each chapter page.

use vstd::prelude::*;
use crate::source::{content_result, ref_views, ChapterContent, ChapterRef, Novel, RatePolicy, SiteAdapter, SourceError};
use crate::text::{concat, decimal, is_empty_str, owned, u64_to_string};
use crate::utils::{clean, clean_text, views};
use discovery::{chapter_label_of, parse_chapter_title};
use metadata::{first_attr, first_attribute, NovelPage};
use payload::{chapter_paragraphs, page_paragraphs, paragraphs_result};

pub mod api;
pub mod discovery;
pub mod metadata;
pub mod parser;
pub mod payload;

verus! {

/// The xtruyen adapter. Stateless.
pub struct Xtruyen;

impl SiteAdapter for Xtruyen {
    fn id(&self) -> (r: &'static str)
        ensures
            r@ == "xtruyen"@,
    {
        "xtruyen"
    }

    fn display_name(&self) -> (r: &'static str)
        ensures
            r@ == "xtruyen"@,
    {
        "xtruyen"
    }

    fn hosts(&self) -> (r: Vec<&'static str>)
        ensures
            r@.map_values(|h: &str| h@) == seq!["xtruyen.vn"@],
    {
        let mut v: Vec<&'static str> = Vec::new();
        v.push("xtruyen.vn");
        proof {
            assert(v@.map_values(|h: &str| h@) =~= seq!["xtruyen.vn"@]);
        }
        v
    }

    /// The site throttles per client: two fetches at a time, half a second
    /// apart, with three retries from a two-second backoff.
    fn rate_policy(&self) -> (p: RatePolicy)
        ensures
            p == (RatePolicy { max_concurrency: 2, min_delay_ms: 500, max_retries: 3, backoff_base_ms: 2000 }),
    {
        RatePolicy { max_concurrency: 2, min_delay_ms: 500, max_retries: 3, backoff_base_ms: 2000 }
    }
}

/// The novel title a chapter page carries: the title attribute of the
/// chapter heading's link, cleaned. The visible heading is upper-cased in the
/// markup, so the attribute is the only place the chapter page carries the
/// title in its published casing.
pub open spec fn novel_title_on_chapter_of(html: Seq<char>) -> Option<Seq<char>> {
    match first_attr(html, "#chapter-heading a[title]"@, "title"@) {
        Some(t) => if clean(t).len() > 0 { Some(clean(t)) } else { None },
        None => None,
    }
}

/// The novel title a chapter page carries, as
/// [`novel_title_on_chapter_of`] describes.
pub fn novel_title_on_chapter(page_html: &str) -> (r: Option<String>)
    ensures
        r.deep_view() == novel_title_on_chapter_of(page_html@),
{
    match first_attribute(page_html, "#chapter-heading a[title]", "title") {
        Some(t) => {
            let c = clean_text(t.as_str());
            if is_empty_str(c.as_str()) { None } else { Some(c) }
        },
        None => None,
    }
}

/// The content of a chapter from what its page yielded: the recovered
/// paragraphs (or why there are none), the novel title the page carries
/// (empty when none), and the page's own chapter label. The chapter title is
/// the index's, else the page's label, else `Chương <number>`. A page whose
/// payload decodes to no text fails.
pub open spec fn content_of_parts(
    chapter: (u32, Option<Seq<char>>, Seq<char>),
    paragraphs: Result<Seq<Seq<char>>, Seq<char>>,
    novel_title: Option<Seq<char>>,
    label: Option<Seq<char>>,
) -> Result<(Seq<char>, Seq<char>, Seq<Seq<char>>), Seq<char>> {
    match paragraphs {
        Err(e) => Err(e),
        Ok(ps) => if ps.len() == 0 {
            Err("chapter "@ + decimal(chapter.0 as nat) + " at "@ + chapter.2 + " decoded to no text"@)
        } else {
            let title = match chapter.1 {
                Some(t) => t,
                None => match label {
                    Some(t) => t,
                    None => "Chương "@ + decimal(chapter.0 as nat),
                },
            };
            Ok((match novel_title { Some(t) => t, None => Seq::empty() }, title, ps))
        },
    }
}

/// The content of a fetched chapter page, as [`content_of_parts`]
/// describes for what the page yields.
pub open spec fn chapter_content_of(chapter: (u32, Option<Seq<char>>, Seq<char>), html: Seq<char>) -> Result<(Seq<char>, Seq<char>, Seq<Seq<char>>), Seq<char>> {
    content_of_parts(chapter, page_paragraphs(html), novel_title_on_chapter_of(html), chapter_label_of(html))
}

/// The content of a chapter from what its page yielded, as
/// [`content_of_parts`] describes. `label` is consulted only when the index
/// gave the chapter no title.
pub fn content_from_parts(chapter: &ChapterRef, paragraphs: Result<Vec<String>, String>, novel_title: Option<String>, label: Option<String>) -> (r: Result<ChapterContent, String>)
    ensures
        content_result(r) == content_of_parts(chapter@, paragraphs_result(paragraphs), novel_title.deep_view(), label.deep_view()),
{
    let paragraphs = match paragraphs {
        Ok(ps) => ps,
        Err(e) => return Err(e),
    };
    let number = u64_to_string(chapter.number as u64);
    if paragraphs.len() == 0 {
        let mut m = concat("chapter ", number.as_str());
        m.append(" at ");
        m.append(chapter.locator.as_str());
        m.append(" decoded to no text");
        return Err(m);
    }
    let novel_title = match novel_title {
        Some(t) => t,
        None => String::new(),
    };
    let chapter_title = match &chapter.title {
        Some(t) => owned(t.as_str()),
        None => match label {
            Some(t) => t,
            None => concat("Chương ", number.as_str()),
        },
    };
    proof {
        assert(paragraphs@.map_values(|p: String| p@) == views(paragraphs@));
    }
    Ok(ChapterContent { novel_title, chapter_title, paragraphs })
}

/// The content of the fetched page of `chapter`, as [`chapter_content_of`]
/// describes.
pub fn chapter_content(chapter: &ChapterRef, html: &str) -> (r: Result<ChapterContent, String>)
    ensures
        content_result(r) == chapter_content_of(chapter@, html@),
{
    let paragraphs = chapter_paragraphs(html);
    let label = match &chapter.title {
        Some(_) => None,
        None => parse_chapter_title(html),
    };
    content_from_parts(chapter, paragraphs, novel_title_on_chapter(html), label)
}

/// Whether `e` is the error an unsuccessful HTTP `status` of a fetch of
/// `url` maps to: the statuses observed against the live host in the
/// pipeline's vocabulary, anything else left opaque.
pub open spec fn status_error(status: u16, url: Seq<char>, e: SourceError) -> bool {
    if status == 429 {
        e matches SourceError::RateLimited { source_name, message } && source_name@ == "xtruyen"@
            && message@ == "HTTP 429 from "@ + url
    } else if status == 403 {
        e matches SourceError::ClientRejected(m) && m@ == "HTTP 403 from "@ + url
    } else if status == 404 {
        e matches SourceError::NotFound(m) && m@ == url
    } else {
        e matches SourceError::Other(m) && m@ == "HTTP "@ + decimal(status as nat) + " from "@ + url
    }
}

/// The error an unsuccessful HTTP status of a page fetch maps to, as
/// [`status_error`] describes.
pub fn failed_status(status: u16, url: &str) -> (e: SourceError)
    ensures
        status_error(status, url@, e),
{
    if status == 429 {
        SourceError::RateLimited { source_name: "xtruyen", message: concat("HTTP 429 from ", url) }
    } else if status == 403 {
        SourceError::ClientRejected(concat("HTTP 403 from ", url))
    } else if status == 404 {
        SourceError::NotFound(owned(url))
    } else {
        let mut m = concat("HTTP ", u64_to_string(status as u64).as_str());
        m.append(" from ");
        m.append(url);
        SourceError::Other(m)
    }
}

/// The address of the first chapter a novel page links to, which the index
/// walk starts from.
pub fn first_chapter_of(page: &NovelPage) -> (r: Result<String, String>)
    ensures
        match page.first_chapter_href {
            Some(h) => r is Ok && r->Ok_0@ == h@,
            None => r is Err && r->Err_0@ == "novel page links to no first chapter"@,
        },
{
    match &page.first_chapter_href {
        Some(h) => Ok(owned(h.as_str())),
        None => Err(owned("novel page links to no first chapter")),
    }
}

/// The novel a parsed novel page describes, with the given chapter index.
pub fn novel_from_page(page: NovelPage, chapters: Vec<ChapterRef>) -> (n: Novel)
    ensures
        n@ == (page@.0, page@.1, page@.2, page@.3, page@.4, ref_views(chapters@)),
{
    Novel {
        title: page.title,
        author: page.author,
        description: page.description,
        status: page.status,
        cover_url: page.cover_url,
        chapters,
    }
}

} // verus!
