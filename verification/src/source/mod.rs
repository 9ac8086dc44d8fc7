//! The source seam: what the pipeline knows about a novel site.
//!
//! [`SiteAdapter`] is the trait every site implements. The pipeline addresses
//! chapters through opaque [`ChapterRef`] locators and never builds a URL
//! itself, so adding a site touches only its own module and the [`registry`].

use vstd::prelude::*;

pub mod khodocsach;
pub mod metruyenhot;
pub mod registry;
pub mod xtruyen;

verus! {

/// One chapter in a novel's index.
///
/// `locator` is whatever the owning source needs to fetch the chapter: a
/// full URL for metruyenhot, an opaque id elsewhere.
#[derive(Clone, Debug, PartialEq, Eq)]
pub struct ChapterRef {
    /// One-based position in the index; drives the output file name and
    /// every progress event.
    pub number: u32,
    /// Chapter title when the index already carries it.
    pub title: Option<String>,
    /// Source-owned address used to fetch this chapter.
    pub locator: String,
}

impl View for ChapterRef {
    type V = (u32, Option<Seq<char>>, Seq<char>);

    open spec fn view(&self) -> (u32, Option<Seq<char>>, Seq<char>) {
        (self.number, self.title.deep_view(), self.locator@)
    }
}

impl ChapterRef {
    /// A copy of this chapter reference.
    pub fn duplicate(&self) -> (r: ChapterRef)
        ensures
            r@ == self@,
    {
        let title = match &self.title {
            Some(t) => Some(crate::text::owned(t.as_str())),
            None => None,
        };
        ChapterRef { number: self.number, title, locator: crate::text::owned(self.locator.as_str()) }
    }
}

/// The views of a list of chapter references.
pub open spec fn ref_views(v: Seq<ChapterRef>) -> Seq<(u32, Option<Seq<char>>, Seq<char>)> {
    v.map_values(|c: ChapterRef| c@)
}

/// A novel's metadata plus its complete chapter index.
#[derive(Clone, Debug, Default, PartialEq, Eq)]
pub struct Novel {
    /// Display title, already cleaned of any site-specific suffix.
    pub title: String,
    /// Author name when the source publishes one.
    pub author: Option<String>,
    /// Short synopsis when the source publishes one.
    pub description: Option<String>,
    /// Publication status (e.g. "Đang ra", "Hoàn thành").
    pub status: Option<String>,
    /// Absolute cover image URL when the source publishes one.
    pub cover_url: Option<String>,
    /// Every chapter, in reading order, numbered from 1.
    pub chapters: Vec<ChapterRef>,
}

/// The plain-value form of a [`Novel`]: title, author, description, status,
/// cover address and chapter index.
pub type NovelView = (Seq<char>, Option<Seq<char>>, Option<Seq<char>>, Option<Seq<char>>, Option<Seq<char>>, Seq<(u32, Option<Seq<char>>, Seq<char>)>);

impl View for Novel {
    type V = NovelView;

    open spec fn view(&self) -> NovelView {
        (
            self.title@,
            self.author.deep_view(),
            self.description.deep_view(),
            self.status.deep_view(),
            self.cover_url.deep_view(),
            ref_views(self.chapters@),
        )
    }
}

/// A fetched chapter's text, before it is written to disk.
#[derive(Clone, Debug, PartialEq, Eq)]
pub struct ChapterContent {
    /// Title of the parent novel.
    pub novel_title: String,
    /// Title of this chapter.
    pub chapter_title: String,
    /// Ordered, deduplicated paragraphs of the chapter body.
    pub paragraphs: Vec<String>,
}

impl View for ChapterContent {
    type V = (Seq<char>, Seq<char>, Seq<Seq<char>>);

    open spec fn view(&self) -> (Seq<char>, Seq<char>, Seq<Seq<char>>) {
        (self.novel_title@, self.chapter_title@, self.paragraphs@.map_values(|p: String| p@))
    }
}

/// The views of a chapter's content, or its error message.
pub open spec fn content_result(r: Result<ChapterContent, String>) -> Result<(Seq<char>, Seq<char>, Seq<Seq<char>>), Seq<char>> {
    match r {
        Ok(c) => Ok(c@),
        Err(e) => Err(e@),
    }
}

/// How hard the pipeline may push a source. Durations are in milliseconds.
#[derive(Clone, Copy, Debug, PartialEq, Eq, Structural)]
pub struct RatePolicy {
    /// Upper bound on concurrent chapter fetches; the runner clamps the
    /// user's worker count to this.
    pub max_concurrency: usize,
    /// Minimum spacing between requests, in milliseconds.
    pub min_delay_ms: u64,
    /// How many times a rate-limited chapter is retried before it fails.
    pub max_retries: u32,
    /// First backoff step in milliseconds; later steps grow from it.
    pub backoff_base_ms: u64,
}

impl RatePolicy {
    /// Whether the source dictates the pacing itself: it caps concurrency or
    /// demands a spacing between requests, so asking the user is pointless.
    pub open spec fn spec_fixes_pacing(self) -> bool {
        self.max_concurrency != usize::MAX || self.min_delay_ms > 0
    }

    /// Whether the source dictates the pacing itself.
    pub fn fixes_pacing(&self) -> (r: bool)
        ensures
            r == self.spec_fixes_pacing(),
    {
        self.max_concurrency != usize::MAX || self.min_delay_ms > 0
    }

    /// The worker count a run actually uses: at least one, at most what the
    /// source allows.
    pub open spec fn spec_effective_workers(self, requested: usize) -> usize {
        let r = if requested == 0 { 1usize } else { requested };
        let cap = if self.max_concurrency == 0 { 1usize } else { self.max_concurrency };
        if r < cap { r } else { cap }
    }

    /// `requested.max(1).min(max_concurrency.max(1))`.
    pub fn effective_workers(&self, requested: usize) -> (w: usize)
        ensures
            w == self.spec_effective_workers(requested),
            1 <= w <= requested || (requested == 0 && w == 1),
            w <= self.max_concurrency || self.max_concurrency == 0,
    {
        let r = if requested == 0 { 1 } else { requested };
        let cap = if self.max_concurrency == 0 { 1 } else { self.max_concurrency };
        if r < cap { r } else { cap }
    }

    /// The spacing a run actually uses: never below the source's minimum.
    pub fn effective_delay_ms(&self, requested_ms: u64) -> (d: u64)
        ensures
            d == if requested_ms < self.min_delay_ms { self.min_delay_ms } else { requested_ms },
    {
        if requested_ms < self.min_delay_ms { self.min_delay_ms } else { requested_ms }
    }
}

/// Failures a source reports in a form the pipeline can act on.
#[derive(Debug, Clone, PartialEq, Eq)]
pub enum SourceError {
    /// The site refused the request rate.
    RateLimited {
        /// Adapter that hit the limit.
        source_name: &'static str,
        /// Server-supplied detail, when there is any.
        message: String,
    },
    /// The novel or chapter does not exist at the given address.
    NotFound(String),
    /// The site rejected the client itself, not the request rate.
    ClientRejected(String),
    /// The chapter exists but this client is not entitled to read it.
    Unentitled(String),
    /// Anything else, as its message.
    Other(String),
}

impl SourceError {
    /// The user-facing text of this error.
    pub open spec fn spec_message(&self) -> Seq<char> {
        match self {
            SourceError::RateLimited { source_name, message } =>
                "rate limited by "@ + source_name@ + ": "@ + message@,
            SourceError::NotFound(m) => "not found: "@ + m@,
            SourceError::ClientRejected(m) => "request rejected by the site: "@ + m@,
            SourceError::Unentitled(m) => "chapter not available to this client: "@ + m@,
            SourceError::Other(m) => m@,
        }
    }

    /// The user-facing text of this error (its `Display` form).
    pub fn message(&self) -> (s: String)
        ensures
            s@ == self.spec_message(),
    {
        let mut s = String::new();
        match self {
            SourceError::RateLimited { source_name, message } => {
                s.append("rate limited by ");
                s.append(source_name);
                s.append(": ");
                s.append(message.as_str());
            },
            SourceError::NotFound(m) => {
                s.append("not found: ");
                s.append(m.as_str());
            },
            SourceError::ClientRejected(m) => {
                s.append("request rejected by the site: ");
                s.append(m.as_str());
            },
            SourceError::Unentitled(m) => {
                s.append("chapter not available to this client: ");
                s.append(m.as_str());
            },
            SourceError::Other(m) => {
                s.append(m.as_str());
            },
        }
        s
    }
}

/// One novel site: its identity and the pacing it tolerates. Fetching is
/// done around the library, which parses what comes back.
pub trait SiteAdapter {
    /// Stable machine id, used in logs and errors.
    fn id(&self) -> &'static str;

    /// Human-readable name shown on the wizard summary screen.
    fn display_name(&self) -> &'static str;

    /// Hosts this adapter claims, lower-case and without `www.`.
    fn hosts(&self) -> Vec<&'static str>;

    /// Request pacing this source tolerates.
    fn rate_policy(&self) -> RatePolicy;
}

} // verus!
