//! The khodocsach adapter: `khodocsach.com`, a JSON API rather than scraped
//! pages. Chapter ids are opaque database ids, so the chapter index is paged
//! from the site; content sits behind a short-lived per-chapter ticket.

use vstd::prelude::*;
use crate::html::{attr_value, pair_value};
use crate::source::{ref_views, ChapterContent, ChapterRef, Novel, NovelView, RatePolicy, SiteAdapter, SourceError};
use crate::text::{concat, decimal, i64_to_string, is_empty_str, owned, signed_decimal, str_result, u64_to_string};
use crate::urls::{append_query_pairs, split_query, url_query, with_query_pairs};
use api::{ApiError, Book, ChapterContentResponse, ChapterListItem, Term, Ticket};
use parser::{paragraphs_of, split_paragraphs, strip_html_to_text, stripped};

pub mod api;
pub mod listing;
pub mod parser;

verus! {

/// Machine id used in logs, errors and the rate-limit message.
pub const ID: &'static str = "khodocsach";

/// The khodocsach adapter. Stateless.
pub struct Khodocsach;

impl SiteAdapter for Khodocsach {
    fn id(&self) -> (r: &'static str)
        ensures
            r@ == ID@,
    {
        ID
    }

    fn display_name(&self) -> (r: &'static str)
        ensures
            r@ == "khodocsach"@,
    {
        "khodocsach"
    }

    fn hosts(&self) -> (r: Vec<&'static str>)
        ensures
            r@.map_values(|h: &str| h@) == seq!["khodocsach.com"@],
    {
        let mut v: Vec<&'static str> = Vec::new();
        v.push("khodocsach.com");
        proof {
            assert(v@.map_values(|h: &str| h@) =~= seq!["khodocsach.com"@]);
        }
        v
    }

    /// The limiter buckets requests by the exact `User-Agent`, which the
    /// fetcher rotates per chapter, so concurrency is uncapped, no spacing is
    /// imposed, and a stray refusal is retried twice after a short wait.
    fn rate_policy(&self) -> (p: RatePolicy)
        ensures
            p == khodocsach_policy(),
    {
        RatePolicy { max_concurrency: usize::MAX, min_delay_ms: 0, max_retries: 2, backoff_base_ms: 2000 }
    }
}

/// The pacing khodocsach tolerates.
pub open spec fn khodocsach_policy() -> RatePolicy {
    RatePolicy { max_concurrency: usize::MAX, min_delay_ms: 0, max_retries: 2, backoff_base_ms: 2000 }
}

/// A failed API hop: the HTTP status plus the error envelope when the body
/// carried one. `status` is 0 for a failure below the HTTP layer.
#[derive(Debug)]
pub struct ApiFailure {
    /// HTTP status, or 0 when there was none.
    pub status: u16,
    /// The envelope's machine-readable code.
    pub code: String,
    /// The human-readable detail.
    pub message: String,
    /// Wait the server asked for, in milliseconds, when it sent one.
    pub retry_after_ms: Option<u64>,
}

impl ApiFailure {
    /// The failure used for anything below the HTTP layer.
    pub fn transport(message: String) -> (f: Self)
        ensures
            f.status == 0,
            f.code@ == "transport"@,
            f.message@ == message@,
            f.retry_after_ms is None,
    {
        ApiFailure { status: 0, code: owned("transport"), message, retry_after_ms: None }
    }

    /// The failure used when a response arrives intact but in an unexpected
    /// shape, kept apart from [`ApiFailure::transport`] so schema drift is not
    /// reported as a network problem.
    pub fn malformed(message: String) -> (f: Self)
        ensures
            f.status == 0,
            f.code@ == "malformed response"@,
            f.message@ == message@,
            f.retry_after_ms is None,
    {
        ApiFailure { status: 0, code: owned("malformed response"), message, retry_after_ms: None }
    }

    /// True when the server rejected the ticket rather than the request: the
    /// caller then fetches a fresh ticket and retries once.
    pub fn is_ticket_invalid(&self) -> (r: bool)
        ensures
            r == (self.status == 401 || self.code@ == "ticket_invalid"@),
    {
        self.status == 401 || crate::text::str_eq(self.code.as_str(), "ticket_invalid")
    }

    /// The pipeline's error for this failure.
    /// Only statuses observed against the live host are mapped; anything
    /// else stays opaque.
    pub fn into_source_error(self) -> (e: SourceError)
        ensures
            failure_error(self, e),
    {
        if self.status == 429 {
            SourceError::RateLimited { source_name: ID, message: self.message }
        } else if self.status == 403 {
            SourceError::ClientRejected(self.message)
        } else if self.status == 404 {
            SourceError::NotFound(self.message)
        } else if self.status == 0 {
            let mut m = concat("khodocsach ", self.code.as_str());
            m.append(": ");
            m.append(self.message.as_str());
            SourceError::Other(m)
        } else {
            let mut m = owned("khodocsach API error (HTTP ");
            let n = u64_to_string(self.status as u64);
            m.append(n.as_str());
            m.append(", ");
            m.append(self.code.as_str());
            m.append("): ");
            m.append(self.message.as_str());
            SourceError::Other(m)
        }
    }
}

/// Whether `e` is the pipeline error the failure `f` maps to.
pub open spec fn failure_error(f: ApiFailure, e: SourceError) -> bool {
    if f.status == 429 {
        e matches SourceError::RateLimited { source_name, message } && source_name@ == ID@
            && message@ == f.message@
    } else if f.status == 403 {
        e matches SourceError::ClientRejected(m) && m@ == f.message@
    } else if f.status == 404 {
        e matches SourceError::NotFound(m) && m@ == f.message@
    } else if f.status == 0 {
        e matches SourceError::Other(m) && m@ == "khodocsach "@ + f.code@ + ": "@ + f.message@
    } else {
        e matches SourceError::Other(m) && m@ == "khodocsach API error (HTTP "@
            + decimal(f.status as nat) + ", "@ + f.code@ + "): "@ + f.message@
    }
}

/// Page size asked of the chapter listing. The host caps it at 200, so
/// asking for more only wastes the round trip; the page count the server
/// reports back is what the walk trusts.
pub const LISTING_PER_PAGE: u32 = 200;

/// Query parameter carrying the novel title along with a chapter locator.
/// The content endpoint does not return the book title, but the output
/// directory is named after it, so it rides on the locator, which belongs to
/// this adapter alone.
pub const BOOK_TITLE_PARAM: &'static str = "book";

/// The address of the book endpoint for a book slug.
pub fn book_url(base: &str, slug: &str) -> (r: String)
    ensures
        r@ == base@ + "/books/"@ + slug@,
{
    let mut s = concat(base, "/books/");
    s.append(slug);
    s
}

/// A book's cleaned synopsis: the description with its markup stripped,
/// absent when that leaves nothing.
pub open spec fn synopsis(desc: Option<Seq<char>>) -> Option<Seq<char>> {
    match desc {
        Some(d) => if stripped(d).len() > 0 { Some(stripped(d)) } else { None },
        None => None,
    }
}

/// The name of an optional taxonomy term.
pub open spec fn term_name(t: Option<Term>) -> Option<Seq<char>> {
    match t {
        Some(t) => Some(t.name@),
        None => None,
    }
}

/// The novel a book payload describes, with an empty chapter index.
pub open spec fn book_novel(b: Book) -> NovelView {
    (
        b.title@,
        term_name(b.author),
        synopsis(b.desc.deep_view()),
        term_name(b.status),
        match b.cover {
            Some(c) => if c@.len() > 0 { Some(c@) } else { None },
            None => None,
        },
        Seq::empty(),
    )
}

/// The name of an optional term, as [`term_name`] describes.
fn name_of(t: &Option<Term>) -> (r: Option<String>)
    ensures
        r.deep_view() == term_name(*t),
{
    match t {
        Some(t) => Some(owned(t.name.as_str())),
        None => None,
    }
}

/// Map a book payload onto a novel, leaving the chapter index empty. The
/// description arrives as HTML and is the one field needing a strip.
pub fn novel_from_book(book: &Book) -> (n: Novel)
    ensures
        n@ == book_novel(*book),
{
    let description = match &book.desc {
        Some(d) => {
            let t = strip_html_to_text(d.as_str());
            if is_empty_str(t.as_str()) { None } else { Some(t) }
        },
        None => None,
    };
    let cover_url = match &book.cover {
        Some(c) => if is_empty_str(c.as_str()) { None } else { Some(owned(c.as_str())) },
        None => None,
    };
    let n = Novel {
        title: owned(book.title.as_str()),
        author: name_of(&book.author),
        description,
        status: name_of(&book.status),
        cover_url,
        chapters: Vec::new(),
    };
    proof {
        assert(ref_views(n.chapters@) =~= Seq::empty());
    }
    n
}

/// The address of one page of a book's chapter listing.
pub open spec fn listing_address(base: Seq<char>, book_id: u64, page: u32) -> Seq<char> {
    base + "/books/"@ + decimal(book_id as nat) + "/chapters?page="@ + decimal(page as nat) + "&per_page=200"@
}

/// The address of one page of a book's chapter listing, as
/// [`listing_address`] describes.
pub fn listing_url(base: &str, book_id: u64, page: u32) -> (r: String)
    ensures
        r@ == listing_address(base@, book_id, page),
{
    let mut s = concat(base, "/books/");
    s.append(u64_to_string(book_id).as_str());
    s.append("/chapters?page=");
    s.append(u64_to_string(page as u64).as_str());
    s.append("&per_page=200");
    s
}

/// Whether the listing walk asks for the page after `page`: it stops on the
/// page count the server reports, not on one this adapter assumed.
pub fn listing_continues(page: u32, total_pages: u32) -> (r: bool)
    ensures
        r == (page < total_pages),
{
    page < total_pages
}

/// The locator of one chapter: its API address with the novel title riding
/// along as the [`BOOK_TITLE_PARAM`] query parameter, or why the address
/// does not parse.
pub open spec fn locator_of(base: Seq<char>, chapter_id: u64, novel_title: Seq<char>) -> Result<Seq<char>, Seq<char>> {
    with_query_pairs(base + "/chapters/"@ + decimal(chapter_id as nat), seq![(BOOK_TITLE_PARAM@, novel_title)])
}

/// The locator of one chapter, as [`locator_of`] describes.
pub fn chapter_locator(base: &str, chapter_id: u64, novel_title: &str) -> (r: Result<String, String>)
    ensures
        str_result(r) == locator_of(base@, chapter_id, novel_title@),
{
    let mut address = concat(base, "/chapters/");
    address.append(u64_to_string(chapter_id).as_str());
    let pairs: Vec<(String, String)> = vec![(owned(BOOK_TITLE_PARAM), owned(novel_title))];
    proof {
        assert(pairs.deep_view() =~= seq![(BOOK_TITLE_PARAM@, novel_title@)]);
    }
    append_query_pairs(address.as_str(), &pairs)
}

/// The chapter index a listing in reading order yields: each entry keeps
/// its number and title and gets its locator; a locator that cannot be built
/// fails the whole index.
pub open spec fn index_of(base: Seq<char>, items: Seq<ChapterListItem>, novel_title: Seq<char>) -> Result<Seq<(u32, Option<Seq<char>>, Seq<char>)>, Seq<char>>
    decreases items.len(),
{
    if items.len() == 0 {
        Ok(Seq::empty())
    } else {
        let last = items.last();
        match index_of(base, items.drop_last(), novel_title) {
            Err(e) => Err(e),
            Ok(done) => match locator_of(base, last.id, novel_title) {
                Err(e) => Err(e),
                Ok(loc) => Ok(done.push((last.index, Some(last.title@), loc))),
            },
        }
    }
}

/// A listing's chapter index keeps the site's own numbering: when the index
/// can be built it has one entry per listing item, in listing order, and the
/// `k`-th entry carries the `k`-th item's chapter number (whatever its
/// position, so a gap in the listing stays a gap), its title, and the locator
/// of that item's chapter id.
pub proof fn lemma_index_keeps_site_numbers(base: Seq<char>, items: Seq<ChapterListItem>, novel_title: Seq<char>)
    ensures
        index_of(base, items, novel_title) matches Ok(idx) ==> {
            &&& idx.len() == items.len()
            &&& forall|k: int| 0 <= k < items.len() ==> {
                &&& (#[trigger] idx[k]).0 == items[k].index
                &&& idx[k].1 == Some(items[k].title@)
                &&& locator_of(base, items[k].id, novel_title) == Ok::<Seq<char>, Seq<char>>(idx[k].2)
            }
        },
    decreases items.len(),
{
    if items.len() > 0 {
        let prev = items.drop_last();
        lemma_index_keeps_site_numbers(base, prev, novel_title);
        assert forall|k: int| 0 <= k < prev.len() implies prev[k] == items[k] by {}
    }
}

/// The chapter index a listing yields, as [`index_of`] describes.
pub fn index_from_listing(base: &str, items: &Vec<ChapterListItem>, novel_title: &str) -> (r: Result<Vec<ChapterRef>, String>)
    ensures
        match r {
            Ok(c) => index_of(base@, items@, novel_title@) == Ok::<_, Seq<char>>(ref_views(c@)),
            Err(e) => index_of(base@, items@, novel_title@) == Err::<Seq<(u32, Option<Seq<char>>, Seq<char>)>, _>(e@),
        },
{
    let mut out: Vec<ChapterRef> = Vec::new();
    let mut i: usize = 0;
    proof {
        assert(items@.take(0) =~= Seq::<ChapterListItem>::empty());
        assert(ref_views(out@) =~= Seq::empty());
    }
    while i < items.len()
        invariant
            i <= items.len(),
            index_of(base@, items@.take(i as int), novel_title@) == Ok::<_, Seq<char>>(ref_views(out@)),
        decreases items.len() - i,
    {
        proof {
            assert(items@.take(i + 1).drop_last() =~= items@.take(i as int));
            assert(items@.take(i + 1).last() == items@[i as int]);
        }
        let item = &items[i];
        let locator = match chapter_locator(base, item.id, novel_title) {
            Ok(l) => l,
            Err(e) => {
                proof {
                    assert(index_of(base@, items@.take(i + 1), novel_title@) == Err::<Seq<(u32, Option<Seq<char>>, Seq<char>)>, _>(e@));
                    lemma_index_of_err(base@, items@, novel_title@, i + 1, e@);
                }
                return Err(e);
            },
        };
        let c = ChapterRef { number: item.index, title: Some(owned(item.title.as_str())), locator };
        proof {
            assert(ref_views(out@.push(c)) =~= ref_views(out@).push(c@));
        }
        out.push(c);
        i = i + 1;
    }
    proof {
        assert(items@.take(items.len() as int) =~= items@);
    }
    Ok(out)
}

/// Once a prefix of the listing fails, the whole listing fails the same way.
proof fn lemma_index_of_err(base: Seq<char>, items: Seq<ChapterListItem>, title: Seq<char>, n: int, e: Seq<char>)
    requires
        0 <= n <= items.len(),
        index_of(base, items.take(n), title) == Err::<Seq<(u32, Option<Seq<char>>, Seq<char>)>, Seq<char>>(e),
    ensures
        index_of(base, items, title) == Err::<Seq<(u32, Option<Seq<char>>, Seq<char>)>, Seq<char>>(e),
    decreases items.len() - n,
{
    if n < items.len() {
        assert(items.take(n + 1).drop_last() =~= items.take(n));
        lemma_index_of_err(base, items, title, n + 1, e);
    } else {
        assert(items.take(n) =~= items);
    }
}

/// A locator split back into the bare chapter API address and the novel
/// title (empty when the locator carries none), undoing
/// [`chapter_locator`]; or why the locator does not parse.
pub open spec fn locator_parts(locator: Seq<char>) -> Result<(Seq<char>, Seq<char>), Seq<char>> {
    match url_query(locator) {
        Err(e) => Err(e),
        Ok((bare, pairs)) => Ok((bare, match attr_value(pairs, BOOK_TITLE_PARAM@) {
            Some(t) => t,
            None => Seq::empty(),
        })),
    }
}

/// A locator split into the chapter API address and the novel title, as
/// [`locator_parts`] describes.
pub fn parse_locator(locator: &str) -> (r: Result<(String, String), String>)
    ensures
        match r {
            Ok((a, t)) => locator_parts(locator@) == Ok::<_, Seq<char>>((a@, t@)),
            Err(e) => locator_parts(locator@) == Err::<(Seq<char>, Seq<char>), _>(e@),
        },
{
    match split_query(locator) {
        Err(e) => Err(e),
        Ok((bare, pairs)) => {
            let title = match pair_value(&pairs, BOOK_TITLE_PARAM) {
                Some(t) => t,
                None => String::new(),
            };
            Ok((bare, title))
        },
    }
}

/// The address of the ticket hop for a chapter.
pub fn ticket_url(chapter_url: &str) -> (r: String)
    ensures
        r@ == chapter_url@ + "/ticket"@,
{
    concat(chapter_url, "/ticket")
}

/// The address of the content hop: the chapter address carrying the
/// ticket's nonce, expiry and signature as query parameters.
pub open spec fn content_address(chapter_url: Seq<char>, t: Ticket) -> Result<Seq<char>, Seq<char>> {
    with_query_pairs(chapter_url, seq![("nonce"@, t.nonce@), ("exp"@, signed_decimal(t.exp as int)), ("sig"@, t.sig@)])
}

/// The address of the content hop, as [`content_address`] describes; a
/// chapter address that does not parse is a failure below the HTTP layer.
pub fn content_url(chapter_url: &str, ticket: &Ticket) -> (r: Result<String, ApiFailure>)
    ensures
        match r {
            Ok(u) => content_address(chapter_url@, *ticket) == Ok::<_, Seq<char>>(u@),
            Err(f) => f.status == 0 && f.code@ == "transport"@ && f.retry_after_ms is None
                && exists|e: Seq<char>| content_address(chapter_url@, *ticket) == Err::<Seq<char>, _>(e)
                    && f.message@ == "invalid chapter locator "@ + chapter_url@ + ": "@ + e,
        },
{
    let pairs: Vec<(String, String)> = vec![
        (owned("nonce"), owned(ticket.nonce.as_str())),
        (owned("exp"), i64_to_string(ticket.exp)),
        (owned("sig"), owned(ticket.sig.as_str())),
    ];
    proof {
        assert(pairs.deep_view() =~= seq![("nonce"@, ticket.nonce@), ("exp"@, signed_decimal(ticket.exp as int)), ("sig"@, ticket.sig@)]);
    }
    match append_query_pairs(chapter_url, &pairs) {
        Ok(u) => Ok(u),
        Err(e) => {
            let mut m = concat("invalid chapter locator ", chapter_url);
            m.append(": ");
            m.append(e.as_str());
            Err(ApiFailure::transport(m))
        },
    }
}

/// Whether `f` is the failure a non-2xx answer of status `status` to a
/// request for `url` becomes: the error envelope's code and message when the
/// body carried one, else `unknown` and a message naming the status.
pub open spec fn http_failure_of(status: u16, envelope: Option<ApiError>, url: Seq<char>, retry_after_ms: Option<u64>, f: ApiFailure) -> bool {
    &&& f.status == status
    &&& f.retry_after_ms == retry_after_ms
    &&& match envelope {
        Some(e) => f.code@ == e.code@ && f.message@ == e.message@,
        None => f.code@ == "unknown"@ && f.message@ == "HTTP "@ + decimal(status as nat) + " from "@ + url,
    }
}

/// The failure a non-2xx answer becomes, as [`http_failure_of`] describes.
pub fn http_failure(status: u16, envelope: Option<ApiError>, url: &str, retry_after_ms: Option<u64>) -> (f: ApiFailure)
    ensures
        http_failure_of(status, envelope, url@, retry_after_ms, f),
{
    match envelope {
        Some(e) => ApiFailure { status, code: e.code, message: e.message, retry_after_ms },
        None => {
            let mut m = concat("HTTP ", u64_to_string(status as u64).as_str());
            m.append(" from ");
            m.append(url);
            ApiFailure { status, code: owned("unknown"), message: m, retry_after_ms }
        },
    }
}

/// Whether a failed ticket-then-content round trip is tried again: once,
/// when the server rejected the ticket rather than the request, since the
/// usual cause is a ticket that expired while the chapter waited its turn.
pub fn retries_with_fresh_ticket(failure: &ApiFailure, already_retried: bool) -> (r: bool)
    ensures
        r == (!already_retried && (failure.status == 401 || failure.code@ == "ticket_invalid"@)),
{
    !already_retried && failure.is_ticket_invalid()
}

/// Whether `r` is what a content payload for the chapter at `chapter_url`
/// yields: the unentitled error for a gated chapter, an error for one whose
/// content yields no paragraphs, else the chapter's content.
pub open spec fn response_outcome(chapter_url: Seq<char>, novel_title: Seq<char>, resp: ChapterContentResponse, r: Result<ChapterContent, SourceError>) -> bool {
    if !resp.can_read {
        r matches Err(SourceError::Unentitled(m)) && m@ == resp.title@ + " is not available to this client"@
    } else if paragraphs_of(resp.content@).len() == 0 {
        r matches Err(SourceError::Other(m)) && m@ == "No chapter content extracted from "@ + chapter_url
    } else {
        r matches Ok(c) && c@ == (novel_title, resp.title@, paragraphs_of(resp.content@))
    }
}

/// The chapter a content payload yields, as [`response_outcome`] describes.
pub fn chapter_from_response(chapter_url: &str, novel_title: String, response: ChapterContentResponse) -> (r: Result<ChapterContent, SourceError>)
    ensures
        response_outcome(chapter_url@, novel_title@, response, r),
{
    if !response.can_read {
        return Err(SourceError::Unentitled(concat(response.title.as_str(), " is not available to this client")));
    }
    let paragraphs = split_paragraphs(response.content.as_str());
    if paragraphs.len() == 0 {
        return Err(SourceError::Other(concat("No chapter content extracted from ", chapter_url)));
    }
    Ok(ChapterContent { novel_title, chapter_title: response.title, paragraphs })
}

} // verus!
