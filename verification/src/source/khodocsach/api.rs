//! What the four `/wp-json/app/v1/` endpoints this adapter uses return,
//! field by field. Field names and nullability follow the live host; the
//! JSON itself is decoded at the edge and handed over in these types.

use vstd::prelude::*;

verus! {

/// A WordPress taxonomy term. Author, status and type all arrive in this
/// shape and only the display name is of any use here.
#[derive(Debug, Clone, PartialEq, Eq)]
pub struct Term {
    /// The term's display name.
    pub name: String,
}

/// The book endpoint's payload.
#[derive(Debug, Clone, PartialEq, Eq)]
pub struct Book {
    /// Database id, which the chapter listing is keyed on.
    pub id: u64,
    /// Display title.
    pub title: String,
    /// Synopsis, as HTML.
    pub desc: Option<String>,
    /// Cover image address.
    pub cover: Option<String>,
    /// Author term; absent when the site serializes none (it writes an
    /// absent term as an empty string, which counts as absent).
    pub author: Option<Term>,
    /// Publication status term.
    pub status: Option<Term>,
}

/// Paging block attached to every listing response: the page count the
/// server actually applied.
#[derive(Debug, Clone, Copy, PartialEq, Eq)]
pub struct Pagination {
    /// Number of listing pages.
    pub total_pages: u32,
}

/// One entry in the chapter listing. `id` is the database id the ticket and
/// content endpoints are keyed on; `index` is the chapter number readers see.
#[derive(Debug, Clone, PartialEq, Eq)]
pub struct ChapterListItem {
    /// Database id.
    pub id: u64,
    /// Chapter number.
    pub index: u32,
    /// Chapter title.
    pub title: String,
}

/// One page of the chapter listing.
#[derive(Debug, Clone, PartialEq, Eq)]
pub struct ChapterListPage {
    /// The chapters on this page.
    pub data: Vec<ChapterListItem>,
    /// The paging block.
    pub pagination: Pagination,
}

/// The short-lived credential the content endpoint demands.
#[derive(Debug, Clone, PartialEq, Eq)]
pub struct Ticket {
    /// One-time value.
    pub nonce: String,
    /// Expiry, in seconds since the epoch.
    pub exp: i64,
    /// Signature over the other two.
    pub sig: String,
}

/// The content endpoint's payload. `content` is plain text with no markup,
/// and `can_read` is the entitlement flag: false means the chapter exists but
/// is gated behind a purchase or VIP status.
#[derive(Debug, Clone, PartialEq, Eq)]
pub struct ChapterContentResponse {
    /// Chapter title.
    pub title: String,
    /// Chapter text.
    pub content: String,
    /// Whether this client may read the chapter.
    pub can_read: bool,
}

/// The standard WordPress REST error envelope, returned on every non-2xx.
/// `code` is the machine-readable discriminator (`rate_limited`,
/// `ticket_invalid`, `not_found`).
#[derive(Debug, Clone, PartialEq, Eq)]
pub struct ApiError {
    /// Machine-readable code.
    pub code: String,
    /// Human-readable message.
    pub message: String,
}

} // verus!
