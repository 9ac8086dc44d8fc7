//! The chapter-group endpoint the site's own reader uses. The novel page
//! ships an accordion of chapter groups with empty child lists; expanding one
//! posts to this endpoint, the only complete chapter index the site exposes.

use vstd::prelude::*;
use crate::text::{concat, is_empty_str, owned};
use crate::utils::{trim, trim_str};

verus! {

/// Path of the chapter-group endpoint, appended to the site origin.
pub const CHAPTERS_ENDPOINT: &'static str = "/api/api-chapters.php";

/// Header the endpoint requires; without it the answer is `401`.
pub const AUTH_HEADER: &'static str = "X-Custom-Auth";

/// Value that header carries: a constant baked into the site's scripts, not
/// tied to a session or a user.
pub const AUTH_TOKEN: &'static str = "abC0000011111";

/// One chapter as the group endpoint returns it (`s`, `n`, `e` on the wire).
#[derive(Clone, Debug, PartialEq, Eq)]
pub struct ChapterEntry {
    /// Address of the chapter, relative to the novel.
    pub slug: String,
    /// The site's own chapter label, e.g. `Chương 12`.
    pub label: String,
    /// The chapter's title, empty when it has none.
    pub title: String,
}

impl View for ChapterEntry {
    type V = (Seq<char>, Seq<char>, Seq<char>);

    open spec fn view(&self) -> (Seq<char>, Seq<char>, Seq<char>) {
        (self.slug@, self.label@, self.title@)
    }
}

/// The title a chapter entry reaches the EPUB with: the label, plus the
/// chapter's own title when it has one.
pub open spec fn entry_title(label: Seq<char>, title: Seq<char>) -> Seq<char> {
    if trim(title).len() == 0 {
        trim(label)
    } else {
        trim(label) + ": "@ + trim(title)
    }
}

impl ChapterEntry {
    /// Chapter title as it should reach the EPUB: the site's label, plus the
    /// chapter's own title when it has one.
    pub fn display_title(&self) -> (s: String)
        ensures
            s@ == entry_title(self.label@, self.title@),
    {
        let title = trim_str(self.title.as_str());
        let label = trim_str(self.label.as_str());
        if is_empty_str(title.as_str()) {
            label
        } else {
            let mut s = concat(label.as_str(), ": ");
            s.append(title.as_str());
            s
        }
    }
}

/// The form body requesting one group's chapters.
pub open spec fn form_body(manga_id: Seq<char>, from: Seq<char>, to: Seq<char>) -> Seq<char> {
    "manga_id="@ + manga_id + "&from="@ + from + "&to="@ + to + "&vol="@
}

/// Form body requesting one group's chapters. `from` and `to` are the
/// position bounds the accordion publishes, passed through verbatim because
/// the final group's upper bound carries an `m` suffix the endpoint reads.
pub fn group_form_body(manga_id: &str, from: &str, to: &str) -> (s: String)
    ensures
        s@ == form_body(manga_id@, from@, to@),
{
    let mut s = owned("manga_id=");
    s.append(manga_id);
    s.append("&from=");
    s.append(from);
    s.append("&to=");
    s.append(to);
    s.append("&vol=");
    s
}

} // verus!
