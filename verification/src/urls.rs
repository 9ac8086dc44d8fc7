//! URL parsing and resolution, provided by the `url` crate. A parsed URL is
//! handed to the rest of the library as the plain parts the logic reads.

use vstd::prelude::*;
use crate::text::{chars_of, owned};
use crate::utils::{lemma_views_push, views};

verus! {

/// The parts of a parsed URL that the library reads.
#[derive(Debug, Clone, PartialEq, Eq)]
pub struct UrlParts {
    /// The whole URL, serialized (`Url::as_str`).
    pub href: String,
    /// The host, when the URL has one (`Url::host_str`).
    pub host: Option<String>,
    /// The path (`Url::path`).
    pub path: String,
    /// The ASCII serialization of the origin; `"null"` for an opaque one.
    pub origin: String,
    /// The path's `/`-separated segments, `None` for a cannot-be-a-base URL
    /// (`Url::path_segments`).
    pub segments: Option<Vec<String>>,
}

/// The plain-value form of [`UrlParts`]: href, host, path, origin, segments.
pub type UrlView = (Seq<char>, Option<Seq<char>>, Seq<char>, Seq<char>, Option<Seq<Seq<char>>>);

impl View for UrlParts {
    type V = UrlView;

    open spec fn view(&self) -> UrlView {
        (self.href@, self.host.deep_view(), self.path@, self.origin@, self.segments.deep_view())
    }
}

/// The plain-value form of an optional [`UrlParts`].
pub open spec fn opt_url_view(p: Option<UrlParts>) -> Option<UrlView> {
    match p {
        Some(u) => Some(u@),
        None => None,
    }
}

/// What `Url::parse(text)` yields, taken apart as [`UrlParts`] does.
pub uninterp spec fn parsed_url(text: Seq<char>) -> Option<UrlView>;

/// What `Url::parse(base)` followed by `join(reference)` yields, taken apart
/// as [`UrlParts`] does; `None` when either step fails.
pub uninterp spec fn joined_url(base: Seq<char>, reference: Seq<char>) -> Option<UrlView>;

/// Parse `text` with `url::Url::parse` and take the result apart. `None`
/// exactly when the crate rejects the text.
#[verifier::external_body]
pub(crate) fn parse_url(text: &str) -> (res: Option<UrlParts>)
    ensures
        match res {
            Some(p) => parsed_url(text@) == Some(p@),
            None => parsed_url(text@) is None,
        },
{
    let u = url::Url::parse(text).ok()?;
    Some(UrlParts {
        href: u.as_str().to_string(),
        host: u.host_str().map(|h| h.to_string()),
        path: u.path().to_string(),
        origin: u.origin().ascii_serialization(),
        segments: u.path_segments().map(|it| it.map(|x| x.to_string()).collect()),
    })
}

/// Resolve `reference` against `base` with `url::Url::join` and take the
/// result apart. `None` when `base` does not parse or the join fails.
#[verifier::external_body]
pub(crate) fn join_url(base: &str, reference: &str) -> (res: Option<UrlParts>)
    ensures
        match res {
            Some(p) => joined_url(base@, reference@) == Some(p@),
            None => joined_url(base@, reference@) is None,
        },
{
    let u = url::Url::parse(base).ok()?.join(reference).ok()?;
    Some(UrlParts {
        href: u.as_str().to_string(),
        host: u.host_str().map(|h| h.to_string()),
        path: u.path().to_string(),
        origin: u.origin().ascii_serialization(),
        segments: u.path_segments().map(|it| it.map(|x| x.to_string()).collect()),
    })
}

/// The non-empty strings of `segs`, in order.
pub open spec fn nonempty_segments(segs: Seq<Seq<char>>) -> Seq<Seq<char>>
    decreases segs.len(),
{
    if segs.len() == 0 {
        Seq::empty()
    } else {
        let r = nonempty_segments(segs.drop_last());
        if segs.last().len() == 0 { r } else { r.push(segs.last()) }
    }
}

/// The non-empty strings of `segs`.
pub fn keep_nonempty(segs: &Vec<String>) -> (res: Vec<String>)
    ensures
        views(res@) == nonempty_segments(views(segs@)),
{
    let mut res: Vec<String> = Vec::new();
    let mut i: usize = 0;
    while i < segs.len()
        invariant
            i <= segs.len(),
            views(res@) == nonempty_segments(views(segs@).take(i as int)),
        decreases segs.len() - i,
    {
        proof {
            assert(views(segs@).take(i as int + 1).drop_last() =~= views(segs@).take(i as int));
        }
        let c = chars_of(segs[i].as_str());
        if c.len() > 0 {
            let kept = owned(segs[i].as_str());
            proof {
                lemma_views_push(res@, kept);
            }
            res.push(kept);
        }
        i = i + 1;
    }
    proof {
        assert(views(segs@).take(segs.len() as int) =~= views(segs@));
    }
    res
}

/// What `Url::parse(url)` followed by `query_pairs_mut().append_pair(k, v)`
/// for each of `pairs` in order yields, serialized; the parse error's message
/// when `url` does not parse.
pub uninterp spec fn with_query_pairs(url: Seq<char>, pairs: Seq<(Seq<char>, Seq<char>)>) -> Result<Seq<char>, Seq<char>>;

/// What `Url::parse(url)` yields once its query is removed (`set_query(None)`),
/// serialized, with the pairs its query held (`query_pairs`, decoded), in
/// order; the parse error's message when `url` does not parse.
pub uninterp spec fn url_query(url: Seq<char>) -> Result<(Seq<char>, Seq<(Seq<char>, Seq<char>)>), Seq<char>>;

/// Parse `url` and append `pairs` to its query, form-encoded.
#[verifier::external_body]
pub(crate) fn append_query_pairs(url: &str, pairs: &Vec<(String, String)>) -> (r: Result<String, String>)
    ensures
        crate::text::str_result(r) == with_query_pairs(url@, pairs.deep_view()),
{
    let mut u = url::Url::parse(url).map_err(|e| e.to_string())?;
    {
        let mut query = u.query_pairs_mut();
        for (k, v) in pairs {
            query.append_pair(k, v);
        }
    }
    Ok(u.to_string())
}

/// Parse `url`, read the pairs of its query, and drop the query.
#[verifier::external_body]
pub(crate) fn split_query(url: &str) -> (r: Result<(String, Vec<(String, String)>), String>)
    ensures
        match r {
            Ok((bare, pairs)) => url_query(url@) == Ok::<_, Seq<char>>((bare@, pairs.deep_view())),
            Err(e) => url_query(url@) == Err::<(Seq<char>, Seq<(Seq<char>, Seq<char>)>), _>(e@),
        },
{
    let mut u = url::Url::parse(url).map_err(|e| e.to_string())?;
    let pairs = u.query_pairs().map(|(k, v)| (k.into_owned(), v.into_owned())).collect();
    u.set_query(None);
    Ok((u.to_string(), pairs))
}

} // verus!
