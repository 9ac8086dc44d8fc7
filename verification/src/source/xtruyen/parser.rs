//! URL helpers for the xtruyen adapter. Nothing here performs I/O.

use vstd::prelude::*;
use crate::text::{chars_of, chars_eq, concat, owned, str_eq, str_result, string_of};
use crate::urls::{keep_nonempty, nonempty_segments, opt_url_view, parse_url, parsed_url, UrlParts, UrlView};
use crate::utils::{trim, trim_char, trim_chars, trim_end_char, views};

verus! {

/// The novel slug named by a URL's path segments: exactly `/truyen/<slug>`.
pub open spec fn novel_slug_of_segments(url: Seq<char>, segments: Option<Seq<Seq<char>>>) -> Result<Seq<char>, Seq<char>> {
    let segs = match segments {
        Some(s) => nonempty_segments(s),
        None => Seq::empty(),
    };
    if segs.len() == 2 && segs[0] == "truyen"@ {
        Ok(segs[1])
    } else {
        Err("not an xtruyen novel page: "@ + url + " (expected /truyen/<ten-truyen>)"@)
    }
}

/// The novel slug of a novel-page URL, from what the URL crate parsed it into.
pub open spec fn novel_slug_of(url: Seq<char>, parsed: Option<UrlView>) -> Result<Seq<char>, Seq<char>> {
    match parsed {
        None => Err("invalid URL: "@ + url),
        Some(p) => if p.1 is None {
            Err("URL has no host: "@ + url)
        } else {
            novel_slug_of_segments(url, p.4)
        },
    }
}

/// [`novel_slug_of_segments`] for a URL's segments.
fn novel_slug_from_segments(url: &str, segments: &Option<Vec<String>>) -> (res: Result<String, String>)
    ensures
        str_result(res) == novel_slug_of_segments(url@, segments.deep_view()),
{
    let segs = match segments {
        Some(s) => keep_nonempty(s),
        None => Vec::new(),
    };
    proof {
        match segments {
            Some(s) => assert(s.deep_view() =~= views(s@)),
            None => assert(views(segs@) =~= Seq::<Seq<char>>::empty()),
        }
    }
    if segs.len() == 2 && str_eq(segs[0].as_str(), "truyen") {
        Ok(owned(segs[1].as_str()))
    } else {
        let mut msg = concat("not an xtruyen novel page: ", url);
        msg.append(" (expected /truyen/<ten-truyen>)");
        Err(msg)
    }
}

/// [`novel_slug_from_url`] for an already-parsed URL.
pub fn novel_slug_from(url: &str, parsed: &Option<UrlParts>) -> (res: Result<String, String>)
    ensures
        str_result(res) == novel_slug_of(url@, opt_url_view(*parsed)),
{
    match parsed {
        None => Err(concat("invalid URL: ", url)),
        Some(p) => {
            if p.host.is_none() {
                Err(concat("URL has no host: ", url))
            } else {
                novel_slug_from_segments(url, &p.segments)
            }
        },
    }
}

/// Extract the novel slug from a novel-page URL, rejecting anything that is
/// not one: a novel page is exactly `/truyen/<slug>`, so a listing, the
/// site root and a chapter page are all turned away before any request.
pub fn novel_slug_from_url(url: &str) -> (res: Result<String, String>)
    ensures
        str_result(res) == novel_slug_of(url@, parsed_url(url@)),
{
    let parsed = parse_url(url);
    novel_slug_from(url, &parsed)
}

/// The origin of a URL, from what the URL crate parsed it into.
pub open spec fn origin_of_parsed(url: Seq<char>, parsed: Option<UrlView>) -> Result<Seq<char>, Seq<char>> {
    match parsed {
        None => Err("invalid URL: "@ + url),
        Some(p) => if p.3 == "null"@ {
            Err("URL has no host: "@ + url)
        } else {
            Ok(p.3)
        },
    }
}

/// [`origin_of`] for an already-parsed URL.
pub fn origin_from(url: &str, parsed: &Option<UrlParts>) -> (res: Result<String, String>)
    ensures
        str_result(res) == origin_of_parsed(url@, opt_url_view(*parsed)),
{
    match parsed {
        None => Err(concat("invalid URL: ", url)),
        Some(p) => {
            if str_eq(p.origin.as_str(), "null") {
                Err(concat("URL has no host: ", url))
            } else {
                Ok(owned(p.origin.as_str()))
            }
        },
    }
}

/// Origin of `url`, for the site-wide endpoints that hang off it. Taking it
/// from the caller's URL lets the adapter run against a mock server.
pub fn origin_of(url: &str) -> (res: Result<String, String>)
    ensures
        str_result(res) == origin_of_parsed(url@, parsed_url(url@)),
{
    let parsed = parse_url(url);
    origin_from(url, &parsed)
}

/// `path` appended to a novel URL with or without its trailing slash; the
/// URL must have an origin.
pub open spec fn joined_path(novel_url: Seq<char>, path: Seq<char>) -> Result<Seq<char>, Seq<char>> {
    let trimmed = trim_end_char(novel_url, '/');
    match origin_of_parsed(trimmed, parsed_url(trimmed)) {
        Err(e) => Err(e),
        Ok(_) => Ok(trimmed + "/"@ + path),
    }
}

/// Append `path` to a novel URL, tolerating a novel URL with or without its
/// trailing slash.
pub fn join_path(novel_url: &str, path: &str) -> (res: Result<String, String>)
    ensures
        str_result(res) == joined_path(novel_url@, path@),
{
    let v = chars_of(novel_url);
    let t = trim_chars(&v, false, '/', false, true);
    let trimmed = string_of(t.as_slice());
    match origin_of(trimmed.as_str()) {
        Err(e) => Err(e),
        Ok(_) => {
            let mut s = concat(trimmed.as_str(), "/");
            s.append(path);
            Ok(s)
        },
    }
}

/// The address of one chapter, from the novel URL and the slug the index
/// supplied.
pub open spec fn chapter_url_of(novel_url: Seq<char>, slug: Seq<char>) -> Result<Seq<char>, Seq<char>> {
    let s = trim_char(trim(slug), '/');
    if s.len() == 0 {
        Err("chapter index carried an empty address"@)
    } else {
        joined_path(novel_url, s + "/"@)
    }
}

/// Address of one chapter, from the novel URL and the slug the index
/// supplied.
pub fn chapter_url(novel_url: &str, slug: &str) -> (res: Result<String, String>)
    ensures
        str_result(res) == chapter_url_of(novel_url@, slug@),
{
    let v = chars_of(slug);
    let t = trim_chars(&v, true, ' ', true, true);
    let s = trim_chars(&t, false, '/', true, true);
    if s.len() == 0 {
        return Err(owned("chapter index carried an empty address"));
    }
    let mut path = string_of(s.as_slice());
    path.append("/");
    join_path(novel_url, path.as_str())
}

} // verus!
