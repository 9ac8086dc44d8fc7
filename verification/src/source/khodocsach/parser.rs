//! Text and URL helpers for the khodocsach adapter. Nothing here performs
//! I/O.

use vstd::prelude::*;
use crate::pattern::{regex_replace_all, regex_replaced};
use crate::text::{chars_of, chars_eq, concat, owned, str_result, string_of};
use crate::urls::{keep_nonempty, nonempty_segments, opt_url_view, parse_url, parsed_url, UrlParts, UrlView};
use crate::utils::{clean, clean_text, drop_noise, lemma_views_push, lines, lines_of, prose, views};

verus! {

/// One HTML tag, or a tag the endpoint left unterminated at the very end of
/// its payload. The second branch wants a letter straight after the `<`, so
/// arithmetic in the prose (`a < b`) is left alone.
pub const TAG_PATTERN: &'static str = "<[^>]*>|</?[a-zA-Z][^>]*$";

/// The REST namespace every endpoint hangs off, appended to the site origin.
pub const API_PREFIX: &'static str = "/wp-json/app/v1";

/// `html` with every tag replaced by a space, then [`clean`]ed. Should the
/// tag pattern fail to compile, the markup is cleaned as it is.
pub open spec fn stripped(html: Seq<char>) -> Seq<char> {
    match regex_replaced(TAG_PATTERN@, html, " "@) {
        Some(t) => clean(t),
        None => clean(html),
    }
}

/// Flatten a fragment of khodocsach HTML into a single plain-text line. Tags
/// become spaces so `<p>a</p><p>b</p>` does not run together, then
/// [`clean_text`] decodes entities and collapses the white space. Stripping
/// before decoding keeps an escaped `&lt;b&gt;` in the prose from being
/// swallowed as a tag.
pub fn strip_html_to_text(html: &str) -> (res: String)
    ensures
        res@ == stripped(html@),
{
    match regex_replace_all(TAG_PATTERN, html, " ") {
        Some(t) => clean_text(t.as_str()),
        None => clean_text(html),
    }
}

/// The paragraphs of chapter content: each line stripped of markup, the
/// noise lines dropped, reading order kept.
pub open spec fn paragraphs_of(content: Seq<char>) -> Seq<Seq<char>> {
    prose(lines(content).map_values(|l: Seq<char>| stripped(l)))
}

/// Split chapter content into ordered paragraphs. khodocsach sends one
/// paragraph per line but wraps the prose in ad and nav markup that shares
/// a line with real prose, so each line goes through
/// [`strip_html_to_text`] rather than being dropped whole; lines left empty
/// fall to [`crate::utils::is_noise`] with blank lines and boilerplate.
pub fn split_paragraphs(content: &str) -> (res: Vec<String>)
    ensures
        views(res@) == paragraphs_of(content@),
{
    let raw = lines_of(content);
    let mut stripped_lines: Vec<String> = Vec::new();
    let mut i: usize = 0;
    while i < raw.len()
        invariant
            i <= raw.len(),
            views(raw@) == lines(content@),
            views(stripped_lines@) == views(raw@).take(i as int).map_values(|l: Seq<char>| stripped(l)),
        decreases raw.len() - i,
    {
        let s = strip_html_to_text(raw[i].as_str());
        proof {
            lemma_views_push(stripped_lines@, s);
            assert(views(raw@).take(i as int + 1).map_values(|l: Seq<char>| stripped(l)) =~= views(raw@).take(i as int).map_values(|l: Seq<char>| stripped(l)).push(stripped(raw@[i as int]@)));
        }
        stripped_lines.push(s);
        i = i + 1;
    }
    proof {
        assert(views(raw@).take(raw.len() as int) =~= views(raw@));
    }
    drop_noise(stripped_lines)
}

/// First path segments of a khodocsach URL that are never a book.
pub open spec fn reserved_segments() -> Seq<Seq<char>> {
    seq!["wp-json"@, "wp-admin"@, "wp-content"@, "wp-includes"@, "the_genre"@, "the_author"@,
        "the_status"@, "the_type"@]
}

/// The API base derived from `url` and what the URL crate parsed it into:
/// the origin with [`API_PREFIX`] appended.
pub open spec fn api_base_of(url: Seq<char>, parsed: Option<UrlView>) -> Result<Seq<char>, Seq<char>> {
    match parsed {
        None => Err("invalid URL: "@ + url),
        Some(p) => if p.3 == "null"@ {
            Err("URL has no host: "@ + url)
        } else {
            Ok(p.3 + API_PREFIX@)
        },
    }
}

/// [`api_base_of`] for an already-parsed URL.
pub fn api_base_from(url: &str, parsed: &Option<UrlParts>) -> (res: Result<String, String>)
    ensures
        str_result(res) == api_base_of(url@, opt_url_view(*parsed)),
{
    match parsed {
        None => Err(concat("invalid URL: ", url)),
        Some(p) => {
            let null = chars_of("null");
            let origin = chars_of(p.origin.as_str());
            if chars_eq(&origin, &null) {
                Err(concat("URL has no host: ", url))
            } else {
                Ok(concat(p.origin.as_str(), API_PREFIX))
            }
        },
    }
}

/// Derive the API base (`<origin>/wp-json/app/v1`) from any URL on the
/// site. Taking the origin from the caller's URL rather than a fixed host
/// lets the adapter run against a mock server.
pub fn api_base(url: &str) -> (res: Result<String, String>)
    ensures
        str_result(res) == api_base_of(url@, parsed_url(url@)),
{
    let parsed = parse_url(url);
    api_base_from(url, &parsed)
}

/// The part of `s` before its first `c` (all of `s` when it has none).
pub open spec fn before_first(s: Seq<char>, c: char) -> Seq<char>
    decreases s.len(),
{
    if s.len() == 0 {
        Seq::empty()
    } else if s[0] == c {
        Seq::empty()
    } else {
        seq![s[0]] + before_first(s.skip(1), c)
    }
}

/// The book slug named by a URL's path segments.
pub open spec fn slug_of_segments(url: Seq<char>, segments: Option<Seq<Seq<char>>>) -> Result<Seq<char>, Seq<char>> {
    let segs = match segments {
        Some(s) => nonempty_segments(s),
        None => Seq::empty(),
    };
    if segs.len() != 1 {
        Err("not a khodocsach book page: "@ + url + " (expected a single-segment path like /ten-truyen)"@)
    } else {
        let slug = before_first(segs[0], '.');
        if slug.len() == 0 || reserved_segments().contains(slug) {
            Err("not a khodocsach book page: "@ + url)
        } else {
            Ok(slug)
        }
    }
}

/// The book slug of a book-page URL, from what the URL crate parsed it into.
pub open spec fn book_slug_of(url: Seq<char>, parsed: Option<UrlView>) -> Result<Seq<char>, Seq<char>> {
    match parsed {
        None => Err("invalid URL: "@ + url),
        Some(p) => slug_of_segments(url, p.4),
    }
}

/// The part of `v` before its first `c`.
fn prefix_before(v: &Vec<char>, c: char) -> (res: Vec<char>)
    ensures
        res@ == before_first(v@, c),
{
    let mut res: Vec<char> = Vec::new();
    let mut i: usize = 0;
    proof {
        assert(v@.skip(0) =~= v@);
    }
    while i < v.len() && v[i] != c
        invariant
            i <= v.len(),
            res@ + before_first(v@.skip(i as int), c) == before_first(v@, c),
        decreases v.len() - i,
    {
        proof {
            assert(v@.skip(i as int).skip(1) =~= v@.skip(i + 1));
            assert(res@.push(v@[i as int]) + before_first(v@.skip(i + 1), c) =~= res@ + before_first(v@.skip(i as int), c));
        }
        res.push(v[i]);
        i = i + 1;
    }
    proof {
        assert(before_first(v@.skip(i as int), c) =~= Seq::<char>::empty());
        assert(res@ + Seq::<char>::empty() =~= res@);
    }
    res
}

/// Whether `slug` is one of [`reserved_segments`].
fn is_reserved(slug: &Vec<char>) -> (r: bool)
    ensures
        r == reserved_segments().contains(slug@),
{
    let names: [&str; 8] = ["wp-json", "wp-admin", "wp-content", "wp-includes", "the_genre",
        "the_author", "the_status", "the_type"];
    let ghost rs = reserved_segments();
    let mut i: usize = 0;
    while i < 8
        invariant
            i <= 8,
            rs == reserved_segments(),
            forall|k: int| 0 <= k < 8 ==> #[trigger] names@[k]@ == rs[k],
            forall|k: int| 0 <= k < i ==> rs[k] != slug@,
        decreases 8 - i,
    {
        let n = chars_of(names[i]);
        if chars_eq(&n, slug) {
            proof {
                assert(rs[i as int] == slug@);
            }
            return true;
        }
        i = i + 1;
    }
    proof {
        assert(!rs.contains(slug@)) by {
            if rs.contains(slug@) {
                let k = choose|k: int| 0 <= k < rs.len() && rs[k] == slug@;
            }
        }
    }
    false
}

/// [`slug_of_segments`] for a URL's segments.
fn slug_from_segments(url: &str, segments: &Option<Vec<String>>) -> (res: Result<String, String>)
    ensures
        str_result(res) == slug_of_segments(url@, segments.deep_view()),
{
    let segs = match segments {
        Some(s) => keep_nonempty(s),
        None => Vec::new(),
    };
    proof {
        match segments {
            Some(s) => assert(s.deep_view() =~= views(s@)),
            None => assert(views(segs@) =~= Seq::<Seq<char>>::empty()),
        }
    }
    if segs.len() != 1 {
        let mut msg = concat("not a khodocsach book page: ", url);
        msg.append(" (expected a single-segment path like /ten-truyen)");
        Err(msg)
    } else {
        let seg = chars_of(segs[0].as_str());
        let slug = prefix_before(&seg, '.');
        if slug.len() == 0 || is_reserved(&slug) {
            Err(concat("not a khodocsach book page: ", url))
        } else {
            Ok(string_of(slug.as_slice()))
        }
    }
}

/// [`book_slug_from_url`] for an already-parsed URL.
pub fn book_slug_from(url: &str, parsed: &Option<UrlParts>) -> (res: Result<String, String>)
    ensures
        str_result(res) == book_slug_of(url@, opt_url_view(*parsed)),
{
    match parsed {
        None => Err(concat("invalid URL: ", url)),
        Some(p) => slug_from_segments(url, &p.segments),
    }
}

/// Extract the book slug from a book-page URL, rejecting anything that is
/// not one: books live at `/<slug>`, and a `.kds` permalink extension is
/// dropped since the API slug never carries a dot.
pub fn book_slug_from_url(url: &str) -> (res: Result<String, String>)
    ensures
        str_result(res) == book_slug_of(url@, parsed_url(url@)),
{
    let parsed = parse_url(url);
    book_slug_from(url, &parsed)
}

} // verus!
