//! metruyenhot main-page extractors: title, author, status, description and
//! cover image of a novel, read off its main page.

use vstd::prelude::*;
use crate::html::{
    attr_value, attribute, document_text, root_text, select_elements, select_following_siblings, select_text,
    selected_elements, selected_following_siblings, selected_texts, Element, ElementView,
};
use crate::pattern::{regex_capture_first, regex_first_group, regex_replace_first, regex_replaced_first};
use crate::utils::{first_clean, first_clean_text};
use crate::text::{chars_of, is_empty_str, owned, str_eq, string_of};
use crate::urls::{join_url, joined_url, parse_url, parsed_url};
use crate::utils::{
    clean, clean_text, is_ws, is_whitespace, lemma_trim_end_take, matches_at, occurs_at, trim, trim_end_by,
    trim_str,
};

verus! {

/// The ` - truyenazz` suffix some main pages carry in their `<title>`.
pub const TRUYENAZZ_SUFFIX_PATTERN: &'static str = "(?i)\\s*-\\s*truyenazz\\s*$";

/// The author line in the page text: what follows `Tác giả:` up to the end
/// of the line.
pub const AUTHOR_PATTERN: &'static str = "(?i)Tác giả:\\s*([^\\n\\r]+)";

/// A `<title>` text without its ` - truyenazz` suffix.
pub open spec fn without_suffix(t: Seq<char>) -> Seq<char> {
    match regex_replaced_first(TRUYENAZZ_SUFFIX_PATTERN@, t, ""@) {
        Some(r) => r,
        None => t,
    }
}

/// The novel title a main page shows: its first `<h1>`, else its `<title>`
/// without the site suffix, else "Unknown Novel".
pub open spec fn main_title_of(html: Seq<char>) -> Seq<char> {
    match first_clean(selected_texts(html, "h1"@)) {
        Some(t) => t,
        None => match first_clean(selected_texts(html, "title"@)) {
            Some(t) => without_suffix(t),
            None => "Unknown Novel"@,
        },
    }
}

/// The novel title a main page shows, as [`main_title_of`] describes.
pub fn extract_novel_title_from_main_page(html_source: &str) -> (r: String)
    ensures
        r@ == main_title_of(html_source@),
{
    if let Some(t) = first_clean_text(&select_text(html_source, "h1")) {
        return t;
    }
    match first_clean_text(&select_text(html_source, "title")) {
        Some(t) => match regex_replace_first(TRUYENAZZ_SUFFIX_PATTERN, t.as_str(), "") {
            Some(r) => r,
            None => t,
        },
        None => owned("Unknown Novel"),
    }
}

/// The publication status a main page shows (`Đang ra`, `Hoàn thành`): the
/// status span of the info block.
pub open spec fn status_of(html: Seq<char>) -> Option<Seq<char>> {
    first_clean(selected_texts(html, "div.content1 div.info p span.status"@))
}

/// The publication status, as [`status_of`] describes.
pub fn extract_novel_status_from_main_page(html_source: &str) -> (r: Option<String>)
    ensures
        r.deep_view() == status_of(html_source@),
{
    first_clean_text(&select_text(html_source, "div.content1 div.info p span.status"))
}

/// The cleaned text of the first `<p>` among `es` whose cleaned text is not
/// empty.
pub open spec fn first_paragraph(es: Seq<ElementView>) -> Option<Seq<char>>
    decreases es.len(),
{
    if es.len() == 0 {
        None
    } else if es[0].0 == "p"@ && clean(es[0].2).len() > 0 {
        Some(clean(es[0].2))
    } else {
        first_paragraph(es.skip(1))
    }
}

/// The short description a main page shows. The info block is followed by a
/// marker paragraph and then the description; some hosts put an empty `<p>`
/// between the two, so the first element after the info block is skipped
/// and the first non-empty `<p>` after it is the description.
pub open spec fn description_of(html: Seq<char>) -> Option<Seq<char>> {
    match selected_following_siblings(html, "div.content1 div.info"@) {
        Some(Some(sibs)) => if sibs.len() == 0 { None } else { first_paragraph(sibs.skip(1)) },
        _ => None,
    }
}

/// The description among the elements following the info block: the
/// first non-empty `<p>` after the first of them, as [`description_of`]
/// describes.
pub fn description_from_siblings(sibs: &Vec<Element>) -> (r: Option<String>)
    ensures
        r.deep_view() == (if sibs.len() == 0 { None } else { first_paragraph(sibs.deep_view().skip(1)) }),
{
    if sibs.len() == 0 {
        return None;
    }
    let ghost sv = sibs.deep_view();
    proof {
        assert(sv.skip(1).skip(0) =~= sv.skip(1));
    }
    let mut i: usize = 1;
    while i < sibs.len()
        invariant
            1 <= i <= sibs.len(),
            sv == sibs.deep_view(),
            sv.len() > 0,
            first_paragraph(sv.skip(1)) == first_paragraph(sv.skip(i as int)),
        decreases sibs.len() - i,
    {
        proof {
            assert(sv.skip(i as int)[0] == sibs@[i as int].deep_view());
            assert(sv.skip(i as int).skip(1) =~= sv.skip(i + 1));
        }
        if str_eq(sibs[i].0.as_str(), "p") {
            let t = clean_text(sibs[i].2.as_str());
            if !is_empty_str(t.as_str()) {
                return Some(t);
            }
        }
        i = i + 1;
    }
    None
}

/// The short description, as [`description_of`] describes.
pub fn extract_novel_description_from_main_page(html_source: &str) -> (r: Option<String>)
    ensures
        r.deep_view() == description_of(html_source@),
{
    match select_following_siblings(html_source, "div.content1 div.info") {
        Some(Some(s)) => description_from_siblings(&s),
        _ => None,
    }
}

/// The part of `s` before the first occurrence of `pat` (the first piece of
/// `str::split`).
pub open spec fn before_pattern(s: Seq<char>, pat: Seq<char>) -> Seq<char>
    decreases s.len(),
{
    if s.len() == 0 || (pat.len() > 0 && occurs_at(s, 0, pat)) {
        Seq::empty()
    } else {
        seq![s[0]] + before_pattern(s.skip(1), pat)
    }
}

/// Whether `c` is a comma or white space.
pub open spec fn comma_or_ws(c: char) -> bool {
    c == ',' || is_ws(c)
}

/// The author named in an author line: the line cleaned, cut before any
/// `Thể loại:` genre label, trimmed, without trailing commas.
pub open spec fn author_from_line(raw: Seq<char>) -> Seq<char> {
    trim_end_by(trim(before_pattern(clean(raw), "Thể loại:"@)), |c: char| comma_or_ws(c))
}

/// The author a main page names, when its text carries a non-empty author
/// line.
pub open spec fn author_of(html: Seq<char>) -> Option<Seq<char>> {
    match regex_first_group(AUTHOR_PATTERN@, root_text(html), 1) {
        Some(Some(raw)) => {
            let a = author_from_line(raw);
            if a.len() == 0 { None } else { Some(a) }
        },
        _ => None,
    }
}

/// The part of `v` before the first occurrence of `pat`.
fn cut_before(v: &Vec<char>, pat: &Vec<char>) -> (r: Vec<char>)
    ensures
        r@ == before_pattern(v@, pat@),
{
    let mut out: Vec<char> = Vec::new();
    let mut i: usize = 0;
    proof {
        assert(v@.skip(0) =~= v@);
    }
    while i < v.len()
        invariant
            i <= v.len(),
            out@ + before_pattern(v@.skip(i as int), pat@) == before_pattern(v@, pat@),
        decreases v.len() - i,
    {
        let ghost rest = v@.skip(i as int);
        if pat.len() > 0 && matches_at(v, i, pat) {
            proof {
                assert(rest.subrange(0, pat@.len() as int) =~= v@.subrange(i as int, i + pat@.len()));
                assert(occurs_at(rest, 0, pat@));
                assert(out@ + Seq::<char>::empty() =~= out@);
            }
            return out;
        }
        proof {
            if pat@.len() > 0 && occurs_at(rest, 0, pat@) {
                assert(rest.subrange(0, pat@.len() as int) =~= v@.subrange(i as int, i + pat@.len()));
            }
            assert(rest.skip(1) =~= v@.skip(i + 1));
            assert(out@.push(v@[i as int]) + before_pattern(v@.skip(i + 1), pat@) =~= out@ + (seq![rest[0]] + before_pattern(rest.skip(1), pat@)));
        }
        out.push(v[i]);
        i = i + 1;
    }
    proof {
        assert(v@.skip(i as int) =~= Seq::<char>::empty());
        assert(out@ + Seq::<char>::empty() =~= out@);
    }
    out
}

/// `v` without its trailing commas and white space.
fn trim_trailing_commas(v: &Vec<char>) -> (r: Vec<char>)
    ensures
        r@ == trim_end_by(v@, |c: char| comma_or_ws(c)),
{
    let ghost p = |c: char| comma_or_ws(c);
    let mut j: usize = v.len();
    while j > 0 && (v[j - 1] == ',' || is_whitespace(v[j - 1]))
        invariant
            j <= v.len(),
            p == (|c: char| comma_or_ws(c)),
            forall|k: int| j <= k < v.len() ==> p(#[trigger] v@[k]),
        decreases j,
    {
        j = j - 1;
    }
    proof {
        lemma_trim_end_take(v@, p, j as int);
        if j > 0 {
            assert(v@.take(j as int).last() == v@[j - 1]);
        } else {
            assert(v@.take(0) =~= Seq::<char>::empty());
        }
    }
    let mut out: Vec<char> = Vec::new();
    let mut k: usize = 0;
    while k < j
        invariant
            k <= j <= v.len(),
            out@ == v@.take(k as int),
        decreases j - k,
    {
        out.push(v[k]);
        k = k + 1;
        proof {
            assert(out@ =~= v@.take(k as int));
        }
    }
    out
}

/// The author named in an author line, as [`author_from_line`] describes.
pub fn author_in_line(raw: &str) -> (r: String)
    ensures
        r@ == author_from_line(raw@),
{
    let cleaned = chars_of(clean_text(raw).as_str());
    let label = chars_of("Thể loại:");
    let head = cut_before(&cleaned, &label);
    let trimmed = chars_of(trim_str(string_of(head.as_slice()).as_str()).as_str());
    let out = trim_trailing_commas(&trimmed);
    string_of(out.as_slice())
}

/// The author a main page names, as [`author_of`] describes.
pub fn extract_author_from_main_page(html_source: &str) -> (r: Option<String>)
    ensures
        r.deep_view() == author_of(html_source@),
{
    let body = document_text(html_source);
    match regex_capture_first(AUTHOR_PATTERN, body.as_str(), 1) {
        Some(Some(raw)) => {
            let a = author_in_line(raw.as_str());
            if is_empty_str(a.as_str()) { None } else { Some(a) }
        },
        _ => None,
    }
}

/// The selectors a cover image is looked for with, most specific first.
pub open spec fn cover_selectors() -> Seq<Seq<char>> {
    seq!["img.lazyloaded"@, "img.lazyload"@, ".book-img img"@, ".detail-info img"@, ".info-img img"@, "img"@]
}

/// The image address an element carries: its `src`, else `data-src`, else
/// `data-original`, else `data-lazy-src`.
pub open spec fn image_source(attrs: Seq<(Seq<char>, Seq<char>)>) -> Option<Seq<char>> {
    match attr_value(attrs, "src"@) {
        Some(v) => Some(v),
        None => match attr_value(attrs, "data-src"@) {
            Some(v) => Some(v),
            None => match attr_value(attrs, "data-original"@) {
                Some(v) => Some(v),
                None => attr_value(attrs, "data-lazy-src"@),
            },
        },
    }
}

/// The absolute cover address an image yields: its address trimmed,
/// unless empty or a `data:` URI, resolved against the main page.
pub open spec fn image_cover(main_url: Seq<char>, e: ElementView) -> Option<Seq<char>> {
    match image_source(e.1) {
        None => None,
        Some(v) => {
            let raw = trim(v);
            if raw.len() == 0 || occurs_at(raw, 0, "data:"@) {
                None
            } else {
                match joined_url(main_url, raw) {
                    Some(u) => Some(u.0),
                    None => None,
                }
            }
        },
    }
}

/// The first cover address the images `es` yield.
pub open spec fn first_cover(main_url: Seq<char>, es: Seq<ElementView>) -> Option<Seq<char>>
    decreases es.len(),
{
    if es.len() == 0 {
        None
    } else {
        match image_cover(main_url, es[0]) {
            Some(u) => Some(u),
            None => first_cover(main_url, es.skip(1)),
        }
    }
}

/// The first cover address found trying `selectors` in order.
pub open spec fn cover_by(main_url: Seq<char>, html: Seq<char>, selectors: Seq<Seq<char>>) -> Option<Seq<char>>
    decreases selectors.len(),
{
    if selectors.len() == 0 {
        None
    } else {
        match selected_elements(html, selectors[0]) {
            None => None,
            Some(es) => match first_cover(main_url, es) {
                Some(u) => Some(u),
                None => cover_by(main_url, html, selectors.skip(1)),
            },
        }
    }
}

/// A novel's cover image address, from its main page at `main_url`: the
/// first image found by [`cover_selectors`] that yields an address; none
/// when `main_url` is not a URL.
pub open spec fn cover_of(main_url: Seq<char>, html: Seq<char>) -> Option<Seq<char>> {
    match parsed_url(main_url) {
        None => None,
        Some(_) => cover_by(main_url, html, cover_selectors()),
    }
}

/// The address an image carries, as [`image_source`] describes.
fn source_of_image(e: &Element) -> (r: Option<String>)
    ensures
        r.deep_view() == image_source(e.deep_view().1),
{
    if let Some(v) = attribute(e, "src") {
        return Some(v);
    }
    if let Some(v) = attribute(e, "data-src") {
        return Some(v);
    }
    if let Some(v) = attribute(e, "data-original") {
        return Some(v);
    }
    attribute(e, "data-lazy-src")
}

/// The cover address an image yields, as [`image_cover`] describes.
fn cover_of_image(main_url: &str, e: &Element) -> (r: Option<String>)
    ensures
        r.deep_view() == image_cover(main_url@, e.deep_view()),
{
    let v = match source_of_image(e) {
        Some(v) => v,
        None => return None,
    };
    let raw = trim_str(v.as_str());
    let rv = chars_of(raw.as_str());
    let prefix = chars_of("data:");
    if rv.len() == 0 || matches_at(&rv, 0, &prefix) {
        return None;
    }
    match join_url(main_url, raw.as_str()) {
        Some(u) => Some(u.href),
        None => None,
    }
}

/// A novel's cover image address, as [`cover_of`] describes.
pub fn extract_cover_image_url(novel_main_url: &str, html_source: &str) -> (r: Option<String>)
    ensures
        r.deep_view() == cover_of(novel_main_url@, html_source@),
{
    if parse_url(novel_main_url).is_none() {
        return None;
    }
    let selectors: Vec<&str> = vec!["img.lazyloaded", "img.lazyload", ".book-img img", ".detail-info img", ".info-img img", "img"];
    let ghost sv = selectors@.map_values(|x: &str| x@);
    proof {
        assert(sv =~= cover_selectors());
        assert(sv.skip(0) =~= sv);
    }
    let mut k: usize = 0;
    while k < selectors.len()
        invariant
            k <= selectors.len(),
            sv == selectors@.map_values(|x: &str| x@),
            parsed_url(novel_main_url@) is Some,
            cover_of(novel_main_url@, html_source@) == cover_by(novel_main_url@, html_source@, sv.skip(k as int)),
        decreases selectors.len() - k,
    {
        proof {
            assert(sv.skip(k as int)[0] == selectors@[k as int]@);
            assert(sv.skip(k as int).skip(1) =~= sv.skip(k + 1));
        }
        let es = match select_elements(html_source, selectors[k]) {
            Some(es) => es,
            None => return None,
        };
        let ghost ev = es.deep_view();
        proof {
            assert(ev.skip(0) =~= ev);
        }
        let mut i: usize = 0;
        while i < es.len()
            invariant
                i <= es.len(),
                ev == es.deep_view(),
                first_cover(novel_main_url@, ev) == first_cover(novel_main_url@, ev.skip(i as int)),
                selected_elements(html_source@, sv.skip(k as int)[0]) == Some(ev),
                cover_of(novel_main_url@, html_source@) == cover_by(novel_main_url@, html_source@, sv.skip(k as int)),
                k < sv.len(),
            decreases es.len() - i,
        {
            proof {
                assert(ev.skip(i as int)[0] == es@[i as int].deep_view());
                assert(ev.skip(i as int).skip(1) =~= ev.skip(i + 1));
            }
            if let Some(u) = cover_of_image(novel_main_url, &es[i]) {
                return Some(u);
            }
            i = i + 1;
        }
        k = k + 1;
    }
    None
}

} // verus!
