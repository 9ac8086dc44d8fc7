//! Finding the newest chapter of a metruyenhot novel from its pages: the
//! pagination's "last page" link, and the highest `chuong-N` link.

use vstd::prelude::*;
use crate::html::{select_attr, selected_attrs};
use crate::text::{chars_of, concat, owned, parse_u32, parsed_u32, string_of};
use crate::urls::{join_url, joined_url, parse_url, parsed_url};
use crate::utils::{matches_at, trim_chars, trim_end_char, trim_end_by, trim_pred};

verus! {

/// The pagination's "jump to the last page" link.
pub const LAST_PAGE_SELECTOR: &'static str = "div.pagination li.nexts a[href]";

/// Every link on a page.
pub const LINK_SELECTOR: &'static str = "a[href]";

/// The absolute address of the last-page link, from the links found and the
/// page's own URL.
pub open spec fn last_page_of(links: Option<Seq<Option<Seq<char>>>>, main_url: Seq<char>) -> Option<Seq<char>> {
    match links {
        None => None,
        Some(l) => if l.len() == 0 {
            None
        } else {
            match l[0] {
                None => None,
                Some(href) => match joined_url(main_url, href) {
                    None => None,
                    Some(u) => Some(u.0),
                },
            }
        },
    }
}

/// Return the absolute URL of the pagination "jump to last page" link on the
/// novel main page, or `None` when there is none (a single-page chapter
/// list). A relative href is resolved against `main_url`.
pub fn find_last_page_url(html: &str, main_url: &str) -> (r: Option<String>)
    ensures
        r.deep_view() == last_page_of(selected_attrs(html@, LAST_PAGE_SELECTOR@, "href"@), main_url@),
{
    let links = select_attr(html, LAST_PAGE_SELECTOR, "href");
    match links {
        None => None,
        Some(l) => {
            if l.len() == 0 {
                return None;
            }
            match &l[0] {
                None => None,
                Some(href) => match join_url(main_url, href.as_str()) {
                    None => None,
                    Some(u) => Some(u.href),
                },
            }
        },
    }
}

/// The path prefix a chapter of the novel at `novel_path` lives under.
pub open spec fn chuong_prefix(novel_path: Seq<char>) -> Seq<char> {
    trim_end_char(novel_path, '/') + "/chuong-"@
}

/// The chapter number a link names, when it resolves (against `main_url`) to
/// a path of the form `<prefix>N` or `<prefix>N/`.
pub open spec fn linked_chapter(href: Option<Seq<char>>, main_url: Seq<char>, prefix: Seq<char>) -> Option<u32> {
    match href {
        None => None,
        Some(h) => match joined_url(main_url, h) {
            None => None,
            Some(u) => {
                let path = u.2;
                if path.len() >= prefix.len() && path.take(prefix.len() as int) == prefix {
                    parsed_u32(trim_end_char(path.skip(prefix.len() as int), '/'))
                } else {
                    None
                }
            },
        },
    }
}

/// The largest chapter number among the links.
pub open spec fn max_linked(hrefs: Seq<Option<Seq<char>>>, main_url: Seq<char>, prefix: Seq<char>) -> Option<u32>
    decreases hrefs.len(),
{
    if hrefs.len() == 0 {
        None
    } else {
        let rest = max_linked(hrefs.drop_last(), main_url, prefix);
        match linked_chapter(hrefs.last(), main_url, prefix) {
            None => rest,
            Some(n) => match rest {
                None => Some(n),
                Some(m) => Some(if m < n { n } else { m }),
            },
        }
    }
}

/// The highest chapter a page links to, from its links and its own URL.
pub open spec fn max_chapter_of(html: Seq<char>, main_url: Seq<char>) -> Option<u32> {
    match selected_attrs(html, LINK_SELECTOR@, "href"@) {
        None => None,
        Some(hrefs) => match parsed_url(main_url) {
            None => None,
            Some(base) => max_linked(hrefs, main_url, chuong_prefix(base.2)),
        },
    }
}

/// [`linked_chapter`].
fn chapter_of_link(href: &Option<String>, main_url: &str, prefix: &Vec<char>) -> (r: Option<u32>)
    ensures
        r == linked_chapter(href.deep_view(), main_url@, prefix@),
{
    let h = match href {
        None => return None,
        Some(h) => h,
    };
    let u = match join_url(main_url, h.as_str()) {
        None => return None,
        Some(u) => u,
    };
    let path = chars_of(u.path.as_str());
    if !matches_at(&path, 0, prefix) {
        proof {
            if path@.len() >= prefix@.len() {
                assert(path@.subrange(0, prefix@.len() as int) =~= path@.take(prefix@.len() as int));
            }
        }
        return None;
    }
    proof {
        assert(path@.subrange(0, prefix@.len() as int) =~= path@.take(prefix@.len() as int));
    }
    let mut rest: Vec<char> = Vec::new();
    let mut j: usize = prefix.len();
    while j < path.len()
        invariant
            prefix.len() <= j <= path.len(),
            rest@ == path@.subrange(prefix.len() as int, j as int),
        decreases path.len() - j,
    {
        rest.push(path[j]);
        j = j + 1;
        proof {
            assert(rest@ =~= path@.subrange(prefix.len() as int, j as int));
        }
    }
    proof {
        assert(rest@ =~= path@.skip(prefix.len() as int));
    }
    let trimmed = trim_chars(&rest, false, '/', false, true);
    parse_u32(string_of(trimmed.as_slice()).as_str())
}

/// Scan every `<a href>` on the page and return the largest `N` among the
/// links whose absolute path is `<novel path>/chuong-N[/]`, the novel path
/// taken from `main_url`. Matching the path rather than the origin follows
/// the sibling hosts that serve the same layout while rejecting links to
/// other novels. `None` when no such link is present.
pub fn max_chapter_in_html(html: &str, main_url: &str) -> (r: Option<u32>)
    ensures
        r == max_chapter_of(html@, main_url@),
{
    let hrefs = match select_attr(html, LINK_SELECTOR, "href") {
        None => return None,
        Some(h) => h,
    };
    let base = match parse_url(main_url) {
        None => return None,
        Some(b) => b,
    };
    let bp = chars_of(base.path.as_str());
    let mut prefix = trim_chars(&bp, false, '/', false, true);
    let suffix = chars_of("/chuong-");
    let mut s: usize = 0;
    while s < suffix.len()
        invariant
            s <= suffix.len(),
            prefix@ == trim_end_char(bp@, '/') + suffix@.take(s as int),
        decreases suffix.len() - s,
    {
        prefix.push(suffix[s]);
        s = s + 1;
        proof {
            assert(prefix@ =~= trim_end_char(bp@, '/') + suffix@.take(s as int));
        }
    }
    proof {
        assert(suffix@.take(suffix.len() as int) =~= suffix@);
    }
    let ghost hv = hrefs.deep_view();
    let mut best: Option<u32> = None;
    let mut i: usize = 0;
    while i < hrefs.len()
        invariant
            i <= hrefs.len(),
            hv == hrefs.deep_view(),
            prefix@ == chuong_prefix(base.path@),
            best == max_linked(hv.take(i as int), main_url@, prefix@),
        decreases hrefs.len() - i,
    {
        proof {
            assert(hv.take(i as int + 1).drop_last() =~= hv.take(i as int));
            assert(hv.take(i as int + 1).last() == hrefs@[i as int].deep_view());
        }
        match chapter_of_link(&hrefs[i], main_url, &prefix) {
            None => {},
            Some(n) => {
                best = match best {
                    None => Some(n),
                    Some(m) => Some(if m < n { n } else { m }),
                };
            },
        }
        i = i + 1;
    }
    proof {
        assert(hv.take(hrefs.len() as int) =~= hv);
    }
    best
}

/// The highest chapter a main page links to, or why there is none.
pub open spec fn last_chapter_of(html: Seq<char>, main_url: Seq<char>) -> Result<u32, Seq<char>> {
    match max_chapter_of(html, main_url) {
        Some(n) => Ok(n),
        None => Err("Could not find any /chuong-N/ links on "@ + main_url + "."@),
    }
}

/// The highest chapter number visible in an already-fetched novel main
/// page. Errors when no `/chuong-N/` link is present.
pub fn discover_last_chapter_number_from_html(html: &str, main_url: &str) -> (r: Result<u32, String>)
    ensures
        match r {
            Ok(n) => last_chapter_of(html@, main_url@) == Ok::<u32, Seq<char>>(n),
            Err(e) => last_chapter_of(html@, main_url@) == Err::<u32, Seq<char>>(e@),
        },
{
    match max_chapter_in_html(html, main_url) {
        Some(n) => Ok(n),
        None => {
            let mut m = concat("Could not find any /chuong-N/ links on ", main_url);
            m.append(".");
            Err(m)
        },
    }
}

/// The highest chapter a novel lists, from its main page and, when its
/// chapter list is paged, the last page of that list (fetched from
/// `scan_url`): the last page carries the newest chapters, but the main page
/// stands in should the last page show no chapter links, as under-reporting
/// beats failing.
pub open spec fn last_listed_chapter(main_html: Seq<char>, main_url: Seq<char>, last_page: Option<(Seq<char>, Seq<char>)>) -> Result<u32, Seq<char>> {
    match last_page {
        None => match max_chapter_of(main_html, main_url) {
            Some(n) => Ok(n),
            None => Err("No chapter links on "@ + main_url + "."@),
        },
        Some((scan_url, last_html)) => match max_chapter_of(last_html, main_url) {
            Some(n) => Ok(n),
            None => match max_chapter_of(main_html, main_url) {
                Some(n) => Ok(n),
                None => Err("No chapter links on "@ + scan_url + " or "@ + main_url + "."@),
            },
        },
    }
}

/// The highest chapter a novel lists, as [`last_listed_chapter`] describes;
/// `last_page` is the address and the text of the chapter list's last page,
/// when [`find_last_page_url`] named one.
pub fn last_chapter_listed(main_html: &str, main_url: &str, last_page: Option<(&str, &str)>) -> (r: Result<u32, String>)
    ensures
        match r {
            Ok(n) => last_listed_chapter(main_html@, main_url@, match last_page { Some((u, h)) => Some((u@, h@)), None => None })
                == Ok::<u32, Seq<char>>(n),
            Err(e) => last_listed_chapter(main_html@, main_url@, match last_page { Some((u, h)) => Some((u@, h@)), None => None })
                == Err::<u32, Seq<char>>(e@),
        },
{
    match last_page {
        None => match max_chapter_in_html(main_html, main_url) {
            Some(n) => Ok(n),
            None => {
                let mut m = concat("No chapter links on ", main_url);
                m.append(".");
                Err(m)
            },
        },
        Some((scan_url, last_html)) => match max_chapter_in_html(last_html, main_url) {
            Some(n) => Ok(n),
            None => match max_chapter_in_html(main_html, main_url) {
                Some(n) => Ok(n),
                None => {
                    let mut m = concat("No chapter links on ", scan_url);
                    m.append(" or ");
                    m.append(main_url);
                    m.append(".");
                    Err(m)
                },
            },
        },
    }
}

} // verus!
