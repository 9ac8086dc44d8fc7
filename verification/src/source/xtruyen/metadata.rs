//! Novel-page extractors. One fetch of the novel page yields everything the
//! EPUB needs plus the two chapter addresses the index walk starts from.

use vstd::prelude::*;
use crate::html::{
    attr_value, attribute, select_elements, select_text, select_within, selected_elements, selected_texts,
    selected_within, Element, ElementView,
};
use crate::utils::{first_clean, first_clean_text};
use crate::text::{chars_of, is_empty_str, owned, str_result};
use crate::utils::{clean, clean_text, contains, contains_chars};

verus! {

/// Label of the metadata row holding the publication status.
pub const STATUS_LABEL: &'static str = "Trạng thái";

/// Everything the novel page carries, as read in one pass.
#[derive(Clone, Debug, Default, PartialEq, Eq)]
pub struct NovelPage {
    /// Display title.
    pub title: String,
    /// Author name when the page names one.
    pub author: Option<String>,
    /// Synopsis when the page carries one.
    pub description: Option<String>,
    /// Publication status when the page states one.
    pub status: Option<String>,
    /// Cover image address when the page advertises one.
    pub cover_url: Option<String>,
    /// Address of the novel's first chapter, as written on the page.
    pub first_chapter_href: Option<String>,
    /// Address of the novel's latest chapter, as written on the page.
    pub latest_chapter_href: Option<String>,
}

/// The plain-value form of a [`NovelPage`], field by field.
pub type NovelPageView = (
    Seq<char>,
    Option<Seq<char>>,
    Option<Seq<char>>,
    Option<Seq<char>>,
    Option<Seq<char>>,
    Option<Seq<char>>,
    Option<Seq<char>>,
);

impl View for NovelPage {
    type V = NovelPageView;

    open spec fn view(&self) -> NovelPageView {
        (
            self.title@,
            self.author.deep_view(),
            self.description.deep_view(),
            self.status.deep_view(),
            self.cover_url.deep_view(),
            self.first_chapter_href.deep_view(),
            self.latest_chapter_href.deep_view(),
        )
    }
}

/// The attribute `attr` of the first element `selector` finds in `html`.
pub open spec fn first_attr(html: Seq<char>, selector: Seq<char>, attr: Seq<char>) -> Option<Seq<char>> {
    match selected_elements(html, selector) {
        Some(es) => if es.len() > 0 { attr_value(es[0].1, attr) } else { None },
        None => None,
    }
}

/// The attribute `attr` of the first element `selector` finds, as
/// [`first_attr`] describes.
pub fn first_attribute(html: &str, selector: &str, attr: &str) -> (r: Option<String>)
    ensures
        r.deep_view() == first_attr(html@, selector@, attr@),
{
    match select_elements(html, selector) {
        Some(es) => if es.len() > 0 { attribute(&es[0], attr) } else { None },
        None => None,
    }
}

/// The title a novel page gives: the `og:title` metadata, which carries the
/// published casing (the visible heading is upper-cased in the markup),
/// else the `.post-title` heading; either cleaned.
pub open spec fn raw_title(html: Seq<char>) -> Option<Seq<char>> {
    match first_attr(html, "meta[property=\"og:title\"]"@, "content"@) {
        Some(c) => Some(clean(c)),
        None => match selected_texts(html, ".post-title"@) {
            Some(ts) => if ts.len() > 0 { Some(clean(ts[0])) } else { None },
            None => None,
        },
    }
}

/// The `href`s the elements `es` carry, in order, skipping those without.
pub open spec fn hrefs_of(es: Seq<ElementView>) -> Seq<Seq<char>> {
    es.map_values(|e: ElementView| match attr_value(e.1, "href"@) {
        Some(h) => seq![h],
        None => Seq::empty(),
    }).flatten()
}

/// The `href`s of the first- and last-chapter buttons, in that order.
pub open spec fn init_hrefs(html: Seq<char>) -> Seq<Seq<char>> {
    match selected_elements(html, "#init-links a"@) {
        Some(es) => hrefs_of(es),
        None => Seq::empty(),
    }
}

/// The value of the first metadata row among `items` whose label contains
/// `label` and whose value is not empty. Each item carries its label
/// elements and then its value elements.
pub open spec fn row_value(items: Seq<(ElementView, Seq<Seq<ElementView>>)>, label: Seq<char>) -> Option<Seq<char>>
    decreases items.len(),
{
    if items.len() == 0 {
        None
    } else {
        let inner = items[0].1;
        let found = if inner.len() == 2 && inner[0].len() > 0 && contains(clean(inner[0][0].2), label) && inner[1].len() > 0
            && clean(inner[1][0].2).len() > 0 {
            Some(clean(inner[1][0].2))
        } else {
            None
        };
        match found {
            Some(v) => Some(v),
            None => row_value(items.skip(1), label),
        }
    }
}

/// The selectors a metadata row's label and value are found with.
pub open spec fn row_parts() -> Seq<Seq<char>> {
    seq![".summary-heading"@, ".summary-content"@]
}

/// The value of the metadata row labeled `label`. The page states its rows
/// as a heading and a value rather than as classed fields, so the value is
/// found by its label.
pub open spec fn labeled(html: Seq<char>, label: Seq<char>) -> Option<Seq<char>> {
    match selected_within(html, ".post-content_item"@, row_parts()) {
        Some(items) => row_value(items, label),
        None => None,
    }
}

/// What a novel page yields: every field it carries, or the error for a
/// page that names no novel. Only the title is required: it names the output
/// directory and the EPUB.
pub open spec fn novel_page_of(html: Seq<char>) -> Result<NovelPageView, Seq<char>> {
    match raw_title(html) {
        Some(t) if t.len() > 0 => {
            let links = init_hrefs(html);
            Ok((
                t,
                first_clean(selected_texts(html, ".author-content"@)),
                first_clean(selected_texts(html, ".summary__content"@)),
                labeled(html, STATUS_LABEL@),
                first_attr(html, ".summary_image img"@, "src"@),
                if links.len() > 0 { Some(links[0]) } else { None },
                if links.len() > 1 { Some(links[1]) } else { first_attr(html, ".summary-content-chapter a"@, "href"@) },
            ))
        },
        _ => Err("page names no novel: no title found"@),
    }
}

/// The `href`s the elements carry, as [`hrefs_of`] describes.
pub fn collect_hrefs(es: &Vec<Element>) -> (r: Vec<String>)
    ensures
        r@.map_values(|s: String| s@) == hrefs_of(es.deep_view()),
{
    let ghost ev = es.deep_view();
    let ghost f = |e: ElementView| match attr_value(e.1, "href"@) {
        Some(h) => seq![h],
        None => Seq::empty(),
    };
    let mut out: Vec<String> = Vec::new();
    let mut i: usize = 0;
    while i < es.len()
        invariant
            i <= es.len(),
            ev == es.deep_view(),
            f == (|e: ElementView| match attr_value(e.1, "href"@) {
                Some(h) => seq![h],
                None => Seq::<Seq<char>>::empty(),
            }),
            out@.map_values(|s: String| s@) == ev.take(i as int).map_values(f).flatten(),
        decreases es.len() - i,
    {
        proof {
            assert(ev[i as int] == es@[i as int].deep_view());
            crate::text::lemma_flatten_map_step(ev, f, i as int);
        }
        match attribute(&es[i], "href") {
            Some(h) => {
                proof {
                    assert(out@.push(h).map_values(|s: String| s@) =~= out@.map_values(|s: String| s@) + seq![h@]);
                }
                out.push(h);
            },
            None => {
                proof {
                    assert(out@.map_values(|s: String| s@) + Seq::<Seq<char>>::empty() =~= out@.map_values(|s: String| s@));
                }
            },
        }
        i = i + 1;
    }
    proof {
        assert(ev.take(es.len() as int) =~= ev);
    }
    out
}

/// The value of the first row among `items` labeled `label`, as
/// [`row_value`] describes. Each item carries the elements its label and
/// value selectors found.
pub fn row_value_of(items: &Vec<(Element, Vec<Vec<Element>>)>, label: &str) -> (r: Option<String>)
    ensures
        r.deep_view() == row_value(items.deep_view(), label@),
{
    let lv = chars_of(label);
    let ghost iv = items.deep_view();
    proof {
        assert(iv.skip(0) =~= iv);
    }
    let mut i: usize = 0;
    while i < items.len()
        invariant
            i <= items.len(),
            iv == items.deep_view(),
            lv@ == label@,
            row_value(iv, label@) == row_value(iv.skip(i as int), label@),
        decreases items.len() - i,
    {
        proof {
            assert(iv.skip(i as int)[0] == items@[i as int].deep_view());
            assert(iv.skip(i as int).skip(1) =~= iv.skip(i + 1));
        }
        let inner = &items[i].1;
        if inner.len() == 2 && inner[0].len() > 0 && inner[1].len() > 0 {
            proof {
                assert(inner.deep_view()[0] == inner@[0].deep_view());
                assert(inner.deep_view()[1] == inner@[1].deep_view());
                assert(inner@[0].deep_view()[0] == inner@[0]@[0].deep_view());
                assert(inner@[1].deep_view()[0] == inner@[1]@[0].deep_view());
            }
            let heading = chars_of(clean_text(inner[0][0].2.as_str()).as_str());
            if contains_chars(&heading, &lv) {
                let value = clean_text(inner[1][0].2.as_str());
                if !is_empty_str(value.as_str()) {
                    return Some(value);
                }
            }
        }
        i = i + 1;
    }
    None
}

/// The value of the metadata row labeled `label`, as [`labeled`] describes.
pub fn labeled_row(html: &str, label: &str) -> (r: Option<String>)
    ensures
        r.deep_view() == labeled(html@, label@),
{
    let parts: Vec<&str> = vec![".summary-heading", ".summary-content"];
    proof {
        assert(parts@.map_values(|s: &str| s@) =~= row_parts());
    }
    match select_within(html, ".post-content_item", &parts) {
        Some(items) => row_value_of(&items, label),
        None => None,
    }
}

/// Read every field the novel page carries, as [`novel_page_of`] describes.
/// Every field but the title degrades to `None`.
pub fn parse_novel_page(html: &str) -> (r: Result<NovelPage, String>)
    ensures
        match r {
            Ok(p) => novel_page_of(html@) == Ok::<NovelPageView, Seq<char>>(p@),
            Err(e) => novel_page_of(html@) == Err::<NovelPageView, Seq<char>>(e@),
        },
{
    let title = match first_attribute(html, "meta[property=\"og:title\"]", "content") {
        Some(c) => Some(clean_text(c.as_str())),
        None => match select_text(html, ".post-title") {
            Some(ts) => if ts.len() > 0 { Some(clean_text(ts[0].as_str())) } else { None },
            None => None,
        },
    };
    let title = match title {
        Some(t) => if is_empty_str(t.as_str()) { None } else { Some(t) },
        None => None,
    };
    let title = match title {
        Some(t) => t,
        None => return Err(owned("page names no novel: no title found")),
    };
    let links = match select_elements(html, "#init-links a") {
        Some(es) => collect_hrefs(&es),
        None => Vec::new(),
    };
    proof {
        assert(links@.map_values(|s: String| s@) == init_hrefs(html@));
        if links.len() > 0 {
            assert(links@.map_values(|s: String| s@)[0] == links@[0]@);
        }
        if links.len() > 1 {
            assert(links@.map_values(|s: String| s@)[1] == links@[1]@);
        }
    }
    let first_chapter_href = if links.len() > 0 { Some(owned(links[0].as_str())) } else { None };
    let latest_chapter_href = if links.len() > 1 {
        Some(owned(links[1].as_str()))
    } else {
        first_attribute(html, ".summary-content-chapter a", "href")
    };
    Ok(NovelPage {
        title,
        author: first_clean_text(&select_text(html, ".author-content")),
        description: first_clean_text(&select_text(html, ".summary__content")),
        status: labeled_row(html, STATUS_LABEL),
        cover_url: first_attribute(html, ".summary_image img", "src"),
        first_chapter_href,
        latest_chapter_href,
    })
}

} // verus!
