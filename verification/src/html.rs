//! HTML parsing and CSS selection, provided by the `scraper` crate. A
//! document is handed to the rest of the library as the plain values the
//! logic reads off its elements: each element's tag name, its attributes in
//! source order, and its text. Attribute order is fixed because the crate is
//! built with scraper's `deterministic` feature, which keeps attributes in an
//! insertion-ordered map (without it they sit in a per-process seeded hash
//! map and come out in no fixed order).

use scraper::{ElementRef, Html, Selector};
use vstd::prelude::*;
use crate::text::{owned, str_eq};

verus! {

/// One element taken apart: tag name, attributes (local name and value, in
/// source order), and text (every descendant text node,
/// concatenated).
pub type Element = (String, Vec<(String, String)>, String);

/// The plain-value form of an [`Element`].
pub type ElementView = (Seq<char>, Seq<(Seq<char>, Seq<char>)>, Seq<char>);

/// The elements of the document `html` that `selector` selects, in document
/// order; `None` when the selector does not parse.
pub uninterp spec fn selected_elements(html: Seq<char>, selector: Seq<char>) -> Option<Seq<ElementView>>;

/// The elements of the fragment `html` that `selector` selects, in document
/// order; `None` when the selector does not parse.
pub uninterp spec fn selected_fragment_elements(html: Seq<char>, selector: Seq<char>) -> Option<Seq<ElementView>>;

/// The element children of the first element of the document `html` that
/// `selector` selects, each with its descendants that `inner` selects;
/// `Some(None)` when nothing is selected, `None` when a selector does not
/// parse.
pub uninterp spec fn selected_children(html: Seq<char>, selector: Seq<char>, inner: Seq<char>) -> Option<Option<Seq<(ElementView, Seq<ElementView>)>>>;

/// The elements of the document `html` that `outer` selects, in document
/// order, each with, for each of the `inners` selectors in turn, its
/// descendants that selector selects; `None` when a selector does not parse.
pub uninterp spec fn selected_within(html: Seq<char>, outer: Seq<char>, inners: Seq<Seq<char>>) -> Option<Seq<(ElementView, Seq<Seq<ElementView>>)>>;

/// The element siblings that follow the first element of the document
/// `html` that `selector` selects; `Some(None)` when nothing is selected,
/// `None` when the selector does not parse.
pub uninterp spec fn selected_following_siblings(html: Seq<char>, selector: Seq<char>) -> Option<Option<Seq<ElementView>>>;

/// The text of the document `html`: every text node under its root
/// element, concatenated.
pub uninterp spec fn root_text(html: Seq<char>) -> Seq<char>;

/// Parse `html` as a document and collect the text under its root element
/// (`root_element().text()`).
#[verifier::external_body]
pub(crate) fn document_text(html: &str) -> (r: String)
    ensures
        r@ == root_text(html@),
{
    Html::parse_document(html).root_element().text().collect()
}

/// Parse `html` as a document (`Html::parse_document`) and take
/// apart each element `selector` (`Selector::parse`) selects.
#[verifier::external_body]
pub(crate) fn select_elements(html: &str, selector: &str) -> (r: Option<Vec<Element>>)
    ensures
        r.deep_view() == selected_elements(html@, selector@),
{
    let sel = Selector::parse(selector).ok()?;
    let doc = Html::parse_document(html);
    let parts = |e: ElementRef| (e.value().name().to_string(),
        e.value().attrs().map(|(k, v)| (k.to_string(), v.to_string())).collect(), e.text().collect());
    Some(doc.select(&sel).map(parts).collect())
}

/// Parse `html` as a fragment (`Html::parse_fragment`) and take
/// apart each element `selector` selects.
#[verifier::external_body]
pub(crate) fn select_fragment_elements(html: &str, selector: &str) -> (r: Option<Vec<Element>>)
    ensures
        r.deep_view() == selected_fragment_elements(html@, selector@),
{
    let sel = Selector::parse(selector).ok()?;
    let doc = Html::parse_fragment(html);
    let parts = |e: ElementRef| (e.value().name().to_string(),
        e.value().attrs().map(|(k, v)| (k.to_string(), v.to_string())).collect(), e.text().collect());
    Some(doc.select(&sel).map(parts).collect())
}

/// Parse `html` as a document, find the first element `selector` selects,
/// and take apart each of its element children (`child_elements`) together
/// with the descendants `inner` selects.
#[verifier::external_body]
pub(crate) fn select_children(html: &str, selector: &str, inner: &str) -> (r: Option<Option<Vec<(Element, Vec<Element>)>>>)
    ensures
        r.deep_view() == selected_children(html@, selector@, inner@),
{
    let (sel, inner) = (Selector::parse(selector).ok()?, Selector::parse(inner).ok()?);
    let doc = Html::parse_document(html);
    let parts = |e: ElementRef| (e.value().name().to_string(),
        e.value().attrs().map(|(k, v)| (k.to_string(), v.to_string())).collect(), e.text().collect());
    Some(doc.select(&sel).next().map(|root| root.child_elements()
        .map(|c| (parts(c), c.select(&inner).map(parts).collect())).collect()))
}

/// Parse `html` as a document and take apart each element `outer` selects,
/// together with, for each of the `inners` selectors, the descendants of that
/// element it selects (`ElementRef::select`).
#[verifier::external_body]
pub(crate) fn select_within(html: &str, outer: &str, inners: &Vec<&str>) -> (r: Option<Vec<(Element, Vec<Vec<Element>>)>>)
    ensures
        r.deep_view() == selected_within(html@, outer@, inners@.map_values(|s: &str| s@)),
{
    let sel = Selector::parse(outer).ok()?;
    let inner: Vec<Selector> = inners.iter().map(|i| Selector::parse(i).ok()).collect::<Option<_>>()?;
    let doc = Html::parse_document(html);
    let parts = |e: ElementRef| (e.value().name().to_string(),
        e.value().attrs().map(|(k, v)| (k.to_string(), v.to_string())).collect(), e.text().collect());
    Some(doc.select(&sel).map(|e| (parts(e), inner.iter().map(|i| e.select(i).map(parts).collect()).collect())).collect())
}

/// Parse `html` as a document, find the first element `selector` selects,
/// and take apart each element among its following siblings
/// (`next_siblings`, element nodes only).
#[verifier::external_body]
pub(crate) fn select_following_siblings(html: &str, selector: &str) -> (r: Option<Option<Vec<Element>>>)
    ensures
        r.deep_view() == selected_following_siblings(html@, selector@),
{
    let sel = Selector::parse(selector).ok()?;
    let doc = Html::parse_document(html);
    let parts = |e: ElementRef| (e.value().name().to_string(),
        e.value().attrs().map(|(k, v)| (k.to_string(), v.to_string())).collect(), e.text().collect());
    Some(doc.select(&sel).next().map(|e| e.next_siblings().filter_map(ElementRef::wrap).map(parts).collect()))
}

/// The value of the attribute `name` among `attrs`: the first pair with
/// that name.
pub open spec fn attr_value(attrs: Seq<(Seq<char>, Seq<char>)>, name: Seq<char>) -> Option<Seq<char>>
    decreases attrs.len(),
{
    if attrs.len() == 0 {
        None
    } else if attrs[0].0 == name {
        Some(attrs[0].1)
    } else {
        attr_value(attrs.skip(1), name)
    }
}

/// The value paired with `name` in `pairs`: the first pair with that name.
pub fn pair_value(pairs: &Vec<(String, String)>, name: &str) -> (r: Option<String>)
    ensures
        r.deep_view() == attr_value(pairs.deep_view(), name@),
{
    let ghost av = pairs.deep_view();
    let mut i: usize = 0;
    proof {
        assert(av.skip(0) =~= av);
    }
    while i < pairs.len()
        invariant
            i <= pairs.len(),
            av == pairs.deep_view(),
            attr_value(av, name@) == attr_value(av.skip(i as int), name@),
        decreases pairs.len() - i,
    {
        proof {
            assert(av.skip(i as int)[0] == (pairs@[i as int].0@, pairs@[i as int].1@));
            assert(av.skip(i as int).skip(1) =~= av.skip(i + 1));
        }
        if str_eq(pairs[i].0.as_str(), name) {
            return Some(owned(pairs[i].1.as_str()));
        }
        i = i + 1;
    }
    None
}

/// The value of the attribute `name` of an element (`Element::attr`).
pub fn attribute(e: &Element, name: &str) -> (r: Option<String>)
    ensures
        r.deep_view() == attr_value(e.deep_view().1, name@),
{
    pair_value(&e.1, name)
}

/// For each element `selector` selects, its attribute `attr`.
pub open spec fn selected_attrs(html: Seq<char>, selector: Seq<char>, attr: Seq<char>) -> Option<Seq<Option<Seq<char>>>> {
    match selected_elements(html, selector) {
        None => None,
        Some(es) => Some(es.map_values(|e: ElementView| attr_value(e.1, attr))),
    }
}

/// For each element `selector` selects, its text.
pub open spec fn selected_texts(html: Seq<char>, selector: Seq<char>) -> Option<Seq<Seq<char>>> {
    match selected_elements(html, selector) {
        None => None,
        Some(es) => Some(es.map_values(|e: ElementView| e.2)),
    }
}

/// The attribute `attr` of each element of the document `html` that
/// `selector` selects.
pub fn select_attr(html: &str, selector: &str, attr: &str) -> (r: Option<Vec<Option<String>>>)
    ensures
        r.deep_view() == selected_attrs(html@, selector@, attr@),
{
    let es = match select_elements(html, selector) {
        None => return None,
        Some(es) => es,
    };
    let ghost ev = es.deep_view();
    let mut out: Vec<Option<String>> = Vec::new();
    let mut i: usize = 0;
    while i < es.len()
        invariant
            i <= es.len(),
            ev == es.deep_view(),
            out.deep_view() == ev.take(i as int).map_values(|e: ElementView| attr_value(e.1, attr@)),
        decreases es.len() - i,
    {
        let a = attribute(&es[i], attr);
        proof {
            assert(out.deep_view().push(a.deep_view()) =~= ev.take(i + 1).map_values(|e: ElementView| attr_value(e.1, attr@)));
        }
        out.push(a);
        proof {
            assert(out.deep_view() =~= ev.take(i + 1).map_values(|e: ElementView| attr_value(e.1, attr@)));
        }
        i = i + 1;
    }
    proof {
        assert(ev.take(es.len() as int) =~= ev);
    }
    Some(out)
}

/// The text of each element of the document `html` that `selector`
/// selects.
pub fn select_text(html: &str, selector: &str) -> (r: Option<Vec<String>>)
    ensures
        r.deep_view() == selected_texts(html@, selector@),
{
    let es = match select_elements(html, selector) {
        None => return None,
        Some(es) => es,
    };
    let ghost ev = es.deep_view();
    let mut out: Vec<String> = Vec::new();
    let mut i: usize = 0;
    while i < es.len()
        invariant
            i <= es.len(),
            ev == es.deep_view(),
            out.deep_view() == ev.take(i as int).map_values(|e: ElementView| e.2),
        decreases es.len() - i,
    {
        let t = owned(es[i].2.as_str());
        proof {
            assert(out.deep_view().push(t@) =~= ev.take(i + 1).map_values(|e: ElementView| e.2));
        }
        out.push(t);
        proof {
            assert(out.deep_view() =~= ev.take(i + 1).map_values(|e: ElementView| e.2));
        }
        i = i + 1;
    }
    proof {
        assert(ev.take(es.len() as int) =~= ev);
    }
    Some(out)
}

} // verus!
