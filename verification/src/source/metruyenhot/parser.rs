//! metruyenhot chapter-page parsing: which elements carry prose, the
//! CSS-hidden noise filter, and the obfuscated `contentS` splice. Nothing
//! here escapes the adapter except [`extract_full_chapter_text`].

use vstd::prelude::*;
use crate::html::{
    attr_value, attribute, select_children, select_fragment_elements, select_text, selected_children,
    selected_fragment_elements, selected_texts, Element, ElementView,
};
use crate::source::{content_result, ChapterContent};
use crate::utils::{first_clean, first_clean_text, first_nonempty, first_nonempty_text};
use crate::pattern::{
    regex_capture_first, regex_captures_all, regex_every_match, regex_first_group, regex_is_match, regex_matches,
};
use crate::source::registry::{ascii_lower, lower_char};
use crate::text::{chars_of, is_empty_str, lemma_flatten_map_step, lemma_views_append, owned, str_eq};
use crate::utils::{
    clean, clean_text, is_noise, is_ws, is_whitespace, lemma_views_push, matches_at, noise, occurs_at, views,
};

verus! {

/// Attributes that never carry chapter text: presentation and scripting.
pub open spec fn non_content_attrs() -> Seq<Seq<char>> {
    seq!["class"@, "style"@, "id"@, "onmousedown"@, "onselectstart"@, "oncopy"@, "oncut"@]
}

/// Whether the attribute `name` is, ignoring ASCII case, one of
/// [`non_content_attrs`].
pub open spec fn non_content(name: Seq<char>) -> bool {
    exists|k: int| 0 <= k < non_content_attrs().len() && #[trigger] non_content_attrs()[k] == ascii_lower(name)
}

/// The text an element's attributes offer: the cleaned value of the first
/// content attribute whose cleaned value is not empty.
pub open spec fn attr_line(attrs: Seq<(Seq<char>, Seq<char>)>) -> Option<Seq<char>>
    decreases attrs.len(),
{
    if attrs.len() == 0 {
        None
    } else if !non_content(attrs[0].0) && clean(attrs[0].1).len() > 0 {
        Some(clean(attrs[0].1))
    } else {
        attr_line(attrs.skip(1))
    }
}

/// The line an element contributes: its cleaned text, or when that is empty
/// the text its attributes offer.
pub open spec fn element_line(e: ElementView) -> Option<Seq<char>> {
    if clean(e.2).len() > 0 {
        Some(clean(e.2))
    } else {
        attr_line(e.1)
    }
}

/// Whether `w` holds no white space.
pub open spec fn no_ws(w: Seq<char>) -> bool {
    forall|k: int| 0 <= k < w.len() ==> !is_ws(#[trigger] w[k])
}

/// Whether `w` is the white-space-delimited token of `s` that starts at `i`.
pub open spec fn token_at(s: Seq<char>, i: int, w: Seq<char>) -> bool {
    &&& w.len() > 0
    &&& no_ws(w)
    &&& occurs_at(s, i, w)
    &&& (i == 0 || is_ws(s[i - 1]))
    &&& (i + w.len() == s.len() || is_ws(s[i + w.len()]))
}

/// Whether `w` is one of the white-space-separated tokens of `s`
/// (`split_whitespace`).
pub open spec fn has_token(s: Seq<char>, w: Seq<char>) -> bool {
    exists|i: int| token_at(s, i, w)
}

/// Whether an element is hidden noise: one of its classes is among the
/// `hidden` ones.
pub open spec fn hidden_element(e: ElementView, hidden: Seq<Seq<char>>) -> bool {
    &&& hidden.len() > 0
    &&& match attr_value(e.1, "class"@) {
        Some(c) => exists|k: int| 0 <= k < hidden.len() && has_token(c, #[trigger] hidden[k]),
        None => false,
    }
}

/// Whether the attribute `name` is one of [`non_content_attrs`], ignoring
/// ASCII case.
fn is_non_content(name: &str) -> (r: bool)
    ensures
        r == non_content(name@),
{
    let v = chars_of(name);
    let mut lower: Vec<char> = Vec::new();
    let mut i: usize = 0;
    while i < v.len()
        invariant
            i <= v.len(),
            v@ == name@,
            lower@ == ascii_lower(name@).take(i as int),
        decreases v.len() - i,
    {
        let c = lower_char(v[i]);
        lower.push(c);
        proof {
            assert(lower@ =~= ascii_lower(name@).take(i + 1));
        }
        i = i + 1;
    }
    proof {
        assert(lower@ =~= ascii_lower(name@));
    }
    let names: Vec<Vec<char>> = vec![
        chars_of("class"),
        chars_of("style"),
        chars_of("id"),
        chars_of("onmousedown"),
        chars_of("onselectstart"),
        chars_of("oncopy"),
        chars_of("oncut"),
    ];
    proof {
        assert(names@.map_values(|n: Vec<char>| n@) =~= non_content_attrs());
    }
    let mut k: usize = 0;
    while k < names.len()
        invariant
            k <= names.len(),
            names@.map_values(|n: Vec<char>| n@) == non_content_attrs(),
            lower@ == ascii_lower(name@),
            forall|j: int| 0 <= j < k ==> non_content_attrs()[j] != ascii_lower(name@),
        decreases names.len() - k,
    {
        proof {
            assert(names@.map_values(|n: Vec<char>| n@)[k as int] == names@[k as int]@);
        }
        if crate::text::chars_eq(&names[k], &lower) {
            return true;
        }
        k = k + 1;
    }
    false
}

/// The line an element contributes, as [`element_line`] describes.
pub fn line_of_element(e: &Element) -> (r: Option<String>)
    ensures
        r.deep_view() == element_line(e.deep_view()),
{
    let normal = clean_text(e.2.as_str());
    if !is_empty_str(normal.as_str()) {
        return Some(normal);
    }
    let attrs = &e.1;
    let ghost av = e.deep_view().1;
    proof {
        assert(av.skip(0) =~= av);
    }
    let mut i: usize = 0;
    while i < attrs.len()
        invariant
            i <= attrs.len(),
            av == attrs.deep_view(),
            av == e.deep_view().1,
            clean(e.deep_view().2).len() == 0,
            attr_line(av) == attr_line(av.skip(i as int)),
        decreases attrs.len() - i,
    {
        proof {
            assert(av.skip(i as int)[0] == (attrs@[i as int].0@, attrs@[i as int].1@));
            assert(av.skip(i as int).skip(1) =~= av.skip(i + 1));
        }
        if !is_non_content(attrs[i].0.as_str()) {
            let candidate = clean_text(attrs[i].1.as_str());
            if !is_empty_str(candidate.as_str()) {
                return Some(candidate);
            }
        }
        i = i + 1;
    }
    None
}

/// Whether `w` is one of the white-space-separated tokens of `s`.
fn token_in(s: &Vec<char>, w: &Vec<char>) -> (r: bool)
    ensures
        r == has_token(s@, w@),
{
    if w.len() == 0 || w.len() > s.len() {
        return false;
    }
    let mut j: usize = 0;
    while j < w.len()
        invariant
            j <= w.len(),
            forall|k: int| 0 <= k < j ==> !is_ws(#[trigger] w@[k]),
        decreases w.len() - j,
    {
        if is_whitespace(w[j]) {
            proof {
                assert(!no_ws(w@));
            }
            return false;
        }
        j = j + 1;
    }
    let last = s.len() - w.len();
    let mut i: usize = 0;
    while i <= last
        invariant
            last == s.len() - w.len(),
            w.len() > 0,
            no_ws(w@),
            forall|m: int| 0 <= m < i ==> !token_at(s@, m, w@),
        decreases last + 1 - i,
    {
        let before = i == 0 || is_whitespace(s[i - 1]);
        let after = i + w.len() == s.len() || is_whitespace(s[i + w.len()]);
        if before && after && matches_at(s, i, w) {
            proof {
                assert(token_at(s@, i as int, w@));
            }
            return true;
        }
        i = i + 1;
    }
    proof {
        assert forall|m: int| !token_at(s@, m, w@) by {
            if 0 <= m < i {
            }
        }
    }
    false
}

/// Whether an element is hidden noise, as [`hidden_element`] describes.
pub fn is_hidden(e: &Element, hidden: &Vec<String>) -> (r: bool)
    ensures
        r == hidden_element(e.deep_view(), hidden@.map_values(|h: String| h@)),
{
    let ghost hv = hidden@.map_values(|h: String| h@);
    if hidden.len() == 0 {
        return false;
    }
    let class = match attribute(e, "class") {
        Some(c) => c,
        None => return false,
    };
    let cv = chars_of(class.as_str());
    let mut k: usize = 0;
    while k < hidden.len()
        invariant
            k <= hidden.len(),
            hv == hidden@.map_values(|h: String| h@),
            hv.len() > 0,
            attr_value(e.deep_view().1, "class"@) == Some(class@),
            cv@ == class@,
            forall|j: int| 0 <= j < k ==> !has_token(class@, #[trigger] hv[j]),
        decreases hidden.len() - k,
    {
        let hk = chars_of(hidden[k].as_str());
        proof {
            assert(hv[k as int] == hidden@[k as int]@);
        }
        if token_in(&cv, &hk) {
            return true;
        }
        k = k + 1;
    }
    false
}

/// The `contentS` assignment in the page's inline script that carries the
/// injected paragraphs; dot-all, so the string may span lines.
pub const CONTENT_S_PATTERN: &'static str = "(?s)var\\s+contentS\\s*=\\s*'(.*?)';\\s*div\\.innerHTML";

/// One CSS rule: a selector list, then a `{ ... }` declaration block. Both
/// groups exclude braces so a match lands on the innermost rule, which keeps
/// it working for rules nested inside at-rules such as `@media`.
pub const CSS_RULE_PATTERN: &'static str = "(?s)([^{}]*)\\{([^{}]*)\\}";

/// A `.class-name` token inside a CSS selector.
pub const CSS_CLASS_PATTERN: &'static str = "\\.([A-Za-z0-9_-]+)";

/// A `display: none` declaration, white-space tolerant.
pub const DISPLAY_NONE_PATTERN: &'static str = "(?i)display\\s*:\\s*none";

/// Capture group `i` of a match, empty when it did not take part.
pub open spec fn group_text(m: Seq<Option<Seq<char>>>, i: int) -> Seq<char> {
    if 0 <= i < m.len() && m[i] is Some {
        m[i]->0
    } else {
        Seq::empty()
    }
}

/// The class names a CSS selector list mentions, in order.
pub open spec fn selector_classes(selectors: Seq<char>) -> Seq<Seq<char>> {
    match regex_every_match(CSS_CLASS_PATTERN@, selectors) {
        Some(ms) => ms.map_values(|m: Seq<Option<Seq<char>>>| group_text(m, 1)),
        None => Seq::empty(),
    }
}

/// The classes one CSS rule hides: those its selectors name when its
/// declarations say `display: none`.
pub open spec fn rule_hidden_classes(m: Seq<Option<Seq<char>>>) -> Seq<Seq<char>> {
    if regex_matches(DISPLAY_NONE_PATTERN@, group_text(m, 2)) == Some(true) {
        selector_classes(group_text(m, 1))
    } else {
        Seq::empty()
    }
}

/// The classes a style sheet hides, rule by rule.
pub open spec fn css_hidden_classes(css: Seq<char>) -> Seq<Seq<char>> {
    match regex_every_match(CSS_RULE_PATTERN@, css) {
        Some(ms) => ms.map_values(|m: Seq<Option<Seq<char>>>| rule_hidden_classes(m)).flatten(),
        None => Seq::empty(),
    }
}

/// The classes the `<style>` blocks of a page hide. The site hides its
/// injected promotional paragraphs under a class name that changes from page
/// to page, so the names are read off the page rather than fixed.
pub open spec fn hidden_classes(html: Seq<char>) -> Seq<Seq<char>> {
    match selected_texts(html, "style"@) {
        Some(ts) => ts.map_values(|t: Seq<char>| css_hidden_classes(t)).flatten(),
        None => Seq::empty(),
    }
}

/// An element of the `i`-th inner sequence is an element of the flattened
/// sequence.
proof fn lemma_flatten_has<A>(s: Seq<Seq<A>>, i: int, j: int)
    requires
        0 <= i < s.len(),
        0 <= j < s[i].len(),
    ensures
        s.flatten().contains(s[i][j]),
    decreases s.len(),
{
    let rest = s.drop_first().flatten();
    assert(s.flatten() == s[0] + rest);
    if i == 0 {
        assert((s[0] + rest)[j] == s[0][j]);
    } else {
        assert(s.drop_first()[i - 1] == s[i]);
        lemma_flatten_has(s.drop_first(), i - 1, j);
        let k = choose|k: int| 0 <= k < rest.len() && rest[k] == s[i][j];
        assert((s[0] + rest)[s[0].len() + k] == s[i][j]);
    }
}

/// Every class a hiding rule names is hidden: for any `<style>` block of the
/// page, any rule in it whose declarations say `display: none`, and any
/// `.class` token in that rule's selector list (the first, the last, or any
/// between), the class is among the page's hidden classes.
pub proof fn lemma_every_hiding_selector_class_is_hidden(
    html: Seq<char>,
    styles: Seq<Seq<char>>,
    s: int,
    rules: Seq<Seq<Option<Seq<char>>>>,
    r: int,
    classes: Seq<Seq<Option<Seq<char>>>>,
    c: int,
)
    requires
        selected_texts(html, "style"@) == Some(styles),
        0 <= s < styles.len(),
        regex_every_match(CSS_RULE_PATTERN@, styles[s]) == Some(rules),
        0 <= r < rules.len(),
        regex_matches(DISPLAY_NONE_PATTERN@, group_text(rules[r], 2)) == Some(true),
        regex_every_match(CSS_CLASS_PATTERN@, group_text(rules[r], 1)) == Some(classes),
        0 <= c < classes.len(),
    ensures
        hidden_classes(html).contains(group_text(classes[c], 1)),
{
    let class = group_text(classes[c], 1);
    let in_rule = rule_hidden_classes(rules[r]);
    assert(in_rule[c] == class);
    let per_rule = rules.map_values(|m: Seq<Option<Seq<char>>>| rule_hidden_classes(m));
    assert(per_rule[r] == in_rule);
    lemma_flatten_has(per_rule, r, c);
    let in_sheet = css_hidden_classes(styles[s]);
    let k = choose|k: int| 0 <= k < in_sheet.len() && in_sheet[k] == class;
    let per_sheet = styles.map_values(|t: Seq<char>| css_hidden_classes(t));
    assert(per_sheet[s] == in_sheet);
    lemma_flatten_has(per_sheet, s, k);
}

/// The class names a CSS selector list mentions.
fn classes_of_selectors(selectors: &str) -> (r: Vec<String>)
    ensures
        views(r@) == selector_classes(selectors@),
{
    let ms = match regex_captures_all(CSS_CLASS_PATTERN, selectors) {
        Some(ms) => ms,
        None => return Vec::new(),
    };
    let ghost mv = ms.deep_view();
    let mut out: Vec<String> = Vec::new();
    let mut i: usize = 0;
    while i < ms.len()
        invariant
            i <= ms.len(),
            mv == ms.deep_view(),
            views(out@) == mv.take(i as int).map_values(|m: Seq<Option<Seq<char>>>| group_text(m, 1)),
        decreases ms.len() - i,
    {
        let g = group_of(&ms[i], 1);
        proof {
            lemma_views_push(out@, g);
            assert(mv.take(i + 1).map_values(|m: Seq<Option<Seq<char>>>| group_text(m, 1))
                =~= mv.take(i as int).map_values(|m: Seq<Option<Seq<char>>>| group_text(m, 1)).push(group_text(mv[i as int], 1)));
        }
        out.push(g);
        i = i + 1;
    }
    proof {
        assert(mv.take(ms.len() as int) =~= mv);
    }
    out
}

/// Capture group `i` of a match, as [`group_text`] describes.
fn group_of(m: &Vec<Option<String>>, i: usize) -> (r: String)
    ensures
        r@ == group_text(m.deep_view(), i as int),
{
    if i < m.len() {
        match &m[i] {
            Some(g) => owned(g.as_str()),
            None => String::new(),
        }
    } else {
        String::new()
    }
}

/// The classes one style sheet hides.
fn hidden_in_css(css: &str) -> (r: Vec<String>)
    ensures
        views(r@) == css_hidden_classes(css@),
{
    let ms = match regex_captures_all(CSS_RULE_PATTERN, css) {
        Some(ms) => ms,
        None => return Vec::new(),
    };
    let ghost mv = ms.deep_view();
    let ghost f = |m: Seq<Option<Seq<char>>>| rule_hidden_classes(m);
    let mut out: Vec<String> = Vec::new();
    let mut i: usize = 0;
    while i < ms.len()
        invariant
            i <= ms.len(),
            mv == ms.deep_view(),
            f == (|m: Seq<Option<Seq<char>>>| rule_hidden_classes(m)),
            views(out@) == mv.take(i as int).map_values(f).flatten(),
        decreases ms.len() - i,
    {
        let declarations = group_of(&ms[i], 2);
        let mut chunk: Vec<String> = Vec::new();
        if regex_is_match(DISPLAY_NONE_PATTERN, declarations.as_str()) == Some(true) {
            let selectors = group_of(&ms[i], 1);
            chunk = classes_of_selectors(selectors.as_str());
        }
        proof {
            assert(mv[i as int] == ms@[i as int].deep_view());
            assert(views(chunk@) == f(mv[i as int]));
            lemma_flatten_map_step(mv, f, i as int);
            lemma_views_append(out@, chunk@);
        }
        out.append(&mut chunk);
        i = i + 1;
    }
    proof {
        assert(mv.take(ms.len() as int) =~= mv);
    }
    out
}

/// The classes the `<style>` blocks of `html` hide, as [`hidden_classes`]
/// describes.
pub fn hidden_class_names(html: &str) -> (r: Vec<String>)
    ensures
        views(r@) == hidden_classes(html@),
{
    let sheets = match select_text(html, "style") {
        Some(ts) => ts,
        None => return Vec::new(),
    };
    let ghost tv = views(sheets@);
    let ghost f = |t: Seq<char>| css_hidden_classes(t);
    proof {
        assert(sheets.deep_view() =~= tv);
    }
    let mut out: Vec<String> = Vec::new();
    let mut i: usize = 0;
    while i < sheets.len()
        invariant
            i <= sheets.len(),
            tv == views(sheets@),
            f == (|t: Seq<char>| css_hidden_classes(t)),
            views(out@) == tv.take(i as int).map_values(f).flatten(),
        decreases sheets.len() - i,
    {
        let mut chunk = hidden_in_css(sheets[i].as_str());
        proof {
            lemma_flatten_map_step(tv, f, i as int);
            lemma_views_append(out@, chunk@);
        }
        out.append(&mut chunk);
        i = i + 1;
    }
    proof {
        assert(tv.take(sheets.len() as int) =~= tv);
    }
    out
}

/// What an element contributes to the chapter: nothing when it is hidden
/// noise or offers no line or only boilerplate, else its line.
pub open spec fn element_contrib(e: ElementView, hidden: Seq<Seq<char>>) -> Seq<Seq<char>> {
    if hidden_element(e, hidden) {
        Seq::empty()
    } else {
        match element_line(e) {
            Some(t) => if noise(t) { Seq::empty() } else { seq![t] },
            None => Seq::empty(),
        }
    }
}

/// What a run of elements contributes, in order.
pub open spec fn elements_contrib(es: Seq<ElementView>, hidden: Seq<Seq<char>>) -> Seq<Seq<char>> {
    es.map_values(|e: ElementView| element_contrib(e, hidden)).flatten()
}

/// What an element contributes, as [`element_contrib`] describes.
fn contribution(e: &Element, hidden: &Vec<String>) -> (r: Vec<String>)
    ensures
        views(r@) == element_contrib(e.deep_view(), views(hidden@)),
{
    let mut out: Vec<String> = Vec::new();
    if is_hidden(e, hidden) {
        return out;
    }
    match line_of_element(e) {
        Some(t) => {
            if !is_noise(t.as_str()) {
                out.push(t);
                proof {
                    assert(views(out@) =~= seq![t@]);
                }
            }
        },
        None => {},
    }
    out
}

/// What a run of elements contributes, as [`elements_contrib`] describes.
fn contributions(es: &Vec<Element>, hidden: &Vec<String>) -> (r: Vec<String>)
    ensures
        views(r@) == elements_contrib(es.deep_view(), views(hidden@)),
{
    let ghost ev = es.deep_view();
    let ghost f = |e: ElementView| element_contrib(e, views(hidden@));
    let mut out: Vec<String> = Vec::new();
    let mut i: usize = 0;
    while i < es.len()
        invariant
            i <= es.len(),
            ev == es.deep_view(),
            f == (|e: ElementView| element_contrib(e, views(hidden@))),
            views(out@) == ev.take(i as int).map_values(f).flatten(),
        decreases es.len() - i,
    {
        let mut chunk = contribution(&es[i], hidden);
        proof {
            assert(ev[i as int] == es@[i as int].deep_view());
            lemma_flatten_map_step(ev, f, i as int);
            lemma_views_append(out@, chunk@);
        }
        out.append(&mut chunk);
        i = i + 1;
    }
    proof {
        assert(ev.take(es.len() as int) =~= ev);
    }
    out
}

/// `s` with each `\` immediately followed by `q` replaced by `q`, scanning
/// from the front (`str::replace` with a two-character pattern).
pub open spec fn unescape_quote(s: Seq<char>, q: char) -> Seq<char>
    decreases s.len(),
{
    if s.len() == 0 {
        Seq::empty()
    } else if s.len() >= 2 && s[0] == '\\' && s[1] == q {
        seq![q] + unescape_quote(s.skip(2), q)
    } else {
        seq![s[0]] + unescape_quote(s.skip(1), q)
    }
}

/// [`unescape_quote`].
fn unescape(text: &str, q: char) -> (r: String)
    ensures
        r@ == unescape_quote(text@, q),
{
    let v = chars_of(text);
    let mut out: Vec<char> = Vec::new();
    let mut i: usize = 0;
    proof {
        assert(v@.skip(0) =~= v@);
    }
    while i < v.len()
        invariant
            i <= v.len(),
            v@ == text@,
            unescape_quote(v@, q) == out@ + unescape_quote(v@.skip(i as int), q),
        decreases v.len() - i,
    {
        let ghost rest = v@.skip(i as int);
        if i + 1 < v.len() && v[i] == '\\' && v[i + 1] == q {
            proof {
                assert(rest.skip(2) =~= v@.skip(i + 2));
                assert(out@.push(q) + unescape_quote(v@.skip(i + 2), q) =~= out@ + (seq![q] + unescape_quote(rest.skip(2), q)));
            }
            out.push(q);
            i = i + 2;
        } else {
            proof {
                assert(rest.skip(1) =~= v@.skip(i + 1));
                assert(out@.push(v@[i as int]) + unescape_quote(v@.skip(i + 1), q) =~= out@ + (seq![rest[0]] + unescape_quote(rest.skip(1), q)));
            }
            out.push(v[i]);
            i = i + 1;
        }
    }
    proof {
        assert(v@.skip(i as int) =~= Seq::<char>::empty());
        assert(out@ + Seq::<char>::empty() =~= out@);
    }
    crate::text::string_of(out.as_slice())
}

/// The paragraphs the page's inline script injects, cleaned, without hidden
/// or boilerplate ones; none when the page carries no `contentS` string.
pub open spec fn injected_lines(html: Seq<char>, hidden: Seq<Seq<char>>) -> Seq<Seq<char>> {
    match regex_first_group(CONTENT_S_PATTERN@, html, 1) {
        Some(Some(raw)) => {
            let js = unescape_quote(unescape_quote(raw, '\''), '"');
            match selected_fragment_elements(js, "p"@) {
                Some(es) => elements_contrib(es, hidden),
                None => Seq::empty(),
            }
        },
        _ => Seq::empty(),
    }
}

/// The injected paragraphs, as [`injected_lines`] describes.
pub fn extract_injected_content(html: &str, hidden: &Vec<String>) -> (r: Vec<String>)
    ensures
        views(r@) == injected_lines(html@, views(hidden@)),
{
    let raw = match regex_capture_first(CONTENT_S_PATTERN, html, 1) {
        Some(Some(raw)) => raw,
        _ => return Vec::new(),
    };
    let once = unescape(raw.as_str(), '\'');
    let js = unescape(once.as_str(), '"');
    match select_fragment_elements(js.as_str(), "p") {
        Some(es) => contributions(&es, hidden),
        None => Vec::new(),
    }
}

/// A title taken from the first element a primary selector finds, else from
/// the first non-empty element a fallback selector finds, else `default`.
pub open spec fn titled(primary: Option<Seq<Seq<char>>>, fallback: Option<Seq<Seq<char>>>, default: Seq<char>) -> Seq<char> {
    match first_clean(primary) {
        Some(t) => t,
        None => match fallback {
            Some(ts) => match first_nonempty(ts) {
                Some(t) => t,
                None => default,
            },
            None => default,
        },
    }
}

/// The novel title a chapter page shows.
pub open spec fn novel_title_of(html: Seq<char>) -> Seq<char> {
    titled(selected_texts(html, ".rv-full-story-title h1"@), selected_texts(html, "h1"@), "Unknown Novel"@)
}

/// The chapter title a chapter page shows.
pub open spec fn chapter_title_of(html: Seq<char>) -> Seq<char> {
    titled(selected_texts(html, ".rv-chapt-title h2"@), selected_texts(html, "h1, h2"@), "Untitled Chapter"@)
}

/// A title, as [`titled`] describes.
pub fn pick_title(primary: Option<Vec<String>>, fallback: Option<Vec<String>>, default: &str) -> (r: String)
    ensures
        r@ == titled(primary.deep_view(), fallback.deep_view(), default@),
{
    if let Some(t) = first_clean_text(&primary) {
        return t;
    }
    match fallback {
        Some(ts) => match first_nonempty_text(&ts) {
            Some(t) => t,
            None => owned(default),
        },
        None => owned(default),
    }
}

/// The novel title a chapter page shows: `.rv-full-story-title h1`, else
/// the first non-empty `<h1>`, else "Unknown Novel".
pub fn extract_novel_title(html: &str) -> (r: String)
    ensures
        r@ == novel_title_of(html@),
{
    pick_title(select_text(html, ".rv-full-story-title h1"), select_text(html, "h1"), "Unknown Novel")
}

/// The chapter title a chapter page shows: `.rv-chapt-title h2`, else the
/// first non-empty `<h1>` or `<h2>`, else "Untitled Chapter".
pub fn extract_chapter_title(html: &str) -> (r: String)
    ensures
        r@ == chapter_title_of(html@),
{
    pick_title(select_text(html, ".rv-chapt-title h2"), select_text(html, "h1, h2"), "Untitled Chapter")
}

/// Whether a child of the chapter container is the placeholder the injected
/// paragraphs render into: older pages use `data-content-truyen-backup`,
/// newer ones `content-metruyenhot`.
pub open spec fn is_placeholder(e: ElementView) -> bool {
    &&& e.0 == "div"@
    &&& (attr_value(e.1, "id"@) == Some("data-content-truyen-backup"@)
        || attr_value(e.1, "id"@) == Some("content-metruyenhot"@))
}

/// An injected line as the placeholder splices it in: kept unless empty or
/// boilerplate.
pub open spec fn kept_injected(l: Seq<char>) -> Seq<Seq<char>> {
    if l.len() > 0 && !noise(l) { seq![l] } else { Seq::empty() }
}

/// The lines one child of the chapter container contributes: the injected
/// paragraphs at the placeholder, nothing for hidden noise, its own line for
/// a `<p>` or `<span>`, else those of its `<p>` descendants.
pub open spec fn child_lines(c: (ElementView, Seq<ElementView>), hidden: Seq<Seq<char>>, injected: Seq<Seq<char>>) -> Seq<Seq<char>> {
    if is_placeholder(c.0) {
        injected.map_values(|l: Seq<char>| kept_injected(l)).flatten()
    } else if hidden_element(c.0, hidden) {
        Seq::empty()
    } else if c.0.0 == "p"@ || c.0.0 == "span"@ {
        element_contrib(c.0, hidden)
    } else {
        elements_contrib(c.1, hidden)
    }
}

/// The lines cleaned once more, without empty or boilerplate ones, and
/// without a line that repeats the one kept just before it.
pub open spec fn normalized(lines: Seq<Seq<char>>) -> Seq<Seq<char>>
    decreases lines.len(),
{
    if lines.len() == 0 {
        Seq::empty()
    } else {
        let prev = normalized(lines.drop_last());
        let c = clean(lines.last());
        if c.len() == 0 || noise(c) || (prev.len() > 0 && prev.last() == c) {
            prev
        } else {
            prev.push(c)
        }
    }
}

/// The paragraphs of a chapter are never empty, never boilerplate, and no
/// paragraph repeats the one just before it.
pub proof fn lemma_normalized_paragraphs(lines: Seq<Seq<char>>)
    ensures
        forall|i: int| 0 <= i < normalized(lines).len() ==> (#[trigger] normalized(lines)[i]).len() > 0 && !noise(normalized(lines)[i]),
        forall|i: int| 0 <= i < normalized(lines).len() - 1 ==> #[trigger] normalized(lines)[i] != normalized(lines)[i + 1],
    decreases lines.len(),
{
    if lines.len() > 0 {
        lemma_normalized_paragraphs(lines.drop_last());
        let prev = normalized(lines.drop_last());
        let n = normalized(lines);
        assert forall|i: int| 0 <= i < n.len() - 1 implies #[trigger] n[i] != n[i + 1] by {
            if n.len() == prev.len() + 1 && i == prev.len() - 1 {
                assert(n[i] == prev.last());
            } else {
                assert(n[i] == prev[i] && n[i + 1] == prev[i + 1]);
            }
        }
        assert forall|i: int| 0 <= i < n.len() implies (#[trigger] n[i]).len() > 0 && !noise(n[i]) by {
            if i < prev.len() {
                assert(n[i] == prev[i]);
            }
        }
    }
}

/// The error a page without a chapter container gets.
pub open spec fn no_container_message() -> Seq<char> {
    "Could not find .chapter-c in the HTML"@
}

/// A chapter page's content: novel title, chapter title and paragraphs, or
/// the error for a page without a `.chapter-c` container.
pub open spec fn chapter_of(html: Seq<char>) -> Result<(Seq<char>, Seq<char>, Seq<Seq<char>>), Seq<char>> {
    match selected_children(html, ".chapter-c"@, "p"@) {
        Some(Some(cs)) => {
            let hidden = hidden_classes(html);
            let injected = injected_lines(html, hidden);
            Ok((novel_title_of(html), chapter_title_of(html), container_paragraphs(cs, hidden, injected)))
        },
        _ => Err(no_container_message()),
    }
}

/// Whether a child of the chapter container is the injected-content
/// placeholder.
fn placeholder(e: &Element) -> (r: bool)
    ensures
        r == is_placeholder(e.deep_view()),
{
    if !str_eq(e.0.as_str(), "div") {
        return false;
    }
    match attribute(e, "id") {
        Some(id) => str_eq(id.as_str(), "data-content-truyen-backup") || str_eq(id.as_str(), "content-metruyenhot"),
        None => false,
    }
}

/// The lines one child of the chapter container contributes, as
/// [`child_lines`] describes.
fn lines_of_child(c: &(Element, Vec<Element>), hidden: &Vec<String>, injected: &Vec<String>) -> (r: Vec<String>)
    ensures
        views(r@) == child_lines(c.deep_view(), views(hidden@), views(injected@)),
{
    let e = &c.0;
    if placeholder(e) {
        let ghost iv = views(injected@);
        let ghost f = |l: Seq<char>| kept_injected(l);
        let mut out: Vec<String> = Vec::new();
        let mut i: usize = 0;
        while i < injected.len()
            invariant
                i <= injected.len(),
                iv == views(injected@),
                f == (|l: Seq<char>| kept_injected(l)),
                views(out@) == iv.take(i as int).map_values(f).flatten(),
            decreases injected.len() - i,
        {
            let line = &injected[i];
            proof {
                lemma_flatten_map_step(iv, f, i as int);
            }
            if !is_empty_str(line.as_str()) && !is_noise(line.as_str()) {
                proof {
                    lemma_views_push(out@, *line);
                }
                out.push(owned(line.as_str()));
                proof {
                    assert(views(out@) =~= iv.take(i + 1).map_values(f).flatten());
                }
            } else {
                proof {
                    assert(iv.take(i as int).map_values(f).flatten() + f(iv[i as int]) =~= iv.take(i as int).map_values(f).flatten());
                }
            }
            i = i + 1;
        }
        proof {
            assert(iv.take(injected.len() as int) =~= iv);
        }
        return out;
    }
    if is_hidden(e, hidden) {
        return Vec::new();
    }
    if str_eq(e.0.as_str(), "p") || str_eq(e.0.as_str(), "span") {
        return contribution(e, hidden);
    }
    contributions(&c.1, hidden)
}

/// The lines, as [`normalized`] describes.
fn normalize(lines: &Vec<String>) -> (r: Vec<String>)
    ensures
        views(r@) == normalized(views(lines@)),
{
    let ghost lv = views(lines@);
    let mut out: Vec<String> = Vec::new();
    let mut i: usize = 0;
    while i < lines.len()
        invariant
            i <= lines.len(),
            lv == views(lines@),
            views(out@) == normalized(lv.take(i as int)),
        decreases lines.len() - i,
    {
        proof {
            assert(lv.take(i + 1).drop_last() =~= lv.take(i as int));
            assert(lv.take(i + 1).last() == lines@[i as int]@);
        }
        let cleaned = clean_text(lines[i].as_str());
        let repeat = out.len() > 0 && str_eq(out[out.len() - 1].as_str(), cleaned.as_str());
        proof {
            if out.len() > 0 {
                assert(views(out@).last() == out@[out.len() - 1]@);
            }
        }
        if !is_empty_str(cleaned.as_str()) && !is_noise(cleaned.as_str()) && !repeat {
            proof {
                lemma_views_push(out@, cleaned);
            }
            out.push(cleaned);
        }
        i = i + 1;
    }
    proof {
        assert(lv.take(lines.len() as int) =~= lv);
    }
    out
}

/// The paragraphs of a chapter container: what each child contributes, in
/// order, then [`normalized`]. `children` are the container's element
/// children, each with its `<p>` descendants; `hidden` the classes the page
/// hides; `injected` the paragraphs its script injects.
pub open spec fn container_paragraphs(
    children: Seq<(ElementView, Seq<ElementView>)>,
    hidden: Seq<Seq<char>>,
    injected: Seq<Seq<char>>,
) -> Seq<Seq<char>> {
    normalized(children.map_values(|c: (ElementView, Seq<ElementView>)| child_lines(c, hidden, injected)).flatten())
}

/// The paragraphs of a chapter container, as [`container_paragraphs`]
/// describes.
pub fn chapter_paragraphs_from(children: &Vec<(Element, Vec<Element>)>, hidden: &Vec<String>, injected: &Vec<String>) -> (r: Vec<String>)
    ensures
        views(r@) == container_paragraphs(children.deep_view(), views(hidden@), views(injected@)),
{
    let ghost cv = children.deep_view();
    let ghost f = |c: (ElementView, Seq<ElementView>)| child_lines(c, views(hidden@), views(injected@));
    let mut lines: Vec<String> = Vec::new();
    let mut i: usize = 0;
    while i < children.len()
        invariant
            i <= children.len(),
            cv == children.deep_view(),
            f == (|c: (ElementView, Seq<ElementView>)| child_lines(c, views(hidden@), views(injected@))),
            views(lines@) == cv.take(i as int).map_values(f).flatten(),
        decreases children.len() - i,
    {
        let mut chunk = lines_of_child(&children[i], hidden, injected);
        proof {
            assert(cv[i as int] == children@[i as int].deep_view());
            lemma_flatten_map_step(cv, f, i as int);
            lemma_views_append(lines@, chunk@);
        }
        lines.append(&mut chunk);
        i = i + 1;
    }
    proof {
        assert(cv.take(children.len() as int) =~= cv);
    }
    normalize(&lines)
}

/// Parse a fetched chapter page into its novel title, chapter title and
/// cleaned paragraphs, as [`chapter_of`] describes. Fails when the page has
/// no `.chapter-c` container.
pub fn extract_full_chapter_text(full_html: &str) -> (r: Result<ChapterContent, String>)
    ensures
        content_result(r) == chapter_of(full_html@),
{
    let children = match select_children(full_html, ".chapter-c", "p") {
        Some(Some(cs)) => cs,
        _ => return Err(owned("Could not find .chapter-c in the HTML")),
    };
    let novel_title = extract_novel_title(full_html);
    let chapter_title = extract_chapter_title(full_html);
    let hidden = hidden_class_names(full_html);
    let injected = extract_injected_content(full_html, &hidden);
    let paragraphs = chapter_paragraphs_from(&children, &hidden, &injected);
    Ok(ChapterContent { novel_title, chapter_title, paragraphs })
}

} // verus!
