//! The XML and XHTML documents of an EPUB 3 package.

use vstd::prelude::*;
use crate::crawler::parser::{escape_html, escape_seq};
use crate::text::{chars_of, concat, decimal, join, lemma_join_push, owned, string_of, u64_to_string};
use crate::unicode::{alphabetic, is_alphabetic, nfc, nfc_chars};
use crate::utils::{lemma_views_push, matches_at, occurs_at, trim_chars, trim_pred, trim_start_by, views};

verus! {

/// Split the opening letter off a paragraph's text, after NFC composition so
/// a base letter and its combining marks travel together. `None` when the
/// text is empty or opens with anything but a letter (a quote, a dash, a
/// digit, a space), which a drop cap would mangle.
pub fn split_drop_cap(text: &str) -> (res: Option<(char, String)>)
    ensures
        match res {
            Some((c, rest)) => nfc(text@).len() > 0 && alphabetic(nfc(text@)[0]) && c == nfc(text@)[0]
                && rest@ == nfc(text@).skip(1),
            None => nfc(text@).len() == 0 || !alphabetic(nfc(text@)[0]),
        },
{
    let raw = chars_of(text);
    let n = nfc_chars(raw.as_slice());
    if n.len() == 0 {
        return None;
    }
    let first = n[0];
    if !is_alphabetic(first) {
        return None;
    }
    let mut rest: Vec<char> = Vec::new();
    let mut i: usize = 1;
    while i < n.len()
        invariant
            1 <= i <= n.len(),
            rest@ == n@.subrange(1, i as int),
        decreases n.len() - i,
    {
        rest.push(n[i]);
        i = i + 1;
        proof {
            assert(rest@ =~= n@.subrange(1, i as int));
        }
    }
    proof {
        assert(n@.subrange(1, n.len() as int) =~= n@.skip(1));
    }
    Some((first, string_of(rest.as_slice())))
}

/// One chapter's entry in the manifest, the spine and both tables of
/// contents.
#[derive(Debug, Clone)]
pub struct ChapterEntry {
    /// The manifest item id.
    pub id: String,
    /// The XHTML file name under `text/`.
    pub file_name: String,
    /// The chapter title shown in the tables of contents.
    pub title: String,
}

/// The first index at or after `i` where `pat` occurs in `s`, or -1.
pub open spec fn find_from(s: Seq<char>, pat: Seq<char>, i: int) -> int
    decreases s.len() - i,
{
    if i < 0 || i > s.len() {
        -1
    } else if occurs_at(s, i, pat) {
        i
    } else if i == s.len() {
        -1
    } else {
        find_from(s, pat, i + 1)
    }
}

/// The first index where `pat` occurs in `s`, or -1.
pub open spec fn first_match(s: Seq<char>, pat: Seq<char>) -> int {
    find_from(s, pat, 0)
}

/// [`find_from`].
fn find_chars(s: &Vec<char>, pat: &Vec<char>, start: usize) -> (r: Option<usize>)
    requires
        start <= s.len(),
    ensures
        match r {
            Some(i) => find_from(s@, pat@, start as int) == i as int,
            None => find_from(s@, pat@, start as int) == -1,
        },
{
    let mut i: usize = start;
    while i <= s.len()
        invariant
            start <= i <= s.len() + 1,
            find_from(s@, pat@, start as int) == find_from(s@, pat@, i as int),
        decreases s.len() + 1 - i,
    {
        if matches_at(s, i, pat) {
            return Some(i);
        }
        if i == s.len() {
            return None;
        }
        i = i + 1;
    }
    None
}

/// The opening tag of the paragraph a drop cap goes in.
pub const DROPCAP_OPEN: &'static str = "<p class=\"dropcap-para\"><span class=\"dropcap\">";

/// `body` with its first paragraph's opening letter wrapped in a drop cap,
/// when the first `<p>` opens with a letter before any nested tag.
pub open spec fn drop_capped(body: Seq<char>) -> Option<Seq<char>> {
    let tag_start = first_match(body, "<p>"@);
    if tag_start < 0 {
        None
    } else {
        let text_start = tag_start + 3;
        let after_tag = body.skip(text_start);
        let text_end = first_match(after_tag, "<"@);
        if text_end < 0 {
            None
        } else {
            let t = nfc(after_tag.take(text_end));
            if t.len() == 0 || !alphabetic(t[0]) {
                None
            } else {
                Some(body.take(tag_start) + DROPCAP_OPEN@ + t.take(1) + "</span>"@ + t.skip(1)
                    + after_tag.skip(text_end))
            }
        }
    }
}

/// The characters of `v` from `a` to `b`.
fn slice_string(v: &Vec<char>, a: usize, b: usize) -> (s: String)
    requires
        a <= b <= v.len(),
    ensures
        s@ == v@.subrange(a as int, b as int),
{
    let mut out: Vec<char> = Vec::new();
    let mut k: usize = a;
    while k < b
        invariant
            a <= k <= b <= v.len(),
            out@ == v@.subrange(a as int, k as int),
        decreases b - k,
    {
        out.push(v[k]);
        k = k + 1;
        proof {
            assert(out@ =~= v@.subrange(a as int, k as int));
        }
    }
    string_of(out.as_slice())
}

/// Mark the first paragraph with a drop cap, when it opens with a letter.
pub fn apply_drop_cap(body_html: &str) -> (res: Option<String>)
    ensures
        res.deep_view() == drop_capped(body_html@),
{
    let body = chars_of(body_html);
    let p_open = chars_of("<p>");
    let lt = chars_of("<");
    proof {
        reveal_strlit("<p>");
        reveal_strlit("<");
    }
    let tag_start = match find_chars(&body, &p_open, 0) {
        Some(i) => i,
        None => return None,
    };
    proof {
        assert(occurs_at(body@, tag_start as int, "<p>"@)) by {
            lemma_find_from_hits(body@, "<p>"@, 0);
        }
    }
    assert(tag_start + 3 <= body.len());
    let text_start = tag_start + 3;
    let ghost after_tag = body@.skip(text_start as int);
    let after = slice_string(&body, text_start, body.len());
    let after_v = chars_of(after.as_str());
    proof {
        assert(after_v@ =~= after_tag);
    }
    let text_end = match find_chars(&after_v, &lt, 0) {
        Some(i) => i,
        None => return None,
    };
    proof {
        lemma_find_from_hits(after_v@, "<"@, 0);
    }
    let head = slice_string(&after_v, 0, text_end);
    proof {
        assert(head@ =~= after_tag.take(text_end as int));
    }
    let (cap, remainder) = match split_drop_cap(head.as_str()) {
        Some(x) => x,
        None => return None,
    };
    let mut out = slice_string(&body, 0, tag_start);
    out.append(DROPCAP_OPEN);
    let mut cap_v: Vec<char> = Vec::new();
    cap_v.push(cap);
    out.append(string_of(cap_v.as_slice()).as_str());
    out.append("</span>");
    out.append(remainder.as_str());
    let tail = slice_string(&after_v, text_end, after_v.len());
    out.append(tail.as_str());
    proof {
        assert(body@.subrange(0, tag_start as int) =~= body@.take(tag_start as int));
        assert(after_v@.subrange(text_end as int, after_v@.len() as int) =~= after_tag.skip(text_end as int));
        assert(cap_v@ =~= seq![cap]);
    }
    Some(out)
}

/// [`find_from`] hits an occurrence whenever it finds one.
pub proof fn lemma_find_from_hits(s: Seq<char>, pat: Seq<char>, i: int)
    ensures
        find_from(s, pat, i) >= 0 ==> occurs_at(s, find_from(s, pat, i), pat) && find_from(s, pat, i) >= i,
    decreases s.len() - i,
{
    if 0 <= i < s.len() && !occurs_at(s, i, pat) {
        lemma_find_from_hits(s, pat, i + 1);
    }
}

/// The fixed head of a chapter document, up to its title.
pub const CHAPTER_HEAD: &'static str = "<?xml version=\"1.0\" encoding=\"utf-8\"?>\n\
<!DOCTYPE html>\n\
<html xmlns=\"http://www.w3.org/1999/xhtml\" xml:lang=\"vi\" lang=\"vi\">\n\
  <head>\n\
    <title>";

/// The fixed text between a chapter document's title and its heading.
pub const CHAPTER_AFTER_TITLE: &'static str = "</title>\n\
    <link href=\"../styles/main.css\" rel=\"stylesheet\" type=\"text/css\"/>\n\
  </head>\n\
  <body>\n\
    <h1>";

/// The fixed text between a chapter document's heading and its body.
pub const CHAPTER_AFTER_HEADING: &'static str = "</h1>\n\
    ";

/// The fixed tail of a chapter or title-page document.
pub const DOCUMENT_TAIL: &'static str = "\n\
  </body>\n\
</html>";

/// The XHTML document of one chapter.
pub open spec fn chapter_document(title: Seq<char>, body: Seq<char>) -> Seq<char> {
    let b = match drop_capped(body) { Some(d) => d, None => body };
    CHAPTER_HEAD@ + escape_seq(title) + CHAPTER_AFTER_TITLE@ + escape_seq(title) + CHAPTER_AFTER_HEADING@ + b
        + DOCUMENT_TAIL@
}

/// Wrap a chapter's body in the XHTML skeleton, with its first paragraph
/// drop-capped when it opens with a letter.
pub fn chapter_xhtml(title: &str, body_html: &str) -> (res: String)
    ensures
        res@ == chapter_document(title@, body_html@),
{
    let body = match apply_drop_cap(body_html) {
        Some(b) => b,
        None => owned(body_html),
    };
    let t = escape_html(title);
    let mut out = owned(CHAPTER_HEAD);
    out.append(t.as_str());
    out.append(CHAPTER_AFTER_TITLE);
    out.append(t.as_str());
    out.append(CHAPTER_AFTER_HEADING);
    out.append(body.as_str());
    out.append(DOCUMENT_TAIL);
    out
}

/// The opening of the author line on the title page.
pub const AUTHOR_OPEN: &'static str = "<p style=\"text-indent:0;text-align:center;\">";

/// The XHTML title page.
pub open spec fn title_page_document(title: Seq<char>, author: Option<Seq<char>>) -> Seq<char> {
    let author_html = match author {
        Some(a) => AUTHOR_OPEN@ + escape_seq(a) + "</p>"@,
        None => Seq::empty(),
    };
    CHAPTER_HEAD@ + escape_seq(title) + CHAPTER_AFTER_TITLE@ + escape_seq(title) + CHAPTER_AFTER_HEADING@
        + author_html + DOCUMENT_TAIL@
}

/// The title page: the title as a heading and, when known, the author.
pub fn title_page_xhtml(title: &str, author: Option<&str>) -> (res: String)
    ensures
        res@ == title_page_document(title@, match author { Some(a) => Some(a@), None => None }),
{
    let author_html = match author {
        Some(a) => {
            let mut s = owned(AUTHOR_OPEN);
            s.append(escape_html(a).as_str());
            s.append("</p>");
            s
        },
        None => String::new(),
    };
    let t = escape_html(title);
    let mut out = owned(CHAPTER_HEAD);
    out.append(t.as_str());
    out.append(CHAPTER_AFTER_TITLE);
    out.append(t.as_str());
    out.append(CHAPTER_AFTER_HEADING);
    out.append(author_html.as_str());
    out.append(DOCUMENT_TAIL);
    out
}

/// The fixed head of the navigation document, up to its title.
pub const NAV_HEAD: &'static str = "<?xml version=\"1.0\" encoding=\"utf-8\"?>\n\
<!DOCTYPE html>\n\
<html xmlns=\"http://www.w3.org/1999/xhtml\" xmlns:epub=\"http://www.idpf.org/2007/ops\" xml:lang=\"vi\" lang=\"vi\">\n\
  <head>\n\
    <title>";

/// The fixed text between the navigation document's title and its items.
pub const NAV_AFTER_TITLE: &'static str = "</title>\n\
    <link href=\"styles/main.css\" rel=\"stylesheet\" type=\"text/css\"/>\n\
  </head>\n\
  <body>\n\
    <nav epub:type=\"toc\" id=\"toc\">\n\
      <h1>Mục lục</h1>\n\
      <ol>\n";

/// The fixed tail of the navigation document.
pub const NAV_TAIL: &'static str = "\n\
      </ol>\n\
    </nav>\n\
  </body>\n\
</html>";

/// One chapter's line in the navigation document.
pub open spec fn nav_item(file_name: Seq<char>, title: Seq<char>) -> Seq<char> {
    "        <li><a href=\"text/"@ + file_name + "\">"@ + escape_seq(title) + "</a></li>"@
}

/// The navigation items of `chapters`, in order.
pub open spec fn nav_items(chapters: Seq<ChapterEntry>) -> Seq<Seq<char>> {
    chapters.map_values(|c: ChapterEntry| nav_item(c.file_name@, c.title@))
}

/// The EPUB 3 navigation document.
pub open spec fn nav_document(title: Seq<char>, chapters: Seq<ChapterEntry>) -> Seq<char> {
    NAV_HEAD@ + escape_seq(title) + NAV_AFTER_TITLE@ + join(nav_items(chapters), "\n"@) + NAV_TAIL@
}

/// `parts` joined with newlines.
pub fn join_newlines(parts: &Vec<String>) -> (s: String)
    ensures
        s@ == join(views(parts@), "\n"@),
{
    let ghost ps = views(parts@);
    let mut s = String::new();
    let mut i: usize = 0;
    while i < parts.len()
        invariant
            i <= parts.len(),
            ps == views(parts@),
            s@ == join(ps.take(i as int), "\n"@),
        decreases parts.len() - i,
    {
        if i > 0 {
            s.append("\n");
            proof {
                lemma_join_push(ps, "\n"@, i as int);
            }
        } else {
            proof {
                assert(ps.take(1) =~= seq![ps[0]]);
            }
        }
        s.append(parts[i].as_str());
        i = i + 1;
    }
    proof {
        assert(ps.take(parts.len() as int) =~= ps);
    }
    s
}

/// The EPUB 3 navigation document: one linked list item per chapter.
pub fn nav_xhtml(novel_title: &str, chapters: &[ChapterEntry]) -> (res: String)
    ensures
        res@ == nav_document(novel_title@, chapters@),
{
    let mut items: Vec<String> = Vec::new();
    let mut i: usize = 0;
    while i < chapters.len()
        invariant
            i <= chapters.len(),
            views(items@) == nav_items(chapters@.take(i as int)),
        decreases chapters.len() - i,
    {
        let c = &chapters[i];
        let mut line = owned("        <li><a href=\"text/");
        line.append(c.file_name.as_str());
        line.append("\">");
        line.append(escape_html(c.title.as_str()).as_str());
        line.append("</a></li>");
        proof {
            lemma_views_push(items@, line);
            assert(nav_items(chapters@.take(i + 1)) =~= nav_items(chapters@.take(i as int)).push(line@));
        }
        items.push(line);
        i = i + 1;
    }
    proof {
        assert(chapters@.take(chapters.len() as int) =~= chapters@);
    }
    let mut out = owned(NAV_HEAD);
    out.append(escape_html(novel_title).as_str());
    out.append(NAV_AFTER_TITLE);
    out.append(join_newlines(&items).as_str());
    out.append(NAV_TAIL);
    out
}

/// The fixed head of the NCX document, up to its identifier.
pub const NCX_HEAD: &'static str = "<?xml version=\"1.0\" encoding=\"UTF-8\"?>\n\
<ncx xmlns=\"http://www.daisy.org/z3986/2005/ncx/\" version=\"2005-1\">\n\
  <head>\n\
    <meta name=\"dtb:uid\" content=\"";

/// The fixed text between the NCX identifier and its title.
pub const NCX_AFTER_ID: &'static str = "\"/>\n\
    <meta name=\"dtb:depth\" content=\"1\"/>\n\
    <meta name=\"dtb:totalPageCount\" content=\"0\"/>\n\
    <meta name=\"dtb:maxPageNumber\" content=\"0\"/>\n\
  </head>\n\
  <docTitle><text>";

/// The fixed text between the NCX title and its navigation points.
pub const NCX_AFTER_TITLE: &'static str = "</text></docTitle>\n\
  <navMap>\n";

/// The fixed tail of the NCX document.
pub const NCX_TAIL: &'static str = "\n\
  </navMap>\n\
</ncx>";

/// The navigation point of the chapter at one-based position `n`.
pub open spec fn nav_point(n: nat, file_name: Seq<char>, title: Seq<char>) -> Seq<char> {
    "    <navPoint id=\"navPoint-"@ + decimal(n) + "\" playOrder=\""@ + decimal(n) + "\">\n\
      <navLabel><text>"@ + escape_seq(title) + "</text></navLabel>\n\
      <content src=\"text/"@ + file_name + "\"/>\n\
    </navPoint>"@
}

/// The navigation points of `chapters`, numbered from 1.
pub open spec fn nav_points(chapters: Seq<ChapterEntry>) -> Seq<Seq<char>> {
    Seq::new(chapters.len(), |i: int| nav_point((i + 1) as nat, chapters[i].file_name@, chapters[i].title@))
}

/// The EPUB 2 NCX table of contents.
pub open spec fn ncx_document(title: Seq<char>, identifier: Seq<char>, chapters: Seq<ChapterEntry>) -> Seq<char> {
    NCX_HEAD@ + escape_seq(identifier) + NCX_AFTER_ID@ + escape_seq(title) + NCX_AFTER_TITLE@
        + join(nav_points(chapters), "\n"@) + NCX_TAIL@
}

/// The EPUB 2 NCX table of contents, for readers that predate EPUB 3: one
/// navigation point per chapter, in reading order.
pub fn ncx_xml(novel_title: &str, identifier: &str, chapters: &[ChapterEntry]) -> (res: String)
    requires
        chapters.len() < u64::MAX,
    ensures
        res@ == ncx_document(novel_title@, identifier@, chapters@),
{
    let mut points: Vec<String> = Vec::new();
    let mut i: usize = 0;
    while i < chapters.len()
        invariant
            i <= chapters.len() < u64::MAX,
            views(points@) == nav_points(chapters@.take(i as int)),
        decreases chapters.len() - i,
    {
        let c = &chapters[i];
        let n = u64_to_string((i + 1) as u64);
        let mut p = owned("    <navPoint id=\"navPoint-");
        p.append(n.as_str());
        p.append("\" playOrder=\"");
        p.append(n.as_str());
        p.append("\">\n\
      <navLabel><text>");
        p.append(escape_html(c.title.as_str()).as_str());
        p.append("</text></navLabel>\n\
      <content src=\"text/");
        p.append(c.file_name.as_str());
        p.append("\"/>\n\
    </navPoint>");
        proof {
            lemma_views_push(points@, p);
            assert(nav_points(chapters@.take(i + 1)) =~= nav_points(chapters@.take(i as int)).push(p@));
        }
        points.push(p);
        i = i + 1;
    }
    proof {
        assert(chapters@.take(chapters.len() as int) =~= chapters@);
    }
    let mut out = owned(NCX_HEAD);
    out.append(escape_html(identifier).as_str());
    out.append(NCX_AFTER_ID);
    out.append(escape_html(novel_title).as_str());
    out.append(NCX_AFTER_TITLE);
    out.append(join_newlines(&points).as_str());
    out.append(NCX_TAIL);
    out
}

/// The fixed head of the package document, up to its identifier.
pub const OPF_HEAD: &'static str = "<?xml version=\"1.0\" encoding=\"utf-8\"?>\n\
<package xmlns=\"http://www.idpf.org/2007/opf\" version=\"3.0\" unique-identifier=\"BookId\">\n\
  <metadata xmlns:dc=\"http://purl.org/dc/elements/1.1/\">\n\
    <dc:identifier id=\"BookId\">";

/// The fixed text between the identifier and the title.
pub const OPF_AFTER_ID: &'static str = "</dc:identifier>\n\
    <dc:title>";

/// The fixed text between the title and the author line.
pub const OPF_AFTER_TITLE: &'static str = "</dc:title>\n\
    <dc:language>vi</dc:language>\n\
";

/// The fixed text before the modification timestamp.
pub const OPF_BEFORE_MODIFIED: &'static str = "    <meta property=\"dcterms:modified\">";

/// The fixed text after the modification timestamp.
pub const OPF_AFTER_MODIFIED: &'static str = "</meta>\n\
";

/// The fixed text closing the metadata and opening the manifest.
pub const OPF_MANIFEST_HEAD: &'static str = "  </metadata>\n\
  <manifest>\n\
    <item id=\"nav\" href=\"nav.xhtml\" media-type=\"application/xhtml+xml\" properties=\"nav\"/>\n\
    <item id=\"ncx\" href=\"toc.ncx\" media-type=\"application/x-dtbncx+xml\"/>\n\
    <item id=\"style\" href=\"styles/main.css\" media-type=\"text/css\"/>\n\
    <item id=\"titlepage\" href=\"text/titlepage.xhtml\" media-type=\"application/xhtml+xml\"/>\n\
";

/// The fixed text closing the manifest and opening the spine.
pub const OPF_SPINE_HEAD: &'static str = "\n\
  </manifest>\n\
  <spine toc=\"ncx\">\n\
    <itemref idref=\"nav\"/>\n\
    <itemref idref=\"titlepage\"/>\n\
";

/// The fixed tail of the package document.
pub const OPF_TAIL: &'static str = "\n\
  </spine>\n\
</package>";

/// Everything the package document declares.
pub struct ContentOpfParams {
    /// The book's unique identifier.
    pub identifier: String,
    /// The book title.
    pub title: String,
    /// The author, when known.
    pub author: Option<String>,
    /// Whether a cover image is packaged.
    pub include_cover: bool,
    /// The cover image's extension, with its dot.
    pub cover_ext: String,
    /// Whether a font is embedded.
    pub include_font: bool,
    /// The embedded font's file name under `fonts/`.
    pub font_file_name: String,
    /// Every chapter, in reading order.
    pub chapters: Vec<ChapterEntry>,
    /// The `dcterms:modified` timestamp.
    pub modified: String,
}

/// The first media type `mime_guess` lists for the extension `ext`.
pub uninterp spec fn mime_for_ext(ext: Seq<char>) -> Option<Seq<char>>;

/// The first media type `mime_guess` lists for the file name `path`.
pub uninterp spec fn mime_for_path(path: Seq<char>) -> Option<Seq<char>>;

/// `mime_guess::from_ext(ext).first_raw()`.
#[verifier::external_body]
fn guess_mime_from_ext(ext: &str) -> (r: Option<String>)
    ensures
        r.deep_view() == mime_for_ext(ext@),
{
    mime_guess::from_ext(ext).first_raw().map(|m| m.to_string())
}

/// `mime_guess::from_path(path).first_raw()`.
#[verifier::external_body]
fn guess_mime_from_path(path: &str) -> (r: Option<String>)
    ensures
        r.deep_view() == mime_for_path(path@),
{
    mime_guess::from_path(path).first_raw().map(|m| m.to_string())
}

/// The author line of the metadata.
pub open spec fn opf_author(author: Option<Seq<char>>) -> Seq<char> {
    match author {
        Some(a) => "    <dc:creator>"@ + escape_seq(a) + "</dc:creator>\n"@,
        None => Seq::empty(),
    }
}

/// The cover's manifest item, typed by its extension (JPEG when unknown).
pub open spec fn opf_cover_item(wanted: bool, ext: Seq<char>) -> Seq<char> {
    if wanted {
        let media = match mime_for_ext(trim_start_by(ext, trim_pred(false, '.'))) {
            Some(m) => m,
            None => "image/jpeg"@,
        };
        "    <item id=\"cover-image\" href=\"cover"@ + ext + "\" media-type=\""@ + media + "\"/>\n"@
    } else {
        Seq::empty()
    }
}

/// The embedded font's manifest item, typed by its file name (TrueType when
/// unknown).
pub open spec fn opf_font_item(wanted: bool, file_name: Seq<char>) -> Seq<char> {
    if wanted {
        let media = match mime_for_path(file_name) {
            Some(m) => m,
            None => "font/ttf"@,
        };
        "    <item id=\"epub-font\" href=\"fonts/"@ + file_name + "\" media-type=\""@ + media + "\"/>\n"@
    } else {
        Seq::empty()
    }
}

/// The chapters' manifest items.
pub open spec fn opf_chapter_items(chapters: Seq<ChapterEntry>) -> Seq<Seq<char>> {
    chapters.map_values(|c: ChapterEntry| "    <item id=\""@ + c.id@ + "\" href=\"text/"@ + c.file_name@
        + "\" media-type=\"application/xhtml+xml\"/>"@)
}

/// The chapters' spine references.
pub open spec fn opf_spine_items(chapters: Seq<ChapterEntry>) -> Seq<Seq<char>> {
    chapters.map_values(|c: ChapterEntry| "    <itemref idref=\""@ + c.id@ + "\"/>"@)
}

/// The spine reads the book in chapter order: there is one reference per
/// chapter, its `k`-th reference names the `k`-th chapter's id, and the `k`-th
/// manifest item declares that same chapter, so spine order is manifest order
/// is the order the chapters were given in.
pub proof fn lemma_spine_follows_chapter_order(chapters: Seq<ChapterEntry>, k: int)
    requires
        0 <= k < chapters.len(),
    ensures
        opf_spine_items(chapters).len() == chapters.len(),
        opf_chapter_items(chapters).len() == chapters.len(),
        opf_spine_items(chapters)[k] == "    <itemref idref=\""@ + chapters[k].id@ + "\"/>"@,
        opf_chapter_items(chapters)[k] == "    <item id=\""@ + chapters[k].id@ + "\" href=\"text/"@
            + chapters[k].file_name@ + "\" media-type=\"application/xhtml+xml\"/>"@,
{
}

/// The package document: metadata, manifest and spine.
pub open spec fn opf_document(p: ContentOpfParams) -> Seq<char> {
    OPF_HEAD@ + escape_seq(p.identifier@) + OPF_AFTER_ID@ + escape_seq(p.title@) + OPF_AFTER_TITLE@
        + opf_author(p.author.deep_view()) + OPF_BEFORE_MODIFIED@ + escape_seq(p.modified@) + OPF_AFTER_MODIFIED@
        + (if p.include_cover { "    <meta name=\"cover\" content=\"cover-image\"/>\n"@ } else { Seq::empty() })
        + OPF_MANIFEST_HEAD@ + opf_cover_item(p.include_cover, p.cover_ext@)
        + opf_font_item(p.include_font, p.font_file_name@) + join(opf_chapter_items(p.chapters@), "\n"@)
        + OPF_SPINE_HEAD@ + join(opf_spine_items(p.chapters@), "\n"@) + OPF_TAIL@
}

/// The chapters' manifest items and spine references, newline-joined.
fn opf_chapter_lists(chapters: &Vec<ChapterEntry>) -> (res: (String, String))
    ensures
        res.0@ == join(opf_chapter_items(chapters@), "\n"@),
        res.1@ == join(opf_spine_items(chapters@), "\n"@),
{
    let mut items: Vec<String> = Vec::new();
    let mut refs: Vec<String> = Vec::new();
    let mut i: usize = 0;
    while i < chapters.len()
        invariant
            i <= chapters.len(),
            views(items@) == opf_chapter_items(chapters@.take(i as int)),
            views(refs@) == opf_spine_items(chapters@.take(i as int)),
        decreases chapters.len() - i,
    {
        let c = &chapters[i];
        let mut item = concat("    <item id=\"", c.id.as_str());
        item.append("\" href=\"text/");
        item.append(c.file_name.as_str());
        item.append("\" media-type=\"application/xhtml+xml\"/>");
        let mut r = concat("    <itemref idref=\"", c.id.as_str());
        r.append("\"/>");
        proof {
            lemma_views_push(items@, item);
            lemma_views_push(refs@, r);
            assert(opf_chapter_items(chapters@.take(i + 1)) =~= opf_chapter_items(chapters@.take(i as int)).push(item@));
            assert(opf_spine_items(chapters@.take(i + 1)) =~= opf_spine_items(chapters@.take(i as int)).push(r@));
        }
        items.push(item);
        refs.push(r);
        i = i + 1;
    }
    proof {
        assert(chapters@.take(chapters.len() as int) =~= chapters@);
    }
    (join_newlines(&items), join_newlines(&refs))
}

/// [`opf_cover_item`].
fn cover_item(wanted: bool, ext: &str) -> (s: String)
    ensures
        s@ == opf_cover_item(wanted, ext@),
{
    if !wanted {
        return String::new();
    }
    let v = chars_of(ext);
    let bare = string_of(trim_chars(&v, false, '.', true, false).as_slice());
    let media = match guess_mime_from_ext(bare.as_str()) {
        Some(m) => m,
        None => owned("image/jpeg"),
    };
    let mut s = concat("    <item id=\"cover-image\" href=\"cover", ext);
    s.append("\" media-type=\"");
    s.append(media.as_str());
    s.append("\"/>\n");
    s
}

/// [`opf_font_item`].
fn font_item(wanted: bool, file_name: &str) -> (s: String)
    ensures
        s@ == opf_font_item(wanted, file_name@),
{
    if !wanted {
        return String::new();
    }
    let media = match guess_mime_from_path(file_name) {
        Some(m) => m,
        None => owned("font/ttf"),
    };
    let mut s = concat("    <item id=\"epub-font\" href=\"fonts/", file_name);
    s.append("\" media-type=\"");
    s.append(media.as_str());
    s.append("\"/>\n");
    s
}

/// The OPF package document: metadata (with the modification timestamp
/// exactly once), the manifest of every packaged file, and the spine in
/// reading order.
pub fn content_opf(params: ContentOpfParams) -> (res: String)
    ensures
        res@ == opf_document(params),
{
    let author = match &params.author {
        Some(a) => {
            let mut s = concat("    <dc:creator>", escape_html(a.as_str()).as_str());
            s.append("</dc:creator>\n");
            s
        },
        None => String::new(),
    };
    let cover_meta = if params.include_cover {
        owned("    <meta name=\"cover\" content=\"cover-image\"/>\n")
    } else {
        String::new()
    };
    let cover = cover_item(params.include_cover, params.cover_ext.as_str());
    let font = font_item(params.include_font, params.font_file_name.as_str());
    let (chapter_manifest, spine_items) = opf_chapter_lists(&params.chapters);
    let mut out = owned(OPF_HEAD);
    out.append(escape_html(params.identifier.as_str()).as_str());
    out.append(OPF_AFTER_ID);
    out.append(escape_html(params.title.as_str()).as_str());
    out.append(OPF_AFTER_TITLE);
    out.append(author.as_str());
    out.append(OPF_BEFORE_MODIFIED);
    out.append(escape_html(params.modified.as_str()).as_str());
    out.append(OPF_AFTER_MODIFIED);
    out.append(cover_meta.as_str());
    out.append(OPF_MANIFEST_HEAD);
    out.append(cover.as_str());
    out.append(font.as_str());
    out.append(chapter_manifest.as_str());
    out.append(OPF_SPINE_HEAD);
    out.append(spine_items.as_str());
    out.append(OPF_TAIL);
    proof {
        assert(opf_author(params.author.deep_view()) == author@);
    }
    out
}

} // verus!
