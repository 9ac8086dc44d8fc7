//! The on-disk chapter document format. Source-independent: every adapter's
//! parsed output is rendered through here, and the EPUB importer reads it back.

use vstd::prelude::*;
use crate::text::{chars_of, join, lemma_join_push, push_char};

verus! {

/// The entity text that replaces one character, or the character itself.
pub open spec fn escape_char(c: char) -> Seq<char> {
    if c == '&' {
        "&amp;"@
    } else if c == '<' {
        "&lt;"@
    } else if c == '>' {
        "&gt;"@
    } else if c == '"' {
        "&quot;"@
    } else if c == '\'' {
        "&apos;"@
    } else {
        seq![c]
    }
}

/// `s` with every XML/HTML special character replaced by its named entity.
pub open spec fn escape_seq(s: Seq<char>) -> Seq<char>
    decreases s.len(),
{
    if s.len() == 0 {
        Seq::empty()
    } else {
        escape_seq(s.drop_last()) + escape_char(s.last())
    }
}

/// Replace XML/HTML special characters with named entities. Used both for
/// chapter HTML and for EPUB-generated XML.
pub fn escape_html(text: &str) -> (res: String)
    ensures
        res@ == escape_seq(text@),
{
    let chars = chars_of(text);
    let mut out = String::new();
    let mut i: usize = 0;
    while i < chars.len()
        invariant
            chars@ == text@,
            i <= chars.len(),
            out@ == escape_seq(chars@.take(i as int)),
        decreases chars.len() - i,
    {
        let c = chars[i];
        proof {
            assert(chars@.take(i as int + 1).drop_last() == chars@.take(i as int));
        }
        if c == '&' {
            out.append("&amp;");
        } else if c == '<' {
            out.append("&lt;");
        } else if c == '>' {
            out.append("&gt;");
        } else if c == '"' {
            out.append("&quot;");
        } else if c == '\'' {
            out.append("&apos;");
        } else {
            push_char(&mut out, c);
        }
        i = i + 1;
    }
    proof {
        assert(chars@.take(chars.len() as int) == chars@);
    }
    out
}

/// A fixed part of the chapter document template.
pub const DOC_HEAD: &'static str = "<!DOCTYPE html>\n\
<html lang=\"vi\">\n\
<head>\n\
    <meta charset=\"UTF-8\">\n\
    <meta name=\"viewport\" content=\"width=device-width, initial-scale=1.0\">\n\
    <title>";

/// A fixed part of the chapter document template.
pub const DOC_AFTER_TITLE: &'static str = "</title>\n\
    <link\n        href=\"https://fonts.googleapis.com/css2?family=Literata&display=swap\"\n        rel=\"stylesheet\"\n    >\n\
    <style>\n\
        body {\n\
            margin: 0;\n\
            padding: 0;\n\
            background: #f6f1e7;\n\
            color: #222;\n\
            font-family: \"Bookerly\", \"Literata\", \"Georgia\", \"Times New Roman\", serif;\n\
            line-height: 1.9;\n\
        }\n\
\n\
        .container {\n\
            max-width: 860px;\n\
            margin: 0 auto;\n\
            padding: 48px 28px 72px;\n\
        }\n\
\n\
        .novel-title {\n\
            text-align: center;\n\
            font-size: 1rem;\n\
            color: #666;\n\
            margin-bottom: 12px;\n\
        }\n\
\n\
        .chapter-title {\n\
            text-align: center;\n\
            font-size: 2.2rem;\n\
            font-weight: 700;\n\
            line-height: 1.3;\n\
            margin: 0 0 36px;\n\
        }\n\
\n\
        .chapter-content p {\n\
            font-size: 1.2rem;\n\
            margin: 0 0 1.15em;\n\
            text-align: justify;\n\
            text-indent: 2em;\n\
        }\n\
    </style>\n\
</head>\n\
<body>\n\
    <div class=\"container\">\n\
        <div class=\"novel-title\">";

/// A fixed part of the chapter document template.
pub const DOC_AFTER_NOVEL: &'static str = "</div>\n\
        <h1 class=\"chapter-title\">";

/// A fixed part of the chapter document template.
pub const DOC_AFTER_HEADING: &'static str = "</h1>\n\
        <div class=\"chapter-content\">\n\
";

/// A fixed part of the chapter document template.
pub const DOC_TAIL: &'static str = "\n\
        </div>\n\
    </div>\n\
</body>\n\
</html>";

/// One rendered paragraph line of the chapter body.
pub open spec fn paragraph_line(p: Seq<char>) -> Seq<char> {
    "        <p>"@ + escape_seq(p) + "</p>"@
}

/// The chapter body: one escaped `<p>` line per paragraph, newline-separated.
pub open spec fn paragraph_block(ps: Seq<String>) -> Seq<char> {
    join(ps.map_values(|p: String| paragraph_line(p@)), "\n"@)
}

/// The whole saved chapter document for the given titles and paragraphs.
pub open spec fn html_document(novel: Seq<char>, chapter: Seq<char>, ps: Seq<String>) -> Seq<char> {
    DOC_HEAD@ + escape_seq(chapter) + DOC_AFTER_TITLE@ + escape_seq(novel) + DOC_AFTER_NOVEL@
        + escape_seq(chapter) + DOC_AFTER_HEADING@ + paragraph_block(ps) + DOC_TAIL@
}

/// Render the saved-on-disk chapter HTML document used by the EPUB importer.
/// Both titles and every paragraph are HTML-escaped before insertion.
pub fn build_html_document(novel_title: &str, chapter_title: &str, paragraphs: &[String]) -> (res: String)
    ensures
        res@ == html_document(novel_title@, chapter_title@, paragraphs@),
{
    let safe_novel = escape_html(novel_title);
    let safe_chapter = escape_html(chapter_title);
    let ghost lines = paragraphs@.map_values(|p: String| paragraph_line(p@));
    let mut body = String::new();
    let mut i: usize = 0;
    while i < paragraphs.len()
        invariant
            i <= paragraphs.len(),
            lines == paragraphs@.map_values(|p: String| paragraph_line(p@)),
            body@ == join(lines.take(i as int), "\n"@),
        decreases paragraphs.len() - i,
    {
        let escaped = escape_html(paragraphs[i].as_str());
        if i > 0 {
            body.append("\n");
            proof { lemma_join_push(lines, "\n"@, i as int); }
        } else {
            proof { assert(lines.take(1) == seq![lines[0]]); }
        }
        body.append("        <p>");
        body.append(escaped.as_str());
        body.append("</p>");
        i = i + 1;
    }
    proof { assert(lines.take(paragraphs.len() as int) == lines); }
    let mut out = String::new();
    out.append(DOC_HEAD);
    out.append(safe_chapter.as_str());
    out.append(DOC_AFTER_TITLE);
    out.append(safe_novel.as_str());
    out.append(DOC_AFTER_NOVEL);
    out.append(safe_chapter.as_str());
    out.append(DOC_AFTER_HEADING);
    out.append(body.as_str());
    out.append(DOC_TAIL);
    out
}

} // verus!
