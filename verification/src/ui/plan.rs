//! The crawl plan the wizard or the command line produces, and its summary.

use vstd::prelude::*;
use crate::crawler::ExistingFilePolicy;
use crate::text::{concat, decimal, join, join_path, lemma_join_push, owned, path_join, u64_to_string};
use crate::utils::{slug, slugify};

verus! {

/// What the run does: download chapters, download and package them, or
/// package chapters already on disk.
#[derive(Clone, Copy, Debug, PartialEq, Eq, Structural)]
pub enum CrawlMode {
    /// Download chapters only.
    Crawl,
    /// Download chapters, then build an EPUB.
    CrawlEpub,
    /// Build an EPUB from chapter files already on disk.
    EpubOnly,
}

/// Where the EPUB of a run is written, when the run writes one.
pub open spec fn epub_destination(mode: CrawlMode, output_root: Seq<char>, chapter_dir: Option<Seq<char>>, novel_title: Option<Seq<char>>) -> Option<Seq<char>> {
    let inferred = match novel_title {
        Some(t) => Some(path_join(output_root, slug(t, "book"@))),
        None => None,
    };
    match mode {
        CrawlMode::Crawl => None,
        CrawlMode::EpubOnly => match chapter_dir {
            Some(d) => Some(d),
            None => inferred,
        },
        CrawlMode::CrawlEpub => inferred,
    }
}

/// The directory the EPUB lands in: the chapter directory being packaged in
/// EPUB-only mode, else the per-novel directory beneath the output root.
/// `None` for a download-only run, or when no directory can be inferred.
pub fn epub_destination_dir(mode: CrawlMode, output_root: &str, chapter_dir: Option<&str>, novel_title: Option<&str>) -> (res: Option<String>)
    ensures
        res.deep_view() == epub_destination(mode, output_root@,
            match chapter_dir { Some(d) => Some(d@), None => None },
            match novel_title { Some(t) => Some(t@), None => None }),
{
    let inferred = match novel_title {
        Some(t) => {
            let s = slugify(t, "book");
            Some(join_path(output_root, s.as_str()))
        },
        None => None,
    };
    match mode {
        CrawlMode::Crawl => None,
        CrawlMode::EpubOnly => match chapter_dir {
            Some(d) => Some(owned(d)),
            None => inferred,
        },
        CrawlMode::CrawlEpub => inferred,
    }
}

/// Everything the summary screen reports. Paths are given as text, and the
/// delay as the text the user's seconds display as.
pub struct SummaryParams<'a> {
    /// The novel's main-page URL.
    pub base_url: &'a str,
    /// The adapter's display name.
    pub source: &'a str,
    /// What the run does.
    pub mode: CrawlMode,
    /// Where chapter directories are created.
    pub output_root: &'a str,
    /// The chapters to download, when a range was chosen.
    pub chapter_numbers: Option<&'a [u32]>,
    /// The spacing between requests, in seconds, as displayed.
    pub delay: &'a str,
    /// Download workers.
    pub workers: usize,
    /// What to do with chapters already on disk.
    pub if_exists: ExistingFilePolicy,
    /// The chapter directory to package, in EPUB-only mode.
    pub chapter_dir: Option<&'a str>,
    /// The font to embed, when not the packaged default.
    pub font_path: Option<&'a str>,
    /// Whether existing chapters are skipped without reading them.
    pub fast_skip: bool,
    /// The novel's title, when known.
    pub novel_title: Option<&'a str>,
    /// The novel's author, when known.
    pub novel_author: Option<&'a str>,
    /// Whether the source dictates workers and delay.
    pub pacing_fixed_by_source: bool,
}

/// The label of a mode on the summary screen.
pub open spec fn mode_label(mode: CrawlMode) -> Seq<char> {
    match mode {
        CrawlMode::Crawl => "Crawl chapters"@,
        CrawlMode::CrawlEpub => "Crawl chapters and build EPUB"@,
        CrawlMode::EpubOnly => "Build EPUB from existing chapters"@,
    }
}

/// The label of an existing-file policy on the summary screen.
pub open spec fn policy_label(p: ExistingFilePolicy) -> Seq<char> {
    match p {
        ExistingFilePolicy::Ask => "ask"@,
        ExistingFilePolicy::Skip => "skip"@,
        ExistingFilePolicy::Overwrite => "overwrite"@,
        ExistingFilePolicy::SkipAll => "skip-all"@,
    }
}

/// `yes` or `no`.
pub open spec fn yes_no(b: bool) -> Seq<char> {
    if b { "yes"@ } else { "no"@ }
}

/// The characters of an optional string slice.
pub open spec fn opt_str(o: Option<&str>) -> Option<Seq<char>> {
    match o {
        Some(s) => Some(s@),
        None => None,
    }
}

/// The first lines of the summary: URL, source, mode, output root and EPUB
/// destination.
pub open spec fn head_lines(p: SummaryParams) -> Seq<Seq<char>> {
    let base = seq!["Base URL: "@ + p.base_url@, "Source: "@ + p.source@, "Mode: "@ + mode_label(p.mode)];
    let with_root = if p.mode != CrawlMode::EpubOnly { base.push("Output root: "@ + p.output_root@) } else { base };
    match epub_destination(p.mode, p.output_root@, opt_str(p.chapter_dir), opt_str(p.novel_title)) {
        Some(d) => with_root.push("EPUB output: "@ + d),
        None => with_root,
    }
}

/// The chapter-range line, when a non-empty range was chosen.
pub open spec fn range_lines(p: SummaryParams) -> Seq<Seq<char>> {
    match p.chapter_numbers {
        Some(c) => if c@.len() > 0 {
            seq!["Chapters: "@ + decimal(c@[0] as nat) + " -> "@ + decimal(c@.last() as nat) + " ("@
                + decimal(c@.len()) + " total)"@]
        } else {
            Seq::empty()
        },
        None => Seq::empty(),
    }
}

/// The pacing and existing-file lines, shown whenever chapters download.
pub open spec fn pacing_lines(p: SummaryParams) -> Seq<Seq<char>> {
    let has_range = match p.chapter_numbers { Some(c) => c@.len() > 0, None => false };
    if p.mode != CrawlMode::EpubOnly || has_range {
        let note = if p.pacing_fixed_by_source { " (required by "@ + p.source@ + ")"@ } else { Seq::empty() };
        seq!["Workers: "@ + decimal(p.workers as nat) + note, "Delay: "@ + p.delay@ + "s"@ + note,
            "If chapter exists: "@ + policy_label(p.if_exists), "Fast skip: "@ + yes_no(p.fast_skip)]
    } else {
        Seq::empty()
    }
}

/// The chapter-directory and EPUB lines that close the summary.
pub open spec fn tail_lines(p: SummaryParams) -> Seq<Seq<char>> {
    let dir = match p.chapter_dir { Some(d) => seq!["Chapter directory: "@ + d@], None => Seq::empty() };
    let build = p.mode != CrawlMode::Crawl;
    let epub = seq!["Build EPUB: "@ + yes_no(build)];
    let details = if build {
        let title = match p.novel_title { Some(t) => seq!["Title: "@ + t@], None => Seq::empty() };
        let author = "Author: "@ + match p.novel_author { Some(a) => a@, None => "(none)"@ };
        let font = match p.font_path { Some(f) => "Font path: "@ + f@, None => "Font path: default packaged font"@ };
        title + seq![author, font]
    } else {
        Seq::empty()
    };
    dir + epub + details
}

/// Every line of the summary, in order.
pub open spec fn summary_lines(p: SummaryParams) -> Seq<Seq<char>> {
    head_lines(p) + range_lines(p) + pacing_lines(p) + tail_lines(p)
}

/// Append `line` to the growing summary.
pub(crate) fn add_line(lines: &mut Vec<String>, line: String)
    ensures
        crate::utils::views(final(lines)@) == crate::utils::views(old(lines)@).push(line@),
{
    proof {
        crate::utils::lemma_views_push(lines@, line);
    }
    lines.push(line);
}

/// `parts` joined with newlines.
pub(crate) fn join_lines(parts: &Vec<String>) -> (s: String)
    ensures
        s@ == join(crate::utils::views(parts@), "\n"@),
{
    let ghost ps = crate::utils::views(parts@);
    let mut s = String::new();
    let mut i: usize = 0;
    while i < parts.len()
        invariant
            i <= parts.len(),
            ps == crate::utils::views(parts@),
            s@ == join(ps.take(i as int), "\n"@),
        decreases parts.len() - i,
    {
        if i > 0 {
            s.append("\n");
            proof {
                lemma_join_push(ps, "\n"@, i as int);
            }
        } else {
            proof {
                assert(ps.take(1) =~= seq![ps[0]]);
            }
        }
        s.append(parts[i].as_str());
        i = i + 1;
    }
    proof {
        assert(ps.take(parts.len() as int) =~= ps);
    }
    s
}

/// Append the [`head_lines`] of `p`.
fn push_head_lines(lines: &mut Vec<String>, p: &SummaryParams)
    ensures
        crate::utils::views(final(lines)@) == crate::utils::views(old(lines)@) + head_lines(*p),
{
    let ghost start = crate::utils::views(lines@);
    add_line(lines, concat("Base URL: ", p.base_url));
    add_line(lines, concat("Source: ", p.source));
    let mode_text = match p.mode {
        CrawlMode::Crawl => "Crawl chapters",
        CrawlMode::CrawlEpub => "Crawl chapters and build EPUB",
        CrawlMode::EpubOnly => "Build EPUB from existing chapters",
    };
    add_line(lines, concat("Mode: ", mode_text));
    if p.mode != CrawlMode::EpubOnly {
        add_line(lines, concat("Output root: ", p.output_root));
    }
    match epub_destination_dir(p.mode, p.output_root, p.chapter_dir, p.novel_title) {
        Some(d) => add_line(lines, concat("EPUB output: ", d.as_str())),
        None => {},
    }
    proof {
        assert(crate::utils::views(lines@) =~= start + head_lines(*p));
    }
}

/// Append the [`range_lines`] of `p`; true when a range was chosen.
fn push_range_lines(lines: &mut Vec<String>, p: &SummaryParams) -> (has_range: bool)
    ensures
        crate::utils::views(final(lines)@) == crate::utils::views(old(lines)@) + range_lines(*p),
        has_range == match p.chapter_numbers { Some(c) => c@.len() > 0, None => false },
{
    let ghost start = crate::utils::views(lines@);
    let mut has_range = false;
    match p.chapter_numbers {
        Some(c) => {
            if c.len() > 0 {
                has_range = true;
                let mut line = owned("Chapters: ");
                line.append(u64_to_string(c[0] as u64).as_str());
                line.append(" -> ");
                line.append(u64_to_string(c[c.len() - 1] as u64).as_str());
                line.append(" (");
                line.append(u64_to_string(c.len() as u64).as_str());
                line.append(" total)");
                add_line(lines, line);
            }
        },
        None => {},
    }
    proof {
        assert(crate::utils::views(lines@) =~= start + range_lines(*p));
    }
    has_range
}

/// Append the [`pacing_lines`] of `p`.
fn push_pacing_lines(lines: &mut Vec<String>, p: &SummaryParams, has_range: bool)
    requires
        has_range == match p.chapter_numbers { Some(c) => c@.len() > 0, None => false },
    ensures
        crate::utils::views(final(lines)@) == crate::utils::views(old(lines)@) + pacing_lines(*p),
{
    let ghost start = crate::utils::views(lines@);
    if p.mode != CrawlMode::EpubOnly || has_range {
        let note = if p.pacing_fixed_by_source {
            let mut n = concat(" (required by ", p.source);
            n.append(")");
            n
        } else {
            String::new()
        };
        let mut workers = concat("Workers: ", u64_to_string(p.workers as u64).as_str());
        workers.append(note.as_str());
        add_line(lines, workers);
        let mut delay = concat("Delay: ", p.delay);
        delay.append("s");
        delay.append(note.as_str());
        add_line(lines, delay);
        let policy = match p.if_exists {
            ExistingFilePolicy::Ask => "ask",
            ExistingFilePolicy::Skip => "skip",
            ExistingFilePolicy::Overwrite => "overwrite",
            ExistingFilePolicy::SkipAll => "skip-all",
        };
        add_line(lines, concat("If chapter exists: ", policy));
        add_line(lines, concat("Fast skip: ", if p.fast_skip { "yes" } else { "no" }));
    }
    proof {
        assert(crate::utils::views(lines@) =~= start + pacing_lines(*p));
    }
}

/// Append the [`tail_lines`] of `p`.
fn push_tail_lines(lines: &mut Vec<String>, p: &SummaryParams)
    ensures
        crate::utils::views(final(lines)@) == crate::utils::views(old(lines)@) + tail_lines(*p),
{
    let ghost start = crate::utils::views(lines@);
    match p.chapter_dir {
        Some(d) => add_line(lines, concat("Chapter directory: ", d)),
        None => {},
    }
    let build = p.mode != CrawlMode::Crawl;
    add_line(lines, concat("Build EPUB: ", if build { "yes" } else { "no" }));
    if build {
        match p.novel_title {
            Some(t) => add_line(lines, concat("Title: ", t)),
            None => {},
        }
        let author = match p.novel_author {
            Some(a) => a,
            None => "(none)",
        };
        add_line(lines, concat("Author: ", author));
        let font = match p.font_path {
            Some(f) => concat("Font path: ", f),
            None => owned("Font path: default packaged font"),
        };
        add_line(lines, font);
    }
    proof {
        assert(crate::utils::views(lines@) =~= start + tail_lines(*p));
    }
}

/// The confirmation screen's text: one line per chosen option.
pub fn build_summary(params: SummaryParams) -> (s: String)
    ensures
        s@ == join(summary_lines(params), "\n"@),
{
    let mut lines: Vec<String> = Vec::new();
    push_head_lines(&mut lines, &params);
    let has_range = push_range_lines(&mut lines, &params);
    push_pacing_lines(&mut lines, &params, has_range);
    push_tail_lines(&mut lines, &params);
    proof {
        assert(summary_lines(params) =~= crate::utils::views(lines@));
    }
    join_lines(&lines)
}

} // verus!
