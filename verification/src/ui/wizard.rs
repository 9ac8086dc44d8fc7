//! The interactive wizard's routing between steps, and the choices its
//! steps make that do not need the terminal.

use vstd::prelude::*;
use crate::source::{ref_views, ChapterRef, Novel, NovelView};
use crate::crawler::ExistingFilePolicy;
use crate::source::registry::{resolves, validate_url, Adapter};
use crate::text::{chars_of, concat, is_empty_str, owned, parse_u32, parse_usize, parsed_u32, parsed_usize};
use crate::text::join;
use crate::ui::plan::{add_line, join_lines, CrawlMode};
use crate::ui::prompts::PromptOutcome;
use crate::utils::views;
use crate::utils::{matches_at, occurs_at, trim, trim_str};

verus! {

/// One screen of the wizard.
#[derive(Debug, Clone, Copy, PartialEq, Eq, Structural)]
pub enum WizardStep {
    /// Greeting.
    Welcome,
    /// The novel's URL.
    BaseUrl,
    /// What the run does.
    Mode,
    /// Where chapters are written.
    OutputRoot,
    /// Fetching the novel's metadata and index.
    Discover,
    /// The book title.
    Title,
    /// The author.
    Author,
    /// First chapter to download.
    StartChapter,
    /// Last chapter to download.
    EndChapter,
    /// Download workers.
    Workers,
    /// Spacing between requests.
    Delay,
    /// What to do with chapters already on disk.
    IfExists,
    /// The chapter directory to package.
    ChapterDir,
    /// Whether to skip existing chapters without reading them.
    FastSkip,
    /// Which font to embed.
    FontChoice,
    /// The custom font's path.
    FontPath,
    /// The final confirmation.
    Confirm,
}

/// The step after the mode select: EPUB-only packages an existing directory,
/// so it asks for that directory rather than for an output root.
pub fn step_after_mode(mode: CrawlMode) -> (s: WizardStep)
    ensures
        s == (if mode == CrawlMode::EpubOnly { WizardStep::ChapterDir } else { WizardStep::OutputRoot }),
{
    match mode {
        CrawlMode::EpubOnly => WizardStep::ChapterDir,
        CrawlMode::Crawl | CrawlMode::CrawlEpub => WizardStep::OutputRoot,
    }
}

/// The step after the end chapter: a source that fixes its own pacing skips
/// the worker and delay prompts, whose answers it would override.
pub fn step_after_end_chapter(pacing_is_fixed: bool) -> (s: WizardStep)
    ensures
        s == (if pacing_is_fixed { WizardStep::IfExists } else { WizardStep::Workers }),
{
    if pacing_is_fixed {
        WizardStep::IfExists
    } else {
        WizardStep::Workers
    }
}

/// The step before the existing-file policy, mirroring the forward route so
/// Esc retraces exactly the screens the user saw.
pub fn step_before_if_exists(pacing_is_fixed: bool) -> (s: WizardStep)
    ensures
        s == (if pacing_is_fixed { WizardStep::EndChapter } else { WizardStep::Delay }),
{
    if pacing_is_fixed {
        WizardStep::EndChapter
    } else {
        WizardStep::Delay
    }
}

/// The screens the forward route passes from the end chapter to the
/// existing-file policy.
pub open spec fn forward_route(pacing_is_fixed: bool) -> Seq<WizardStep> {
    if pacing_is_fixed {
        seq![WizardStep::EndChapter, WizardStep::IfExists]
    } else {
        seq![WizardStep::EndChapter, WizardStep::Workers, WizardStep::Delay, WizardStep::IfExists]
    }
}

/// Going back from the existing-file policy lands on the screen the
/// forward route showed just before it, whether or not the source fixes the
/// pacing.
pub proof fn lemma_back_mirrors_forward(pacing_is_fixed: bool)
    ensures
        forward_route(pacing_is_fixed)[0] == WizardStep::EndChapter,
        forward_route(pacing_is_fixed)[1] == (if pacing_is_fixed { WizardStep::IfExists } else { WizardStep::Workers }),
        forward_route(pacing_is_fixed).last() == WizardStep::IfExists,
        forward_route(pacing_is_fixed)[forward_route(pacing_is_fixed).len() - 2]
            == (if pacing_is_fixed { WizardStep::EndChapter } else { WizardStep::Delay }),
{
}

/// The step Esc returns to from the title prompt.
pub fn step_before_title(mode: CrawlMode) -> (s: WizardStep)
    ensures
        s == (if mode == CrawlMode::EpubOnly { WizardStep::ChapterDir } else { WizardStep::Discover }),
{
    if mode == CrawlMode::EpubOnly { WizardStep::ChapterDir } else { WizardStep::Discover }
}

/// The step after the author prompt: EPUB-only needs no chapter range.
pub fn step_after_author(mode: CrawlMode) -> (s: WizardStep)
    ensures
        s == (if mode == CrawlMode::EpubOnly { WizardStep::FontChoice } else { WizardStep::StartChapter }),
{
    if mode == CrawlMode::EpubOnly { WizardStep::FontChoice } else { WizardStep::StartChapter }
}

/// The entries of `index` whose number is among `numbers`, in index order;
/// nothing when no range was chosen.
pub open spec fn selected(index: Seq<ChapterRef>, numbers: Option<Seq<u32>>) -> Seq<(u32, Option<Seq<char>>, Seq<char>)>
    decreases index.len(),
{
    match numbers {
        None => Seq::empty(),
        Some(ns) => if index.len() == 0 {
            Seq::empty()
        } else {
            let r = selected(index.drop_last(), numbers);
            if ns.contains(index.last().number) { r.push(index.last()@) } else { r }
        },
    }
}

/// Whether `n` is among `numbers`.
fn contains_number(numbers: &[u32], n: u32) -> (r: bool)
    ensures
        r == numbers@.contains(n),
{
    let mut i: usize = 0;
    while i < numbers.len()
        invariant
            i <= numbers.len(),
            forall|k: int| 0 <= k < i ==> numbers@[k] != n,
        decreases numbers.len() - i,
    {
        if numbers[i] == n {
            return true;
        }
        i = i + 1;
    }
    false
}

/// Slice a source's chapter index down to the chosen chapter numbers.
/// Returns nothing when no range was chosen (EPUB-only) or when discovery
/// never produced an index.
pub fn select_chapters(index: &[ChapterRef], numbers: Option<&[u32]>) -> (res: Vec<ChapterRef>)
    ensures
        ref_views(res@) == selected(index@, match numbers { Some(n) => Some(n@), None => None }),
{
    let ghost ns = match numbers { Some(n) => Some(n@), None => None };
    let mut res: Vec<ChapterRef> = Vec::new();
    let nums = match numbers {
        None => {
            proof {
                assert(ref_views(res@) =~= Seq::<(u32, Option<Seq<char>>, Seq<char>)>::empty());
            }
            return res;
        },
        Some(n) => n,
    };
    let mut i: usize = 0;
    while i < index.len()
        invariant
            i <= index.len(),
            ns == Some(nums@),
            ref_views(res@) == selected(index@.take(i as int), ns),
        decreases index.len() - i,
    {
        proof {
            assert(index@.take(i as int + 1).drop_last() =~= index@.take(i as int));
        }
        if contains_number(nums, index[i].number) {
            let c = index[i].duplicate();
            proof {
                assert(ref_views(res@.push(c)) =~= ref_views(res@).push(c@));
            }
            res.push(c);
        }
        i = i + 1;
    }
    proof {
        assert(index@.take(index.len() as int) =~= index@);
    }
    res
}

/// Why the base-URL prompt refuses `value`, if it does: not an `http://` or
/// `https://` URL once trimmed, else what URL validation reports for the
/// trimmed value.
pub fn base_url_error(value: &str, allow_any_host: bool) -> (r: Option<String>)
    ensures
        ({
            let t = trim(value@);
            if t.len() == 0 || !(occurs_at(t, 0, "http://"@) || occurs_at(t, 0, "https://"@)) {
                r matches Some(m) && m@ == "Enter a valid http:// or https:// URL."@
            } else {
                exists|res: Result<Adapter, String>| #[trigger] resolves(t, allow_any_host, res) && match res {
                    Ok(_) => r is None,
                    Err(m) => r matches Some(e) && e@ == m@,
                }
            }
        }),
{
    let trimmed = trim_str(value);
    let t = chars_of(trimmed.as_str());
    let http = chars_of("http://");
    let https = chars_of("https://");
    if t.len() == 0 || !(matches_at(&t, 0, &http) || matches_at(&t, 0, &https)) {
        return Some(owned("Enter a valid http:// or https:// URL."));
    }
    validate_url(trimmed.as_str(), allow_any_host)
}

/// Why a prompt for a count refuses `value`, if it does: it must read as a
/// positive whole number.
pub fn positive_integer_error(value: &str) -> (r: Option<String>)
    ensures
        match parsed_u32(trim(value@)) {
            Some(n) if n > 0 => r is None,
            _ => r matches Some(m) && m@ == "Enter a positive integer."@,
        },
{
    match parse_u32(trim_str(value).as_str()) {
        Some(n) => if n > 0 { None } else { Some(owned("Enter a positive integer.")) },
        None => Some(owned("Enter a positive integer.")),
    }
}

/// Why the title prompt refuses `value`, if it does: a book needs a title.
pub fn title_error(value: &str) -> (r: Option<String>)
    ensures
        if trim(value@).len() == 0 { r matches Some(m) && m@ == "Enter a book title."@ } else { r is None },
{
    if is_empty_str(trim_str(value).as_str()) { Some(owned("Enter a book title.")) } else { None }
}

/// The author the author prompt records: the trimmed answer, none when
/// blank (kept as "no author" rather than looked up again later).
pub fn author_answer(value: &str) -> (r: Option<String>)
    ensures
        if trim(value@).len() == 0 { r is None } else { r matches Some(a) && a@ == trim(value@) },
{
    let t = trim_str(value);
    if is_empty_str(t.as_str()) { None } else { Some(t) }
}

/// The start chapter the start prompt offers: the one chosen so far, or 1.
pub fn start_chapter_initial(start: u32) -> (r: u32)
    ensures
        r == (if start == 0 { 1 } else { start }),
{
    if start == 0 { 1 } else { start }
}

/// The end chapter the end prompt offers: the one chosen so far, else the
/// last chapter discovery found, else the start chapter (at least 1).
pub fn end_chapter_initial(end: u32, last_discovered: Option<u32>, start: u32) -> (r: u32)
    ensures
        r == (if end > 0 { end } else {
            match last_discovered {
                Some(l) => l,
                None => if start == 0 { 1 } else { start },
            }
        }),
{
    if end > 0 {
        end
    } else {
        match last_discovered {
            Some(l) => l,
            None => if start == 0 { 1 } else { start },
        }
    }
}

/// A chapter number as a prompt answered it, or `fallback` when the answer
/// does not read as a number.
pub fn chapter_answer(value: &str, fallback: u32) -> (r: u32)
    ensures
        r == match parsed_u32(trim(value@)) {
            Some(n) => n,
            None => fallback,
        },
{
    match parse_u32(trim_str(value).as_str()) {
        Some(n) => n,
        None => fallback,
    }
}

/// Why the workers prompt refuses `value`, if it does: it must read as a
/// positive whole number.
pub fn workers_error(value: &str) -> (r: Option<String>)
    ensures
        match parsed_usize(trim(value@)) {
            Some(n) if n > 0 => r is None,
            _ => r matches Some(m) && m@ == "Enter a positive integer."@,
        },
{
    match parse_usize(trim_str(value).as_str()) {
        Some(n) => if n > 0 { None } else { Some(owned("Enter a positive integer.")) },
        None => Some(owned("Enter a positive integer.")),
    }
}

/// The worker count as the prompt answered it: the number read, at least 1.
pub fn workers_answer(value: &str) -> (r: usize)
    ensures
        r == match parsed_usize(trim(value@)) {
            Some(n) => if n == 0 { 1 } else { n },
            None => 1,
        },
{
    match parse_usize(trim_str(value).as_str()) {
        Some(n) => if n == 0 { 1 } else { n },
        None => 1,
    }
}

/// The existing-file policies offered: asking per chapter only when one
/// worker runs, since parallel workers cannot stop to ask.
pub fn if_exists_choices(workers: usize) -> (r: Vec<ExistingFilePolicy>)
    ensures
        r@ == (if workers <= 1 {
            seq![ExistingFilePolicy::Ask, ExistingFilePolicy::Skip, ExistingFilePolicy::Overwrite]
        } else {
            seq![ExistingFilePolicy::Skip, ExistingFilePolicy::Overwrite]
        }),
{
    let mut r: Vec<ExistingFilePolicy> = Vec::new();
    if workers <= 1 {
        r.push(ExistingFilePolicy::Ask);
    }
    r.push(ExistingFilePolicy::Skip);
    r.push(ExistingFilePolicy::Overwrite);
    proof {
        if workers <= 1 {
            assert(r@ =~= seq![ExistingFilePolicy::Ask, ExistingFilePolicy::Skip, ExistingFilePolicy::Overwrite]);
        } else {
            assert(r@ =~= seq![ExistingFilePolicy::Skip, ExistingFilePolicy::Overwrite]);
        }
    }
    r
}

/// The policy the existing-file select starts on: the current one, except
/// that asking, which parallel workers cannot do, becomes skipping.
pub fn if_exists_initial(workers: usize, current: ExistingFilePolicy) -> (r: ExistingFilePolicy)
    ensures
        r == (if workers > 1 && current == ExistingFilePolicy::Ask { ExistingFilePolicy::Skip } else { current }),
{
    if workers > 1 && current == ExistingFilePolicy::Ask { ExistingFilePolicy::Skip } else { current }
}

/// The step after the fast-skip question: a download-only run has no font
/// to choose.
pub fn step_after_fast_skip(mode: CrawlMode) -> (s: WizardStep)
    ensures
        s == (if mode == CrawlMode::Crawl { WizardStep::Confirm } else { WizardStep::FontChoice }),
{
    if mode == CrawlMode::Crawl { WizardStep::Confirm } else { WizardStep::FontChoice }
}

/// The step Esc returns to from the font choice.
pub fn step_before_font_choice(mode: CrawlMode) -> (s: WizardStep)
    ensures
        s == (if mode == CrawlMode::EpubOnly { WizardStep::Author } else { WizardStep::FastSkip }),
{
    if mode == CrawlMode::EpubOnly { WizardStep::Author } else { WizardStep::FastSkip }
}

/// Which font an EPUB embeds.
#[derive(Debug, Clone, PartialEq, Eq)]
pub enum FontChoice {
    /// The bundled font.
    Default,
    /// A font used before, at this path.
    Remembered(String),
    /// A font file the user names next.
    Custom,
}

/// The step after the font choice, and the font path the choice sets: a
/// custom font is asked for next; a remembered one is used as it is; the
/// bundled one clears any path.
pub fn after_font_choice(choice: &FontChoice, font_path: Option<String>) -> (r: (WizardStep, Option<String>))
    ensures
        match choice {
            FontChoice::Custom => r.0 == WizardStep::FontPath && r.1.deep_view() == font_path.deep_view(),
            FontChoice::Remembered(p) => r.0 == WizardStep::Confirm && r.1.deep_view() == Some(p@),
            FontChoice::Default => r.0 == WizardStep::Confirm && r.1 is None,
        },
{
    match choice {
        FontChoice::Custom => (WizardStep::FontPath, font_path),
        FontChoice::Remembered(p) => (WizardStep::Confirm, Some(owned(p.as_str()))),
        FontChoice::Default => (WizardStep::Confirm, None),
    }
}

/// The step Esc (or a "no") returns to from the confirmation.
pub fn step_before_confirm(mode: CrawlMode, choice: &FontChoice) -> (s: WizardStep)
    ensures
        s == (if mode == CrawlMode::Crawl {
            WizardStep::FastSkip
        } else if choice is Custom {
            WizardStep::FontPath
        } else {
            WizardStep::FontChoice
        }),
{
    match mode {
        CrawlMode::Crawl => WizardStep::FastSkip,
        CrawlMode::CrawlEpub | CrawlMode::EpubOnly => match choice {
            FontChoice::Custom => WizardStep::FontPath,
            FontChoice::Default | FontChoice::Remembered(_) => WizardStep::FontChoice,
        },
    }
}

/// The note shown when discovery could not read the novel.
pub fn discovery_failed_note(url: &str, error: &str) -> (s: String)
    ensures
        s@ == "Could not read "@ + url@ + ":\n"@ + error@
            + "\n\nYou can still enter the title, author, and chapter range manually."@,
{
    let mut s = concat("Could not read ", url);
    s.append(":\n");
    s.append(error);
    s.append("\n\nYou can still enter the title, author, and chapter range manually.");
    s
}

/// The note shown when the title prompt could not read the novel's
/// metadata to pre-fill it.
pub fn metadata_failed_note(url: &str, error: &str) -> (s: String)
    ensures
        s@ == "Could not read "@ + url@ + ":\n"@ + error@ + "\n\nYou can still enter the title and author manually."@,
{
    let mut s = concat("Could not read ", url);
    s.append(":\n");
    s.append(error);
    s.append("\n\nYou can still enter the title and author manually.");
    s
}

/// The wizard's answers about the novel itself: what discovery (or the
/// title step's metadata read) filled in, before the user edits it.
#[derive(Debug, Clone, PartialEq, Eq)]
pub struct NovelAnswers {
    /// The book title.
    pub title: Option<String>,
    /// The author.
    pub author: Option<String>,
    /// The cover image's address.
    pub cover_url: Option<String>,
    /// The publication status.
    pub status: Option<String>,
    /// The synopsis.
    pub description: Option<String>,
    /// The number of the last chapter discovery found.
    pub last_discovered: Option<u32>,
    /// The whole chapter index discovery read.
    pub chapter_index: Vec<ChapterRef>,
}

/// The plain-value form of [`NovelAnswers`]: title, author, cover address,
/// status, description, last chapter number and chapter index.
pub type NovelAnswersView = (
    Option<Seq<char>>,
    Option<Seq<char>>,
    Option<Seq<char>>,
    Option<Seq<char>>,
    Option<Seq<char>>,
    Option<u32>,
    Seq<(u32, Option<Seq<char>>, Seq<char>)>,
);

impl View for NovelAnswers {
    type V = NovelAnswersView;

    open spec fn view(&self) -> NovelAnswersView {
        (
            self.title.deep_view(),
            self.author.deep_view(),
            self.cover_url.deep_view(),
            self.status.deep_view(),
            self.description.deep_view(),
            self.last_discovered,
            ref_views(self.chapter_index@),
        )
    }
}

/// Where a wizard step leads once its screens are done.
#[derive(Debug, Clone, Copy, PartialEq, Eq, Structural)]
pub enum WizardRoute {
    /// On to this step.
    Go(WizardStep),
    /// End the wizard.
    Quit,
    /// Stay in the step and show its prompt.
    Prompt,
}

/// What a step does after a loading screen: route on, or first show a note.
#[derive(Debug, Clone, PartialEq, Eq)]
pub enum StepNext {
    /// Route on without a note.
    Route(WizardRoute),
    /// Show this note; its outcome decides the route.
    Note {
        /// The note's title.
        title: String,
        /// The note's text.
        body: String,
    },
}

/// Whether `r` is the note with this title and text.
pub open spec fn is_note(r: StepNext, title: Seq<char>, body: Seq<char>) -> bool {
    r matches StepNext::Note { title: t, body: b } && t@ == title && b@ == body
}

/// A line `prefix` + the value, when there is a value.
pub open spec fn optional_line(prefix: Seq<char>, value: Option<Seq<char>>) -> Seq<Seq<char>> {
    match value {
        Some(v) => seq![prefix + v],
        None => Seq::empty(),
    }
}

/// The lines of the note shown after discovery: title, author and status
/// where known, the chapter summary, then the description under a heading
/// after a blank line.
pub open spec fn novel_note_lines(n: NovelView, chapter_summary: Seq<Seq<char>>) -> Seq<Seq<char>> {
    seq!["Title: "@ + n.0] + optional_line("Author: "@, n.1) + optional_line("Status: "@, n.3) + chapter_summary
        + match n.2 {
        Some(d) => seq![Seq::<char>::empty(), "Description:"@, d],
        None => Seq::empty(),
    }
}

/// The number of the last entry of a chapter index, if it has one.
pub open spec fn last_number(index: Seq<(u32, Option<Seq<char>>, Seq<char>)>) -> Option<u32> {
    if index.len() == 0 {
        None
    } else {
        Some(index.last().0)
    }
}

/// The answers discovery of the novel `n` leaves: every novel field taken
/// from it, and the last chapter number from its index.
pub open spec fn discovered_answers(n: NovelView) -> NovelAnswersView {
    (Some(n.0), n.1, n.4, n.3, n.2, last_number(n.5), n.5)
}

/// The text the discovery failure note adds after the failure message.
pub open spec fn discovery_failure_hint() -> Seq<char> {
    "\n\nYou can still enter the title, author, and chapter range manually."@
}

/// `line` added to the note being built, when there is a value.
fn add_optional_line(lines: &mut Vec<String>, prefix: &str, value: &Option<String>)
    ensures
        views(final(lines)@) == views(old(lines)@) + optional_line(prefix@, value.deep_view()),
{
    match value {
        Some(v) => {
            add_line(lines, concat(prefix, v.as_str()));
        },
        None => {
            assert(views(lines@) =~= views(lines@) + Seq::<Seq<char>>::empty());
        },
    }
}

/// The note shown after discovery, as [`novel_note_lines`] describes,
/// joined by line breaks.
fn novel_note(novel: &Novel, chapter_summary: &Vec<String>) -> (s: String)
    ensures
        s@ == join(novel_note_lines(novel@, views(chapter_summary@)), "\n"@),
{
    let mut lines: Vec<String> = Vec::new();
    add_line(&mut lines, concat("Title: ", novel.title.as_str()));
    add_optional_line(&mut lines, "Author: ", &novel.author);
    add_optional_line(&mut lines, "Status: ", &novel.status);
    let ghost head = views(lines@);
    let mut i: usize = 0;
    while i < chapter_summary.len()
        invariant
            i <= chapter_summary.len(),
            views(lines@) == head + views(chapter_summary@).take(i as int),
        decreases chapter_summary.len() - i,
    {
        add_line(&mut lines, owned(chapter_summary[i].as_str()));
        proof {
            assert(views(chapter_summary@).take(i + 1) =~= views(chapter_summary@).take(i as int).push(chapter_summary@[i as int]@));
        }
        i = i + 1;
    }
    proof {
        assert(views(chapter_summary@).take(chapter_summary.len() as int) =~= views(chapter_summary@));
    }
    match &novel.description {
        Some(d) => {
            add_line(&mut lines, String::new());
            add_line(&mut lines, owned("Description:"));
            add_line(&mut lines, owned(d.as_str()));
        },
        None => {},
    }
    proof {
        assert(views(lines@) =~= novel_note_lines(novel@, views(chapter_summary@)));
    }
    join_lines(&lines)
}

/// What the discovery step does with the loading screen's outcome: on a
/// loaded novel, take its fields into the answers and show the "Novel" note
/// (whose lines include `chapter_summary`, the plan's chapter summary of
/// the novel's index); on a failure, show the failure note with the answers
/// untouched; on Esc go back to the output root; on Ctrl+C quit.
pub fn discovery_outcome(
    outcome: PromptOutcome<Result<Novel, String>>,
    answers: NovelAnswers,
    chapter_summary: Vec<String>,
) -> (r: (NovelAnswers, StepNext))
    ensures
        match outcome {
            PromptOutcome::Submitted(Ok(n)) => r.0@ == discovered_answers(n@)
                && is_note(r.1, "Novel"@, join(novel_note_lines(n@, views(chapter_summary@)), "\n"@)),
            PromptOutcome::Submitted(Err(m)) => r.0@ == answers@
                && is_note(r.1, "Discovery failed"@, m@ + discovery_failure_hint()),
            PromptOutcome::Back => r.0@ == answers@ && r.1 == StepNext::Route(WizardRoute::Go(WizardStep::OutputRoot)),
            PromptOutcome::Quit => r.0@ == answers@ && r.1 == StepNext::Route(WizardRoute::Quit),
        },
{
    match outcome {
        PromptOutcome::Submitted(Ok(n)) => {
            let body = novel_note(&n, &chapter_summary);
            let last = if n.chapters.len() == 0 {
                None
            } else {
                Some(n.chapters[n.chapters.len() - 1].number)
            };
            let a = NovelAnswers {
                title: Some(n.title),
                author: n.author,
                cover_url: n.cover_url,
                status: n.status,
                description: n.description,
                last_discovered: last,
                chapter_index: n.chapters,
            };
            (a, StepNext::Note { title: owned("Novel"), body })
        },
        PromptOutcome::Submitted(Err(m)) => {
            let mut body = m;
            body.append("\n\nYou can still enter the title, author, and chapter range manually.");
            (answers, StepNext::Note { title: owned("Discovery failed"), body })
        },
        PromptOutcome::Back => (answers, StepNext::Route(WizardRoute::Go(WizardStep::OutputRoot))),
        PromptOutcome::Quit => (answers, StepNext::Route(WizardRoute::Quit)),
    }
}

/// Where the discovery step leads once its note is dismissed: on to the
/// title, back to the output root, or out.
pub fn after_discovery_note(outcome: PromptOutcome<()>) -> (r: WizardRoute)
    ensures
        r == match outcome {
            PromptOutcome::Submitted(_) => WizardRoute::Go(WizardStep::Title),
            PromptOutcome::Back => WizardRoute::Go(WizardStep::OutputRoot),
            PromptOutcome::Quit => WizardRoute::Quit,
        },
{
    match outcome {
        PromptOutcome::Submitted(_) => WizardRoute::Go(WizardStep::Title),
        PromptOutcome::Back => WizardRoute::Go(WizardStep::OutputRoot),
        PromptOutcome::Quit => WizardRoute::Quit,
    }
}

/// Whether the title step reads the novel's metadata before prompting: only
/// EPUB-only mode reaches it without discovery, and only while no title is
/// known.
pub fn needs_prefill(mode: CrawlMode, title: &Option<String>) -> (r: bool)
    ensures
        r == (mode == CrawlMode::EpubOnly && title is None),
{
    mode == CrawlMode::EpubOnly && title.is_none()
}

/// What the title step does with the metadata read's outcome: on a loaded
/// novel, take its title, author and cover address and go on to the prompt;
/// on a failure, show the failure note; on Esc go back to `back`; on Ctrl+C
/// quit.
pub fn prefill_outcome(outcome: PromptOutcome<Result<Novel, String>>, answers: NovelAnswers, back: WizardStep) -> (r: (
    NovelAnswers,
    StepNext,
))
    ensures
        match outcome {
            PromptOutcome::Submitted(Ok(n)) => r.0@ == (Some(n@.0), n@.1, n@.4, answers@.3, answers@.4, answers@.5, answers@.6)
                && r.1 == StepNext::Route(WizardRoute::Prompt),
            PromptOutcome::Submitted(Err(m)) => r.0@ == answers@
                && is_note(r.1, "Could not read novel info"@, m@ + "\n\nYou can still enter the title and author manually."@),
            PromptOutcome::Back => r.0@ == answers@ && r.1 == StepNext::Route(WizardRoute::Go(back)),
            PromptOutcome::Quit => r.0@ == answers@ && r.1 == StepNext::Route(WizardRoute::Quit),
        },
{
    match outcome {
        PromptOutcome::Submitted(Ok(n)) => {
            let mut a = answers;
            a.title = Some(n.title);
            a.author = n.author;
            a.cover_url = n.cover_url;
            (a, StepNext::Route(WizardRoute::Prompt))
        },
        PromptOutcome::Submitted(Err(m)) => {
            let mut body = m;
            body.append("\n\nYou can still enter the title and author manually.");
            (answers, StepNext::Note { title: owned("Could not read novel info"), body })
        },
        PromptOutcome::Back => (answers, StepNext::Route(WizardRoute::Go(back))),
        PromptOutcome::Quit => (answers, StepNext::Route(WizardRoute::Quit)),
    }
}

/// Where the title step leads once its failure note is dismissed: on to
/// the prompt, back to `back`, or out.
pub fn after_prefill_note(outcome: PromptOutcome<()>, back: WizardStep) -> (r: WizardRoute)
    ensures
        r == match outcome {
            PromptOutcome::Submitted(_) => WizardRoute::Prompt,
            PromptOutcome::Back => WizardRoute::Go(back),
            PromptOutcome::Quit => WizardRoute::Quit,
        },
{
    match outcome {
        PromptOutcome::Submitted(_) => WizardRoute::Prompt,
        PromptOutcome::Back => WizardRoute::Go(back),
        PromptOutcome::Quit => WizardRoute::Quit,
    }
}

} // verus!
