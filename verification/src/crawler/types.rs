//! Outcome and policy vocabulary of a single chapter download.

use vstd::prelude::*;
use crate::text::{chars_of, decimal, push_decimal, string_of};

verus! {

/// What happened to one chapter.
#[derive(Debug, Clone, Copy, PartialEq, Eq, Structural)]
pub enum CrawlStatus {
    /// The chapter was fetched and written.
    Written,
    /// The chapter file already existed and was skipped.
    Skipped,
    /// The chapter was skipped, and every later existing chapter will be too.
    SkipAll,
}

/// What to do when a chapter file already exists.
#[derive(Debug, Clone, Copy, PartialEq, Eq, Structural)]
pub enum ExistingFilePolicy {
    /// Ask the user for each existing chapter.
    Ask,
    /// Keep the existing file.
    Skip,
    /// Download again and replace the file.
    Overwrite,
    /// Keep this and every later existing file without asking.
    SkipAll,
}

/// The user's answer when asked about one existing chapter.
#[derive(Debug, Clone, Copy, PartialEq, Eq, Structural)]
pub enum ExistingChapterDecision {
    /// Download it again.
    Redownload,
    /// Keep the existing file.
    Skip,
    /// Keep this and every later existing file.
    SkipAll,
}

/// `n` in decimal, zero-padded to four digits (`format!("{:04}", n)`).
pub open spec fn pad4(n: nat) -> Seq<char> {
    if n < 10 {
        seq!['0', '0', '0'] + decimal(n)
    } else if n < 100 {
        seq!['0', '0'] + decimal(n)
    } else if n < 1000 {
        seq!['0'] + decimal(n)
    } else {
        decimal(n)
    }
}

/// The file a chapter is saved in, inside the novel's directory:
/// `chapter_0007.html` for chapter 7, so names sort in reading order.
pub fn chapter_file_name(number: u32) -> (s: String)
    ensures
        s@ == "chapter_"@ + pad4(number as nat) + ".html"@,
{
    let mut v: Vec<char> = Vec::new();
    let prefix = chars_of("chapter_");
    let mut i: usize = 0;
    while i < prefix.len()
        invariant
            i <= prefix.len(),
            v@ == prefix@.take(i as int),
        decreases prefix.len() - i,
    {
        v.push(prefix[i]);
        i = i + 1;
        proof {
            assert(v@ =~= prefix@.take(i as int));
        }
    }
    proof {
        assert(prefix@.take(prefix.len() as int) =~= prefix@);
    }
    let ghost head = v@;
    if number < 10 {
        v.push('0');
        v.push('0');
        v.push('0');
    } else if number < 100 {
        v.push('0');
        v.push('0');
    } else if number < 1000 {
        v.push('0');
    }
    let ghost padded = v@;
    push_decimal(number as u64, &mut v);
    v.push('.');
    v.push('h');
    v.push('t');
    v.push('m');
    v.push('l');
    proof {
        reveal_strlit(".html");
        assert(padded =~= head + (pad4(number as nat).take(pad4(number as nat).len() - decimal(number as nat).len())));
        assert(v@ =~= "chapter_"@ + pad4(number as nat) + ".html"@);
    }
    string_of(v.as_slice())
}

/// What happens to a chapter before anything is fetched, given whether its
/// file already exists.
#[derive(Debug, Clone, Copy, PartialEq, Eq, Structural)]
pub enum ExistingStep {
    /// Fetch the chapter and write its file.
    Fetch,
    /// Keep the file that is there, reporting this status.
    Keep(CrawlStatus),
    /// Ask the user what to do.
    Ask,
}

/// What happens to a chapter whose file exists or not: a missing file is
/// fetched; an existing one is kept once the run has been told to skip every
/// existing file, else the policy decides (keep, overwrite, or ask).
pub fn existing_chapter_step(exists: bool, if_exists: ExistingFilePolicy, run_policy: ExistingFilePolicy) -> (s: ExistingStep)
    ensures
        s == (if !exists {
            ExistingStep::Fetch
        } else if run_policy == ExistingFilePolicy::SkipAll {
            ExistingStep::Keep(CrawlStatus::Skipped)
        } else {
            match if_exists {
                ExistingFilePolicy::Skip | ExistingFilePolicy::SkipAll => ExistingStep::Keep(CrawlStatus::Skipped),
                ExistingFilePolicy::Overwrite => ExistingStep::Fetch,
                ExistingFilePolicy::Ask => ExistingStep::Ask,
            }
        }),
{
    if !exists {
        return ExistingStep::Fetch;
    }
    if run_policy == ExistingFilePolicy::SkipAll {
        return ExistingStep::Keep(CrawlStatus::Skipped);
    }
    match if_exists {
        ExistingFilePolicy::Skip | ExistingFilePolicy::SkipAll => ExistingStep::Keep(CrawlStatus::Skipped),
        ExistingFilePolicy::Overwrite => ExistingStep::Fetch,
        ExistingFilePolicy::Ask => ExistingStep::Ask,
    }
}

/// What the user's answer about an existing chapter leads to: download it
/// again, keep it, or keep it and every later existing file.
pub fn answered_step(decision: ExistingChapterDecision) -> (s: ExistingStep)
    ensures
        s == match decision {
            ExistingChapterDecision::Redownload => ExistingStep::Fetch,
            ExistingChapterDecision::Skip => ExistingStep::Keep(CrawlStatus::Skipped),
            ExistingChapterDecision::SkipAll => ExistingStep::Keep(CrawlStatus::SkipAll),
        },
{
    match decision {
        ExistingChapterDecision::Redownload => ExistingStep::Fetch,
        ExistingChapterDecision::Skip => ExistingStep::Keep(CrawlStatus::Skipped),
        ExistingChapterDecision::SkipAll => ExistingStep::Keep(CrawlStatus::SkipAll),
    }
}

} // verus!
