//! Reading the chapter index off the site.
//!
//! Chapter addresses cannot be synthesized, because a chapter published as an
//! extension of an earlier one carries a suffix beyond that chapter's number
//! and a numeric range would omit it. The index instead comes from the
//! endpoint the site's own reader uses, paged by chapter position. Positions
//! are a contiguous `1..N` run, so the novel's own chapter groups are not
//! needed to drive the paging. The walk alternates requests with the
//! decisions below: which positions to ask for next, what a page adds to the
//! index, and whether another page is due.

use vstd::prelude::*;
use crate::html::{select_text, selected_texts};
use crate::source::{ref_views, ChapterRef};
use crate::source::xtruyen::api::{entry_title, form_body, group_form_body, ChapterEntry, CHAPTERS_ENDPOINT};
use crate::source::xtruyen::parser::{chapter_url, chapter_url_of, origin_of, origin_of_parsed};
use crate::text::{concat, decimal, str_eq, str_result, u64_to_string};
use crate::urls::parsed_url;
use crate::utils::{first_clean, first_clean_text, first_nonempty, first_nonempty_text};

verus! {

/// Chapter positions requested per call. The live endpoint honors a few
/// hundred and silently clamps beyond that; 400 sits inside the honored
/// range with margin.
pub const PAGE_SIZE: usize = 400;

/// Upper bound on pages read, so a site that never returns a short page
/// cannot spin forever: at [`PAGE_SIZE`] per page this allows 200,000
/// chapters, far beyond anything the site publishes.
pub const MAX_PAGES: usize = 500;

/// This chapter's own label: the heading above the prose, else the label of
/// the reader's floating player. Only used when the index supplied no title.
pub open spec fn chapter_label_of(html: Seq<char>) -> Option<Seq<char>> {
    let heading = match selected_texts(html, ".entry-header h2"@) {
        Some(ts) => first_nonempty(ts),
        None => None,
    };
    match heading {
        Some(t) => Some(t),
        None => first_clean(selected_texts(html, "#tts-mini-chapter-title"@)),
    }
}

/// This chapter's own label, as [`chapter_label_of`] describes.
pub fn parse_chapter_title(page_html: &str) -> (r: Option<String>)
    ensures
        r.deep_view() == chapter_label_of(page_html@),
{
    let heading = match select_text(page_html, ".entry-header h2") {
        Some(ts) => first_nonempty_text(&ts),
        None => None,
    };
    match heading {
        Some(t) => Some(t),
        None => first_clean_text(&select_text(page_html, "#tts-mini-chapter-title")),
    }
}

/// The address of the chapter-group endpoint for a novel URL: the site
/// origin followed by the endpoint path.
pub open spec fn endpoint_of(novel_url: Seq<char>) -> Result<Seq<char>, Seq<char>> {
    match origin_of_parsed(novel_url, parsed_url(novel_url)) {
        Ok(o) => Ok(o + CHAPTERS_ENDPOINT@),
        Err(e) => Err(e),
    }
}

/// The address of the chapter-group endpoint, as [`endpoint_of`] describes.
pub fn index_endpoint(novel_url: &str) -> (r: Result<String, String>)
    ensures
        str_result(r) == endpoint_of(novel_url@),
{
    match origin_of(novel_url) {
        Ok(o) => Ok(concat(o.as_str(), CHAPTERS_ENDPOINT)),
        Err(e) => Err(e),
    }
}

/// The first chapter position index page `page` asks for.
pub open spec fn page_from(page: nat) -> nat {
    (1 + page * PAGE_SIZE) as nat
}

/// The form body asking for index page `page` of the novel `manga_id`:
/// positions `from` through `from + PAGE_SIZE - 1`.
pub open spec fn page_request(manga_id: Seq<char>, page: nat) -> Seq<char> {
    form_body(manga_id, decimal(page_from(page)), decimal((page_from(page) + PAGE_SIZE - 1) as nat))
}

/// The form body asking for index page `page`, as [`page_request`]
/// describes.
pub fn index_page_body(manga_id: &str, page: usize) -> (r: String)
    requires
        page < MAX_PAGES,
    ensures
        r@ == page_request(manga_id@, page as nat),
{
    let from: u64 = 1 + (page as u64) * 400;
    let to: u64 = from + 399;
    let f = u64_to_string(from);
    let t = u64_to_string(to);
    group_form_body(manga_id, f.as_str(), t.as_str())
}

/// Whether the walk asks for another page after one that returned
/// `received` entries: a page shorter than [`PAGE_SIZE`] is the tail (past
/// the end the endpoint answers an empty list, so a novel whose length is an
/// exact multiple of the page size costs one extra call), and at most
/// [`MAX_PAGES`] pages are read.
pub fn index_continues(page: usize, received: usize) -> (r: bool)
    ensures
        r == (received >= PAGE_SIZE && page + 1 < MAX_PAGES),
{
    received >= PAGE_SIZE && page < MAX_PAGES - 1
}

/// The locators of an index.
pub open spec fn locators(index: Seq<(u32, Option<Seq<char>>, Seq<char>)>) -> Seq<Seq<char>> {
    index.map_values(|c: (u32, Option<Seq<char>>, Seq<char>)| c.2)
}

/// The index after a page of entries: each entry's address is resolved
/// against the novel URL, and an address already in the index is skipped;
/// a new one becomes the next chapter, titled from the entry. An address
/// that does not resolve fails the whole index.
pub open spec fn absorbed(
    index: Seq<(u32, Option<Seq<char>>, Seq<char>)>,
    novel_url: Seq<char>,
    entries: Seq<(Seq<char>, Seq<char>, Seq<char>)>,
) -> Result<Seq<(u32, Option<Seq<char>>, Seq<char>)>, Seq<char>>
    decreases entries.len(),
{
    if entries.len() == 0 {
        Ok(index)
    } else {
        match chapter_url_of(novel_url, entries[0].0) {
            Err(e) => Err(e),
            Ok(loc) => {
                let next = if locators(index).contains(loc) {
                    index
                } else {
                    index.push(((index.len() + 1) as u32, Some(entry_title(entries[0].1, entries[0].2)), loc))
                };
                absorbed(next, novel_url, entries.skip(1))
            },
        }
    }
}

/// Whether an index numbers its chapters `1..N` in order and lists each
/// address once.
pub open spec fn well_indexed(index: Seq<(u32, Option<Seq<char>>, Seq<char>)>) -> bool {
    &&& forall|i: int| 0 <= i < index.len() ==> (#[trigger] index[i]).0 == i + 1
    &&& forall|i: int, j: int| 0 <= i < j < index.len() ==> (#[trigger] index[i]).2 != (#[trigger] index[j]).2
}

/// Absorbing a page of entries keeps an index numbered `1..N` with each
/// address once, however the pages overlap.
pub proof fn lemma_absorbed_well_indexed(
    index: Seq<(u32, Option<Seq<char>>, Seq<char>)>,
    novel_url: Seq<char>,
    entries: Seq<(Seq<char>, Seq<char>, Seq<char>)>,
)
    requires
        well_indexed(index),
        index.len() + entries.len() < u32::MAX,
    ensures
        match absorbed(index, novel_url, entries) {
            Ok(r) => well_indexed(r) && r.len() <= index.len() + entries.len(),
            Err(_) => true,
        },
    decreases entries.len(),
{
    if entries.len() > 0 {
        match chapter_url_of(novel_url, entries[0].0) {
            Err(_) => {},
            Ok(loc) => {
                let next = if locators(index).contains(loc) {
                    index
                } else {
                    index.push(((index.len() + 1) as u32, Some(entry_title(entries[0].1, entries[0].2)), loc))
                };
                if !locators(index).contains(loc) {
                    assert forall|i: int, j: int| 0 <= i < j < next.len() implies (#[trigger] next[i]).2 != (#[trigger] next[j]).2 by {
                        if j == index.len() {
                            assert(locators(index)[i] == index[i].2);
                        }
                    }
                }
                lemma_absorbed_well_indexed(next, novel_url, entries.skip(1));
            },
        }
    }
}

/// Whether `locator` is already in the index.
fn indexed(chapters: &Vec<ChapterRef>, locator: &str) -> (r: bool)
    ensures
        r == locators(ref_views(chapters@)).contains(locator@),
{
    let ghost lv = locators(ref_views(chapters@));
    let mut i: usize = 0;
    while i < chapters.len()
        invariant
            i <= chapters.len(),
            lv == locators(ref_views(chapters@)),
            forall|j: int| 0 <= j < i ==> lv[j] != locator@,
        decreases chapters.len() - i,
    {
        proof {
            assert(lv[i as int] == chapters@[i as int].locator@);
        }
        if str_eq(chapters[i].locator.as_str(), locator) {
            return true;
        }
        i = i + 1;
    }
    false
}

/// Add a page of entries to the index, as [`absorbed`] describes.
pub fn absorb_index_page(novel_url: &str, chapters: Vec<ChapterRef>, entries: &Vec<ChapterEntry>) -> (r: Result<Vec<ChapterRef>, String>)
    requires
        chapters.len() + entries.len() < u32::MAX,
    ensures
        match r {
            Ok(c) => absorbed(ref_views(chapters@), novel_url@, entries@.map_values(|e: ChapterEntry| e@)) == Ok::<_, Seq<char>>(ref_views(c@)),
            Err(e) => absorbed(ref_views(chapters@), novel_url@, entries@.map_values(|e: ChapterEntry| e@)) == Err::<Seq<(u32, Option<Seq<char>>, Seq<char>)>, _>(e@),
        },
{
    let ghost ev = entries@.map_values(|e: ChapterEntry| e@);
    let ghost goal = absorbed(ref_views(chapters@), novel_url@, ev);
    let mut out = chapters;
    let mut i: usize = 0;
    proof {
        assert(ev.skip(0) =~= ev);
    }
    while i < entries.len()
        invariant
            i <= entries.len(),
            ev == entries@.map_values(|e: ChapterEntry| e@),
            out.len() + (entries.len() - i) < u32::MAX,
            goal == absorbed(ref_views(chapters@), novel_url@, ev),
            goal == absorbed(ref_views(out@), novel_url@, ev.skip(i as int)),
        decreases entries.len() - i,
    {
        proof {
            assert(ev.skip(i as int)[0] == entries@[i as int]@);
            assert(ev.skip(i as int).skip(1) =~= ev.skip(i + 1));
        }
        let entry = &entries[i];
        let locator = match chapter_url(novel_url, entry.slug.as_str()) {
            Ok(l) => l,
            Err(e) => return Err(e),
        };
        if !indexed(&out, locator.as_str()) {
            let number = (out.len() + 1) as u32;
            let c = ChapterRef { number, title: Some(entry.display_title()), locator };
            proof {
                assert(ref_views(out@.push(c)) =~= ref_views(out@).push(c@));
            }
            out.push(c);
        }
        i = i + 1;
    }
    proof {
        assert(ev.skip(i as int) =~= Seq::<(Seq<char>, Seq<char>, Seq<char>)>::empty());
    }
    Ok(out)
}

/// The finished index, or the error for a novel that yielded no chapters:
/// an empty index would silently produce an empty book.
pub open spec fn finished(novel_url: Seq<char>, index: Seq<(u32, Option<Seq<char>>, Seq<char>)>) -> Result<Seq<(u32, Option<Seq<char>>, Seq<char>)>, Seq<char>> {
    if index.len() == 0 {
        Err("no chapters found for "@ + novel_url)
    } else {
        Ok(index)
    }
}

/// The finished index, as [`finished`] describes.
pub fn finish_index(novel_url: &str, chapters: Vec<ChapterRef>) -> (r: Result<Vec<ChapterRef>, String>)
    ensures
        match r {
            Ok(c) => finished(novel_url@, ref_views(chapters@)) == Ok::<_, Seq<char>>(ref_views(c@)),
            Err(e) => finished(novel_url@, ref_views(chapters@)) == Err::<Seq<(u32, Option<Seq<char>>, Seq<char>)>, _>(e@),
        },
{
    if chapters.len() == 0 {
        Err(concat("no chapters found for ", novel_url))
    } else {
        Ok(chapters)
    }
}

} // verus!
