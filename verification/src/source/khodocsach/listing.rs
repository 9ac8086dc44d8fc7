//! Putting the chapter listing in reading order. The listing is served
//! newest-first; readers want it by chapter number, and entries that share a
//! number keep the order the site gave them.

use vstd::prelude::*;
use crate::order::{ascending_by, keyed, lemma_insert_keyed, lemma_keyed_cons, lemma_keyed_empty};
use crate::source::khodocsach::api::ChapterListItem;

verus! {

/// An entry's chapter number, the key the listing is ordered by.
pub open spec fn chapter_number() -> spec_fn(ChapterListItem) -> u32 {
    |c: ChapterListItem| c.index
}

/// The listing in reading order: by ascending chapter number, entries that
/// share a number in the order the site listed them (a stable sort by
/// number).
pub fn reading_order(items: Vec<ChapterListItem>) -> (r: Vec<ChapterListItem>)
    ensures
        ascending_by(r@, chapter_number()),
        forall|k: u32| #[trigger] keyed(r@, chapter_number(), k) == keyed(items@, chapter_number(), k),
{
    let ghost key = chapter_number();
    let ghost orig = items@;
    let mut rest = items;
    let mut out: Vec<ChapterListItem> = Vec::new();
    proof {
        lemma_keyed_empty(key);
        assert(orig.skip(orig.len() as int) =~= Seq::<ChapterListItem>::empty());
        assert(out@ =~= Seq::<ChapterListItem>::empty());
    }
    while rest.len() > 0
        invariant
            key == chapter_number(),
            rest@ == orig.take(rest.len() as int),
            rest.len() <= orig.len(),
            ascending_by(out@, key),
            forall|k: u32| #[trigger] keyed(out@, key, k) == keyed(orig.skip(rest.len() as int), key, k),
        decreases rest.len(),
    {
        let ghost n = rest.len() as int;
        let x = rest.pop().unwrap();
        proof {
            assert(x == orig[n - 1]);
            assert(orig.skip(n - 1) =~= seq![x] + orig.skip(n));
            assert(rest@ =~= orig.take(n - 1));
        }
        let mut j: usize = out.len();
        while j > 0 && out[j - 1].index >= x.index
            invariant
                j <= out.len(),
                forall|m: int| j <= m < out.len() ==> out@[m].index >= x.index,
            decreases j,
        {
            j = j - 1;
        }
        let ghost before = out@;
        proof {
            assert forall|m: int| 0 <= m < j implies key(before[m]) < key(x) by {
                assert(before[j - 1].index < x.index);
            }
            lemma_insert_keyed(before, j as int, x, key);
        }
        out.insert(j, x);
        proof {
            assert forall|k: u32| #[trigger] keyed(out@, key, k) == keyed(orig.skip(rest.len() as int), key, k) by {
                lemma_keyed_cons(x, orig.skip(n), key, k);
                assert(keyed(out@, key, k) == keyed(before.insert(j as int, x), key, k));
            }
        }
    }
    proof {
        assert(orig.skip(0) =~= orig);
    }
    out
}

} // verus!
