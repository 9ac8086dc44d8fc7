//! Multi-line text editor state: soft wrapping, cursor mapping and editing.
//!
//! The cursor is a `char` index rather than a byte offset, and the value is
//! held in NFC, so one `char` is one letter for Vietnamese text and a tone mark
//! cannot be stranded by a single delete.

use vstd::prelude::*;
use crate::text::{chars_of, string_of};
use crate::unicode::{nfc, nfc_chars};

verus! {

// ---------------------------------------------------------------------------
// Wrapping: specification
// ---------------------------------------------------------------------------

/// Index of the last space in `s`, if any.
pub open spec fn last_space(s: Seq<char>) -> Option<int>
    decreases s.len(),
{
    if s.len() == 0 {
        None
    } else if s.last() == ' ' {
        Some(s.len() - 1)
    } else {
        last_space(s.drop_last())
    }
}

/// A found space lies inside the sequence and is a space.
pub proof fn lemma_last_space_in_range(s: Seq<char>)
    ensures
        last_space(s) matches Some(k) ==> 0 <= k < s.len() && s[k] == ' ',
    decreases s.len(),
{
    if s.len() > 0 && s.last() != ' ' {
        lemma_last_space_in_range(s.drop_last());
    }
}

/// Where a too-long run is cut: just after the last space within the first
/// `w` characters, or at `w` when there is none.
pub open spec fn break_at(t: Seq<char>, w: int) -> int {
    match last_space(t.take(w)) {
        Some(k) => k + 1,
        None => w,
    }
}

/// The rows one break-free run of text wraps into at width `w` (`w >= 1`).
/// An empty run still occupies one (empty) row.
pub open spec fn wrap_run(t: Seq<char>, w: int) -> Seq<Seq<char>>
    decreases t.len(),
{
    if w < 1 || t.len() <= w {
        seq![t]
    } else {
        let e = break_at(t, w);
        proof {
            lemma_last_space_in_range(t.take(w));
        }
        seq![t.take(e)] + wrap_run(t.skip(e), w)
    }
}

/// Position of the first line break in `v`, if any.
pub open spec fn first_newline(v: Seq<char>) -> Option<int>
    decreases v.len(),
{
    if v.len() == 0 {
        None
    } else if v[0] == '\n' {
        Some(0)
    } else {
        match first_newline(v.drop_first()) {
            Some(k) => Some(k + 1),
            None => None,
        }
    }
}

/// The last row of `ls` with the line break that ended its segment attached.
pub open spec fn mark_break(ls: Seq<Seq<char>>) -> Seq<Seq<char>> {
    ls.update(ls.len() - 1, ls.last().push('\n'))
}

/// The rows of `v`, segment by segment: each segment between line breaks is
/// wrapped on its own, and the break stays attached to the segment's last row.
pub open spec fn wrap_lines(v: Seq<char>, w: int) -> Seq<Seq<char>>
    decreases v.len(),
{
    match first_newline(v) {
        None => if v.len() == 0 {
            Seq::empty()
        } else {
            wrap_run(v, w)
        },
        Some(k) => {
            proof {
                lemma_first_newline_in_range(v);
            }
            mark_break(wrap_run(v.take(k), w)) + wrap_lines(v.skip(k + 1), w)
        },
    }
}

/// The wrapping width actually used: never below one column.
pub open spec fn effective_width(width: int) -> int {
    if width < 1 {
        1
    } else {
        width
    }
}

/// The rows `wrap_text` produces for `v` at `width`: the wrapped segments,
/// plus a trailing empty row when `v` is empty or ends in a line break.
pub open spec fn wrap_spec(v: Seq<char>, width: int) -> Seq<Seq<char>> {
    let ls = wrap_lines(v, effective_width(width));
    if ls.len() == 0 || (v.len() > 0 && v.last() == '\n') {
        ls.push(Seq::empty())
    } else {
        ls
    }
}

/// A found line break lies inside the sequence, is a break, and is the first.
pub proof fn lemma_first_newline_in_range(v: Seq<char>)
    ensures
        first_newline(v) matches Some(k) ==> 0 <= k < v.len() && v[k] == '\n' && (forall|j: int|
            0 <= j < k ==> v[j] != '\n'),
        first_newline(v) is None ==> forall|j: int| 0 <= j < v.len() ==> v[j] != '\n',
    decreases v.len(),
{
    if v.len() > 0 && v[0] != '\n' {
        lemma_first_newline_in_range(v.drop_first());
        assert forall|j: int| 1 <= j < v.len() implies v[j] == v.drop_first()[j - 1] by {}
    }
}

/// The first line break is found at `i` when `v[i]` is a break and none precedes it.
pub proof fn lemma_first_newline_at(v: Seq<char>, i: int)
    requires
        0 <= i < v.len(),
        v[i] == '\n',
        forall|j: int| 0 <= j < i ==> v[j] != '\n',
    ensures
        first_newline(v) == Some(i),
    decreases i,
{
    if i > 0 {
        lemma_first_newline_at(v.drop_first(), i - 1);
    }
}

/// No line break is found when `v` holds none.
pub proof fn lemma_first_newline_none(v: Seq<char>)
    requires
        forall|j: int| 0 <= j < v.len() ==> v[j] != '\n',
    ensures
        first_newline(v) is None,
    decreases v.len(),
{
    if v.len() > 0 {
        lemma_first_newline_none(v.drop_first());
    }
}

// ---------------------------------------------------------------------------
// Wrapping: implementation
// ---------------------------------------------------------------------------

/// The character rows held in a vector of character vectors.
pub open spec fn rows_of(rows: Seq<Vec<char>>) -> Seq<Seq<char>> {
    rows.map_values(|r: Vec<char>| r@)
}

/// The rows of `rows` as plain character sequences.
pub open spec fn string_rows(rows: Seq<String>) -> Seq<Seq<char>> {
    rows.map_values(|r: String| r@)
}

/// Copy of `v[from..to]`.
fn slice_vec(v: &Vec<char>, from: usize, to: usize) -> (r: Vec<char>)
    requires
        from <= to <= v.len(),
    ensures
        r@ == v@.subrange(from as int, to as int),
{
    let mut r: Vec<char> = Vec::new();
    let mut i = from;
    while i < to
        invariant
            from <= i <= to <= v.len(),
            r@ == v@.subrange(from as int, i as int),
        decreases to - i,
    {
        r.push(v[i]);
        i = i + 1;
    }
    r
}

/// Index of the last space in `v[start..start + w]`.
fn last_space_in(v: &Vec<char>, start: usize, w: usize) -> (r: Option<usize>)
    requires
        start + w <= v.len(),
    ensures
        match r {
            Some(k) => last_space(v@.subrange(start as int, start + w)) == Some(k as int),
            None => last_space(v@.subrange(start as int, start + w)) is None,
        },
{
    let ghost s = v@.subrange(start as int, start + w);
    proof {
        assert(s.take(w as int) == s);
    }
    let mut j = w;
    while j > 0
        invariant
            j <= w,
            start + w <= v.len(),
            s == v@.subrange(start as int, start + w),
            last_space(s.take(j as int)) == last_space(s),
        decreases j,
    {
        proof {
            assert(s.take(j as int).drop_last() == s.take(j - 1));
            assert(s.take(j as int).last() == v@[start + j - 1]);
        }
        if v[start + j - 1] == ' ' {
            return Some(j - 1);
        }
        j = j - 1;
    }
    proof {
        assert(s.take(0) == Seq::<char>::empty());
    }
    None
}

/// Append the rows of the break-free run `v[from..to]` wrapped at `w`.
fn wrap_segment(v: &Vec<char>, from: usize, to: usize, w: usize, out: &mut Vec<Vec<char>>)
    requires
        from <= to <= v.len(),
        w >= 1,
    ensures
        rows_of(final(out)@) == rows_of(old(out)@) + wrap_run(v@.subrange(from as int, to as int), w as int),
{
    let ghost t = v@.subrange(from as int, to as int);
    let ghost base = rows_of(out@);
    if from == to {
        out.push(Vec::new());
        proof {
            assert(t == Seq::<char>::empty());
            assert(wrap_run(t, w as int) == seq![t]);
            assert(rows_of(out@) == base + seq![Seq::<char>::empty()]);
        }
        return;
    }
    let mut start = from;
    loop
        invariant_except_break
            from <= start < to <= v.len(),
            w >= 1,
            rows_of(out@) + wrap_run(v@.subrange(start as int, to as int), w as int) == base
                + wrap_run(t, w as int),
        ensures
            rows_of(out@) == base + wrap_run(t, w as int),
        decreases to - start,
    {
        let ghost s = v@.subrange(start as int, to as int);
        let ghost before = rows_of(out@);
        if to - start <= w {
            let row = slice_vec(v, start, to);
            out.push(row);
            proof {
                assert(rows_of(out@) == before + seq![s]);
                assert(wrap_run(s, w as int) == seq![s]);
            }
            break;
        }
        proof {
            lemma_last_space_in_range(v@.subrange(start as int, start + w));
        }
        let e = match last_space_in(v, start, w) {
            Some(k) => k + 1,
            None => w,
        };
        proof {
            assert(s.take(w as int) == v@.subrange(start as int, start + w));
            lemma_last_space_in_range(s.take(w as int));
            assert(e as int == break_at(s, w as int));
            assert(s.take(e as int) == v@.subrange(start as int, start + e));
            assert(s.skip(e as int) == v@.subrange(start + e, to as int));
            assert(wrap_run(s, w as int) == seq![s.take(e as int)] + wrap_run(s.skip(e as int), w as int));
        }
        let row = slice_vec(v, start, start + e);
        out.push(row);
        proof {
            assert(rows_of(out@) == before + seq![s.take(e as int)]);
        }
        start = start + e;
    }
}

/// A wrapped run always occupies at least one row.
pub proof fn lemma_wrap_run_nonempty(t: Seq<char>, w: int)
    ensures
        wrap_run(t, w).len() >= 1,
{
}

/// The rows `v` wraps into at `width`, as character vectors.
fn wrap_chars(v: &Vec<char>, width: usize) -> (rows: Vec<Vec<char>>)
    ensures
        rows_of(rows@) == wrap_spec(v@, width as int),
{
    let w: usize = if width == 0 {
        1
    } else {
        width
    };
    let n = v.len();
    let mut out: Vec<Vec<char>> = Vec::new();
    let mut pos: usize = 0;
    proof {
        assert(v@.skip(0) == v@);
        assert(rows_of(out@) == Seq::<Seq<char>>::empty());
    }
    loop
        invariant_except_break
            pos <= n == v.len(),
            w >= 1,
            w as int == effective_width(width as int),
            rows_of(out@) + wrap_lines(v@.skip(pos as int), w as int) == wrap_lines(v@, w as int),
        ensures
            rows_of(out@) == wrap_lines(v@, w as int),
        decreases n - pos,
    {
        let ghost s = v@.skip(pos as int);
        let ghost before = rows_of(out@);
        let mut k = pos;
        while k < n && v[k] != '\n'
            invariant
                pos <= k <= n == v.len(),
                forall|j: int| pos <= j < k ==> v@[j] != '\n',
            decreases n - k,
        {
            k = k + 1;
        }
        if k == n {
            proof {
                assert forall|j: int| 0 <= j < s.len() implies s[j] != '\n' by {
                    assert(s[j] == v@[pos + j]);
                }
                lemma_first_newline_none(s);
                assert(s == v@.subrange(pos as int, n as int));
            }
            if pos < n {
                wrap_segment(v, pos, n, w, &mut out);
            } else {
                proof {
                    assert(s.len() == 0);
                    assert(before + wrap_lines(s, w as int) == before);
                }
            }
            break;
        }
        proof {
            assert forall|j: int| 0 <= j < k - pos implies s[j] != '\n' by {
                assert(s[j] == v@[pos + j]);
            }
            lemma_first_newline_at(s, k - pos);
            assert(s.take(k - pos) == v@.subrange(pos as int, k as int));
            assert(s.skip(k - pos + 1) == v@.skip(k + 1));
        }
        wrap_segment(v, pos, k, w, &mut out);
        let ghost seg = wrap_run(v@.subrange(pos as int, k as int), w as int);
        proof {
            lemma_wrap_run_nonempty(v@.subrange(pos as int, k as int), w as int);
            assert(rows_of(out@) == before + seg);
        }
        let ghost mid = out@;
        let mut row = out.pop().unwrap();
        proof {
            assert(row@ == rows_of(mid).last());
            assert(rows_of(mid).last() == seg.last());
            assert(out@ == mid.drop_last());
            assert(rows_of(mid) == before + seg);
            assert forall|j: int| 0 <= j < out@.len() implies rows_of(out@)[j] == (before
                + seg.drop_last())[j] by {
                assert(rows_of(out@)[j] == mid[j]@);
                assert(rows_of(mid)[j] == mid[j]@);
            }
            assert(rows_of(out@) =~= before + seg.drop_last());
        }
        row.push('\n');
        out.push(row);
        proof {
            let goal = before + mark_break(seg);
            assert(rows_of(out@).len() == goal.len());
            assert forall|j: int| 0 <= j < goal.len() implies rows_of(out@)[j] == goal[j] by {
                if j < goal.len() - 1 {
                    assert(rows_of(out@)[j] == (before + seg.drop_last())[j]);
                }
            }
            assert(rows_of(out@) =~= goal);
        }
        pos = k + 1;
    }
    let needs_trailing = out.len() == 0 || (n > 0 && v[n - 1] == '\n');
    if needs_trailing {
        let ghost before = rows_of(out@);
        out.push(Vec::new());
        proof {
            assert(rows_of(out@) == before.push(Seq::<char>::empty()));
        }
    }
    out
}

/// Wrap `value` to `width` columns, returning one string per visual row.
///
/// The rows concatenate back to exactly `value`: a soft break keeps the space
/// it broke at on the row above, and an explicit line break stays attached to
/// the row it ends. Rows break at the last space that fits; a word longer than
/// the width is broken at the width. An empty value, and a value ending in a
/// break, both yield a trailing empty row.
pub fn wrap_text(value: &str, width: usize) -> (rows: Vec<String>)
    ensures
        string_rows(rows@) == wrap_spec(value@, width as int),
{
    let chars = chars_of(value);
    let rows = wrap_chars(&chars, width);
    let mut out: Vec<String> = Vec::new();
    let mut i: usize = 0;
    while i < rows.len()
        invariant
            i <= rows.len(),
            string_rows(out@) == rows_of(rows@).take(i as int),
        decreases rows.len() - i,
    {
        let s = string_of(rows[i].as_slice());
        let ghost prev = out@;
        out.push(s);
        i = i + 1;
        proof {
            assert(string_rows(out@) =~= string_rows(prev).push(rows@[i - 1]@));
            assert(rows_of(rows@).take(i as int) =~= rows_of(rows@).take(i - 1).push(rows@[i - 1]@));
        }
    }
    proof {
        assert(rows_of(rows@).take(rows.len() as int) == rows_of(rows@));
    }
    out
}

// ---------------------------------------------------------------------------
// Wrapping: laws
// ---------------------------------------------------------------------------

/// A row as drawn: its trailing line break, when it has one, is not visible.
pub open spec fn visible(r: Seq<char>) -> Seq<char> {
    if r.len() > 0 && r.last() == '\n' {
        r.drop_last()
    } else {
        r
    }
}

/// A row fits: its visible part is at most `w` characters and holds no break.
pub open spec fn row_fits(r: Seq<char>, w: int) -> bool {
    &&& visible(r).len() <= w
    &&& forall|j: int| 0 <= j < visible(r).len() ==> visible(r)[j] != '\n'
}

/// Every row fits in `w` columns.
pub open spec fn rows_fit(rs: Seq<Seq<char>>, w: int) -> bool {
    forall|i: int| 0 <= i < rs.len() ==> row_fits(#[trigger] rs[i], w)
}

/// A run holds no line break.
pub open spec fn break_free(t: Seq<char>) -> bool {
    forall|j: int| 0 <= j < t.len() ==> t[j] != '\n'
}

proof fn lemma_flatten_cons(a: Seq<char>, rest: Seq<Seq<char>>)
    ensures
        (seq![a] + rest).flatten() == a + rest.flatten(),
{
    assert((seq![a] + rest).drop_first() == rest);
}

/// A wrapped run concatenates back to the run.
proof fn lemma_wrap_run_flatten(t: Seq<char>, w: int)
    ensures
        wrap_run(t, w).flatten() == t,
    decreases t.len(),
{
    if w < 1 || t.len() <= w {
        seq![t].lemma_flatten_one_element();
    } else {
        lemma_last_space_in_range(t.take(w));
        let e = break_at(t, w);
        lemma_wrap_run_flatten(t.skip(e), w);
        lemma_flatten_cons(t.take(e), wrap_run(t.skip(e), w));
        assert(t.take(e) + t.skip(e) == t);
    }
}

/// Every row of a wrapped break-free run is at most `w` long and break-free.
proof fn lemma_wrap_run_rows(t: Seq<char>, w: int)
    requires
        w >= 1,
        break_free(t),
    ensures
        forall|i: int|
            0 <= i < wrap_run(t, w).len() ==> (#[trigger] wrap_run(t, w)[i]).len() <= w && break_free(
                wrap_run(t, w)[i],
            ),
    decreases t.len(),
{
    if t.len() > w {
        lemma_last_space_in_range(t.take(w));
        let e = break_at(t, w);
        assert(break_free(t.skip(e))) by {
            assert forall|j: int| 0 <= j < t.skip(e).len() implies t.skip(e)[j] != '\n' by {
                assert(t.skip(e)[j] == t[j + e]);
            }
        }
        assert(break_free(t.take(e)));
        lemma_wrap_run_rows(t.skip(e), w);
        let rs = wrap_run(t, w);
        assert forall|i: int| 0 <= i < rs.len() implies (#[trigger] rs[i]).len() <= w && break_free(
            rs[i],
        ) by {
            if i > 0 {
                assert(rs[i] == wrap_run(t.skip(e), w)[i - 1]);
            }
        }
    }
}

/// Marking the last row adds exactly one line break to the concatenation.
proof fn lemma_mark_break_flatten(ls: Seq<Seq<char>>)
    requires
        ls.len() >= 1,
    ensures
        mark_break(ls).flatten() == ls.flatten().push('\n'),
{
    assert(mark_break(ls) == ls.drop_last().push(ls.last().push('\n')));
    assert(ls == ls.drop_last().push(ls.last()));
    ls.drop_last().lemma_flatten_push(ls.last().push('\n'));
    ls.drop_last().lemma_flatten_push(ls.last());
}

/// Concatenated row lists fit when both halves fit.
proof fn lemma_rows_fit_concat(a: Seq<Seq<char>>, b: Seq<Seq<char>>, w: int)
    requires
        rows_fit(a, w),
        rows_fit(b, w),
    ensures
        rows_fit(a + b, w),
{
    assert forall|i: int| 0 <= i < (a + b).len() implies row_fits(#[trigger] (a + b)[i], w) by {
        if i < a.len() {
            assert((a + b)[i] == a[i]);
        } else {
            assert((a + b)[i] == b[i - a.len()]);
        }
    }
}

/// The rows of a break-free run, with a break attached to the last, all fit.
proof fn lemma_marked_run_fits(t: Seq<char>, w: int)
    requires
        w >= 1,
        break_free(t),
    ensures
        rows_fit(wrap_run(t, w), w),
        rows_fit(mark_break(wrap_run(t, w)), w),
{
    lemma_wrap_run_rows(t, w);
    let rs = wrap_run(t, w);
    assert forall|i: int| 0 <= i < rs.len() implies row_fits(#[trigger] rs[i], w) by {
        assert(rs[i].len() <= w && break_free(rs[i]));
        if rs[i].len() > 0 {
            assert(rs[i].last() != '\n');
        }
        assert(visible(rs[i]) == rs[i]);
    }
    let ms = mark_break(rs);
    assert forall|i: int| 0 <= i < ms.len() implies row_fits(#[trigger] ms[i], w) by {
        if i == ms.len() - 1 {
            let last = rs.last();
            assert(ms[i] == last.push('\n'));
            assert(visible(ms[i]) == last);
            assert(rs[rs.len() - 1] == last);
        } else {
            assert(ms[i] == rs[i]);
        }
    }
}

/// The segment-by-segment rows concatenate back to `v`, and every row fits.
proof fn lemma_wrap_lines(v: Seq<char>, w: int)
    requires
        w >= 1,
    ensures
        wrap_lines(v, w).flatten() == v,
        rows_fit(wrap_lines(v, w), w),
    decreases v.len(),
{
    lemma_first_newline_in_range(v);
    match first_newline(v) {
        None => {
            if v.len() == 0 {
                assert(rows_fit(Seq::<Seq<char>>::empty(), w));
            } else {
                lemma_wrap_run_flatten(v, w);
                lemma_marked_run_fits(v, w);
            }
        },
        Some(k) => {
            let seg = v.take(k);
            let rest = v.skip(k + 1);
            assert(break_free(seg));
            lemma_wrap_lines(rest, w);
            lemma_wrap_run_flatten(seg, w);
            lemma_wrap_run_nonempty(seg, w);
            lemma_mark_break_flatten(wrap_run(seg, w));
            lemma_marked_run_fits(seg, w);
            lemma_rows_fit_concat(mark_break(wrap_run(seg, w)), wrap_lines(rest, w), w);
            vstd::seq_lib::lemma_flatten_concat(mark_break(wrap_run(seg, w)), wrap_lines(rest, w));
            assert(seg.push('\n') + rest == v);
        },
    }
}

/// The last row of a wrapped non-empty break-free run is not empty and ends
/// with the run's last character.
proof fn lemma_wrap_run_last(t: Seq<char>, w: int)
    requires
        w >= 1,
        t.len() > 0,
    ensures
        wrap_run(t, w).last().len() > 0,
        wrap_run(t, w).last().last() == t.last(),
    decreases t.len(),
{
    if t.len() > w {
        lemma_last_space_in_range(t.take(w));
        let e = break_at(t, w);
        lemma_wrap_run_last(t.skip(e), w);
        lemma_wrap_run_nonempty(t.skip(e), w);
        assert((seq![t.take(e)] + wrap_run(t.skip(e), w)).last() == wrap_run(t.skip(e), w).last());
    }
}

/// The last row of a wrapped non-empty value is not empty and ends with the
/// value's last character.
proof fn lemma_wrap_lines_last(v: Seq<char>, w: int)
    requires
        w >= 1,
        v.len() > 0,
    ensures
        wrap_lines(v, w).len() >= 1,
        wrap_lines(v, w).last().len() > 0,
        wrap_lines(v, w).last().last() == v.last(),
    decreases v.len(),
{
    lemma_first_newline_in_range(v);
    match first_newline(v) {
        None => {
            lemma_wrap_run_last(v, w);
            lemma_wrap_run_nonempty(v, w);
        },
        Some(k) => {
            let seg = v.take(k);
            let rest = v.skip(k + 1);
            lemma_wrap_run_nonempty(seg, w);
            let head = mark_break(wrap_run(seg, w));
            assert(head.last() == wrap_run(seg, w).last().push('\n'));
            if rest.len() == 0 {
                assert(first_newline(rest) is None);
                assert(wrap_lines(rest, w) == Seq::<Seq<char>>::empty());
                assert(head + wrap_lines(rest, w) == head);
                assert(k == v.len() - 1);
            } else {
                lemma_wrap_lines_last(rest, w);
                assert((head + wrap_lines(rest, w)).last() == wrap_lines(rest, w).last());
                assert(rest.last() == v.last());
            }
        },
    }
}

/// Wrapping laws: the rows concatenate back to exactly the value; every row's
/// visible part fits the width and holds no line break; there is always at
/// least one row; and the last row is empty (for the cursor to sit on) exactly
/// when the value is empty or ends in a line break.
pub proof fn lemma_wrap_text_laws(v: Seq<char>, width: int)
    ensures
        wrap_spec(v, width).flatten() == v,
        rows_fit(wrap_spec(v, width), effective_width(width)),
        wrap_spec(v, width).len() >= 1,
        (v.len() == 0 || v.last() == '\n') <==> wrap_spec(v, width).last() == Seq::<char>::empty(),
{
    let w = effective_width(width);
    let ls = wrap_lines(v, w);
    lemma_wrap_lines(v, w);
    if v.len() > 0 && v.last() != '\n' {
        lemma_wrap_lines_last(v, w);
        assert(wrap_spec(v, width) == ls);
        assert(ls.last() != Seq::<char>::empty());
    }
    if ls.len() == 0 || (v.len() > 0 && v.last() == '\n') {
        ls.lemma_flatten_push(Seq::<char>::empty());
        assert(ls.flatten() + Seq::<char>::empty() == ls.flatten());
        let empty_row = seq![Seq::<char>::empty()];
        assert(rows_fit(empty_row, w)) by {
            assert(visible(Seq::<char>::empty()) == Seq::<char>::empty());
        }
        lemma_rows_fit_concat(ls, empty_row, w);
        assert(ls + empty_row == ls.push(Seq::<char>::empty()));
    }
}

// ---------------------------------------------------------------------------
// Cursor mapping
// ---------------------------------------------------------------------------

/// The `(row, column)` of character index `cursor` when it falls inside one of
/// `lines`, or `None` when it lies past their end.
pub open spec fn locate(lines: Seq<Seq<char>>, cursor: int) -> Option<(int, int)>
    decreases lines.len(),
{
    if lines.len() == 0 {
        None
    } else if cursor < lines[0].len() {
        Some((0, cursor))
    } else {
        match locate(lines.drop_first(), cursor - lines[0].len()) {
            Some((r, c)) => Some((r + 1, c)),
            None => None,
        }
    }
}

/// Where `wrapped_cursor_position` places `cursor` in `lines` at `width`.
/// A cursor past the end sits after the last row's text, or at the start of
/// the row below when that row is already full.
pub open spec fn cursor_position(lines: Seq<Seq<char>>, cursor: int, width: int) -> (int, int) {
    match locate(lines, cursor) {
        Some(p) => p,
        None => {
            let row: int = if lines.len() == 0 {
                0
            } else {
                lines.len() - 1
            };
            let column: int = if lines.len() == 0 {
                0
            } else {
                lines.last().len() as int
            };
            if column >= effective_width(width) {
                (row + 1, 0)
            } else {
                (row, column)
            }
        },
    }
}

/// `locate` shifted down by `k` rows.
pub open spec fn shift_rows(o: Option<(int, int)>, k: int) -> Option<(int, int)> {
    match o {
        Some((r, c)) => Some((r + k, c)),
        None => None,
    }
}

/// A located cursor sits on an existing row, inside that row, at the offset
/// the rows before it account for.
pub proof fn lemma_locate_in_rows(lines: Seq<Seq<char>>, cursor: int)
    requires
        cursor >= 0,
    ensures
        locate(lines, cursor) matches Some((r, c)) ==> 0 <= r < lines.len() && 0 <= c < lines[r].len()
            && lines.take(r).flatten().len() + c == cursor,
        locate(lines, cursor) is None ==> cursor >= lines.flatten().len(),
    decreases lines.len(),
{
    if lines.len() > 0 {
        if cursor < lines[0].len() {
            assert(lines.take(0) == Seq::<Seq<char>>::empty());
        } else {
            let rest = lines.drop_first();
            lemma_locate_in_rows(rest, cursor - lines[0].len());
            assert(lines.flatten() == lines[0] + rest.flatten());
            if let Some((r, c)) = locate(rest, cursor - lines[0].len()) {
                assert(lines.take(r + 1) == seq![lines[0]] + rest.take(r));
                assert((seq![lines[0]] + rest.take(r)).drop_first() == rest.take(r));
                assert(lines.take(r + 1).flatten() == lines[0] + rest.take(r).flatten());
                assert(lines[r + 1] == rest[r]);
            }
        }
    }
}

/// The characters of the first `k` rows never exceed those of all rows.
pub proof fn lemma_prefix_flatten_len(lines: Seq<Seq<char>>, k: int)
    requires
        0 <= k <= lines.len(),
    ensures
        lines.take(k).flatten().len() <= lines.flatten().len(),
        k < lines.len() ==> lines.take(k + 1).flatten().len() == lines.take(k).flatten().len()
            + lines[k].len(),
{
    vstd::seq_lib::lemma_flatten_concat(lines.take(k), lines.skip(k));
    assert(lines.take(k) + lines.skip(k) == lines);
    if k < lines.len() {
        assert(lines.take(k + 1) == lines.take(k).push(lines[k]));
        lines.take(k).lemma_flatten_push(lines[k]);
    }
}

/// `(row, column)` of `cursor` among character rows.
fn cursor_in_rows(lines: &Vec<Vec<char>>, cursor: usize, width: usize) -> (pos: (usize, usize))
    requires
        rows_of(lines@).flatten().len() <= usize::MAX,
    ensures
        (pos.0 as int, pos.1 as int) == cursor_position(rows_of(lines@), cursor as int, width as int),
{
    let ghost all = rows_of(lines@);
    let mut consumed: usize = 0;
    let mut row: usize = 0;
    proof {
        assert(all.skip(0) == all);
        assert(all.take(0) == Seq::<Seq<char>>::empty());
    }
    while row < lines.len()
        invariant
            all == rows_of(lines@),
            all.flatten().len() <= usize::MAX,
            row <= lines.len(),
            consumed <= cursor,
            consumed as int == all.take(row as int).flatten().len(),
            locate(all, cursor as int) == shift_rows(
                locate(all.skip(row as int), cursor - consumed),
                row as int,
            ),
        decreases lines.len() - row,
    {
        let length = lines[row].len();
        proof {
            lemma_prefix_flatten_len(all, row as int);
            lemma_prefix_flatten_len(all, row as int + 1);
            assert(all[row as int] == lines@[row as int]@);
        }
        if cursor < consumed + length {
            proof {
                assert(all.skip(row as int)[0] == all[row as int]);
            }
            return (row, cursor - consumed);
        }
        proof {
            let s = all.skip(row as int);
            assert(s[0] == all[row as int]);
            assert(s.drop_first() == all.skip(row + 1));
        }
        consumed = consumed + length;
        row = row + 1;
    }
    proof {
        assert(all.skip(row as int) == Seq::<Seq<char>>::empty());
    }
    let last_row: usize = if lines.len() == 0 {
        0
    } else {
        lines.len() - 1
    };
    let column: usize = if lines.len() == 0 {
        0
    } else {
        lines[lines.len() - 1].len()
    };
    let w: usize = if width == 0 {
        1
    } else {
        width
    };
    if column >= w {
        (last_row + 1, 0)
    } else {
        (last_row, column)
    }
}

/// Character rows of `lines`.
fn rows_to_chars(lines: &[String]) -> (rows: Vec<Vec<char>>)
    ensures
        rows_of(rows@) == string_rows(lines@),
{
    let mut rows: Vec<Vec<char>> = Vec::new();
    let mut i: usize = 0;
    while i < lines.len()
        invariant
            i <= lines.len(),
            rows_of(rows@) == string_rows(lines@).take(i as int),
        decreases lines.len() - i,
    {
        let ghost prev = rows@;
        rows.push(chars_of(lines[i].as_str()));
        i = i + 1;
        proof {
            assert(rows_of(rows@) =~= rows_of(prev).push(lines@[i - 1]@));
            assert(string_rows(lines@).take(i as int) =~= string_rows(lines@).take(i - 1).push(
                lines@[i - 1]@,
            ));
        }
    }
    proof {
        assert(string_rows(lines@).take(lines.len() as int) == string_rows(lines@));
    }
    rows
}

/// Map a cursor `char` index into the `(row, column)` it occupies in `lines`,
/// as produced by [`wrap_text`] at the same `width`.
///
/// A cursor at the very end of a value whose last line is full has no column
/// left on that line, so it is reported at the start of the row below, which
/// is where the next character typed would actually appear.
pub fn wrapped_cursor_position(lines: &[String], cursor: usize, width: usize) -> (pos: (usize, usize))
    requires
        string_rows(lines@).flatten().len() <= usize::MAX,
    ensures
        (pos.0 as int, pos.1 as int) == cursor_position(string_rows(lines@), cursor as int, width as int),
{
    let rows = rows_to_chars(lines);
    cursor_in_rows(&rows, cursor, width)
}

// ---------------------------------------------------------------------------
// The editor
// ---------------------------------------------------------------------------

/// Result of processing a single key event in [`TextArea`].
#[derive(Debug, Clone, PartialEq, Eq, Structural)]
pub enum TextAreaAction {
    /// No transition: repaint and keep waiting for input.
    Continue,
    /// User pressed Enter; the value is the answer.
    Submit,
    /// User pressed Esc, meaning "go back to the previous step".
    Cancel,
    /// User pressed Ctrl+C, meaning "exit the wizard".
    Quit,
}

/// The wrapped layout the prompt last rendered with, handed to
/// [`TextArea::handle_key`] so row movement can be interpreted.
#[derive(Debug, Clone, Copy, Default, PartialEq, Eq, Structural)]
pub struct TextAreaLayout {
    /// Columns available for text inside the block's borders.
    pub width: usize,
}

/// The key a terminal reported, reduced to what the editor distinguishes.
#[derive(Debug, Clone, Copy, PartialEq, Eq, Structural)]
pub enum EditorKey {
    /// A printable character.
    Char(char),
    /// Backspace.
    Backspace,
    /// Forward delete.
    Delete,
    /// Left arrow.
    Left,
    /// Right arrow.
    Right,
    /// Up arrow.
    Up,
    /// Down arrow.
    Down,
    /// Home.
    Home,
    /// End.
    End,
    /// Enter.
    Enter,
    /// Escape.
    Esc,
    /// Any other key.
    Other,
}

/// One key event: the key, its modifiers, and whether it is a release.
#[derive(Debug, Clone, Copy, PartialEq, Eq, Structural)]
pub struct EditorKeyEvent {
    /// The key.
    pub key: EditorKey,
    /// Control was held.
    pub ctrl: bool,
    /// Alt was held.
    pub alt: bool,
    /// The event reports a key release rather than a press.
    pub release: bool,
}

/// Multi-line text editor for values too long to read on one line. It carries
/// an insertion point, so a word in the middle of a long paragraph can be
/// corrected without deleting everything after it.
pub struct TextArea {
    value: String,
    cursor: usize,
}

/// Where moving one row up (`delta == -1`) or down (`delta == 1`) puts the
/// cursor: the same column on the target row where that row is long enough,
/// the end of its visible text where it is not; past either edge, the start or
/// the end of the value.
pub open spec fn moved_cursor(v: Seq<char>, cursor: int, delta: int, width: int) -> int {
    let lines = wrap_spec(v, width);
    let (row, column) = cursor_position(lines, cursor, width);
    if delta < 0 && row == 0 {
        0
    } else if delta > 0 && row >= lines.len() - 1 {
        v.len() as int
    } else {
        let target = row + delta;
        let start = lines.take(target).flatten().len() as int;
        let shown = visible(lines[target]).len() as int;
        let col = if column < shown {
            column
        } else {
            shown
        };
        if start + col < v.len() {
            start + col
        } else {
            v.len() as int
        }
    }
}

/// The value after inserting `c` at `cursor`: the text up to and including the
/// new character is recomposed, the tail is kept as it is.
pub open spec fn inserted(v: Seq<char>, cursor: int, c: char) -> Seq<char> {
    nfc(v.take(cursor).push(c)) + v.skip(cursor)
}

impl TextArea {
    /// The editor's cursor never leaves the value.
    #[verifier::type_invariant]
    spec fn inv(self) -> bool {
        self.cursor <= self.value@.len()
    }

    /// The current value as characters.
    pub closed spec fn text(&self) -> Seq<char> {
        self.value@
    }

    /// The insertion point as a character index.
    pub closed spec fn at(&self) -> nat {
        self.cursor as nat
    }

    /// Create an empty editor with the cursor at the start.
    pub fn new() -> (r: Self)
        ensures
            r.text() == Seq::<char>::empty(),
            r.at() == 0,
    {
        TextArea { value: String::new(), cursor: 0 }
    }

    /// Replace the value and place the cursor after its last character. The
    /// text is composed on the way in.
    pub fn set_value(&mut self, value: &str)
        ensures
            final(self).text() == nfc(value@),
            final(self).at() == nfc(value@).len(),
    {
        let chars = chars_of(value);
        let composed = nfc_chars(chars.as_slice());
        let len = composed.len();
        *self = TextArea { value: string_of(composed.as_slice()), cursor: len };
    }

    /// Current value.
    pub fn value(&self) -> (r: &str)
        ensures
            r@ == self.text(),
    {
        self.value.as_str()
    }

    /// Insertion point as a `char` index into the value.
    pub fn cursor(&self) -> (r: usize)
        ensures
            r == self.at(),
            r <= self.text().len(),
    {
        proof { use_type_invariant(self); }
        self.cursor
    }

    /// Insert one character at the cursor and step past it. Only the text up
    /// to and including the new character is recomposed, so a combining mark
    /// typed after its base letter merges into that letter.
    fn insert(&mut self, c: char)
        ensures
            final(self).text() == inserted(old(self).text(), old(self).at() as int, c),
            final(self).at() == nfc(old(self).text().take(old(self).at() as int).push(c)).len(),
    {
        proof { use_type_invariant(&*self); }
        let chars = chars_of(self.value.as_str());
        let mut head: Vec<char> = Vec::new();
        let mut i: usize = 0;
        while i < self.cursor
            invariant
                self.cursor <= chars.len(),
                chars@ == self.value@,
                i <= self.cursor,
                head@ == chars@.take(i as int),
            decreases self.cursor - i,
        {
            head.push(chars[i]);
            i = i + 1;
        }
        head.push(c);
        let mut composed = nfc_chars(head.as_slice());
        let new_cursor = composed.len();
        let mut j = self.cursor;
        let ghost pre = composed@;
        while j < chars.len()
            invariant
                self.cursor <= j <= chars.len(),
                chars@ == self.value@,
                composed@ == pre + chars@.subrange(self.cursor as int, j as int),
            decreases chars.len() - j,
        {
            composed.push(chars[j]);
            j = j + 1;
        }
        proof {
            assert(chars@.subrange(self.cursor as int, chars.len() as int) == chars@.skip(self.cursor as int));
        }
        *self = TextArea { value: string_of(composed.as_slice()), cursor: new_cursor };
    }

    /// Remove the character before the cursor, or do nothing at the start.
    fn delete_backwards(&mut self)
        ensures
            old(self).at() == 0 ==> final(self).text() == old(self).text() && final(self).at() == 0,
            old(self).at() > 0 ==> final(self).text() == old(self).text().remove(old(self).at() - 1)
                && final(self).at() == old(self).at() - 1,
    {
        proof { use_type_invariant(&*self); }
        if self.cursor == 0 {
            return;
        }
        let at = self.cursor - 1;
        let chars = chars_of(self.value.as_str());
        let kept = remove_at(&chars, at);
        *self = TextArea { value: string_of(kept.as_slice()), cursor: at };
    }

    /// Remove the character at the cursor, or do nothing at the end. The
    /// cursor stays put: the tail slides in under it.
    fn delete_forwards(&mut self)
        ensures
            old(self).at() >= old(self).text().len() ==> final(self).text() == old(self).text(),
            old(self).at() < old(self).text().len() ==> final(self).text() == old(self).text().remove(
                old(self).at() as int,
            ),
            final(self).at() == old(self).at(),
    {
        proof { use_type_invariant(&*self); }
        let chars = chars_of(self.value.as_str());
        if self.cursor >= chars.len() {
            return;
        }
        let kept = remove_at(&chars, self.cursor);
        let cursor = self.cursor;
        *self = TextArea { value: string_of(kept.as_slice()), cursor };
    }

    /// Move the cursor one row up (`-1`) or down (`1`) through the wrapped
    /// layout, holding its column where the target row is long enough and
    /// stopping at that row's end where it is not. Past either edge the cursor
    /// moves to the start or the end of the value.
    fn move_rows(&mut self, delta: isize, layout: TextAreaLayout)
        requires
            delta == -1 || delta == 1,
        ensures
            final(self).text() == old(self).text(),
            final(self).at() == moved_cursor(old(self).text(), old(self).at() as int, delta as int, layout.width as int),
    {
        proof { use_type_invariant(&*self); }
        let chars = chars_of(self.value.as_str());
        let ghost v = chars@;
        let lines = wrap_chars(&chars, layout.width);
        let ghost rows = rows_of(lines@);
        proof {
            lemma_wrap_text_laws(v, layout.width as int);
            assert(rows == wrap_spec(v, layout.width as int));
            assert(rows.flatten().len() == chars.len());
        }
        let (row, column) = cursor_in_rows(&lines, self.cursor, layout.width);
        proof {
            lemma_locate_in_rows(rows, self.cursor as int);
        }
        if delta < 0 && row == 0 {
            let value = string_of(chars.as_slice());
            *self = TextArea { value, cursor: 0 };
            return;
        }
        if delta > 0 && row >= lines.len() - 1 {
            let len = chars.len();
            let value = string_of(chars.as_slice());
            *self = TextArea { value, cursor: len };
            return;
        }
        let target: usize = if delta < 0 {
            row - 1
        } else {
            row + 1
        };
        let mut start: usize = 0;
        let mut k: usize = 0;
        proof {
            assert(rows.take(0) == Seq::<Seq<char>>::empty());
        }
        while k < target
            invariant
                target < lines.len(),
                rows == rows_of(lines@),
                rows.flatten() == v,
                v.len() == chars.len(),
                k <= target,
                start as int == rows.take(k as int).flatten().len(),
            decreases target - k,
        {
            proof {
                lemma_prefix_flatten_len(rows, k as int);
                lemma_prefix_flatten_len(rows, k as int + 1);
                assert(rows[k as int] == lines@[k as int]@);
            }
            start = start + lines[k].len();
            k = k + 1;
        }
        let target_row = &lines[target];
        let shown: usize = if target_row.len() > 0 && target_row[target_row.len() - 1] == '\n' {
            target_row.len() - 1
        } else {
            target_row.len()
        };
        proof {
            assert(rows[target as int] == target_row@);
            lemma_prefix_flatten_len(rows, target as int);
            lemma_prefix_flatten_len(rows, target as int + 1);
            assert(shown as int == visible(rows[target as int]).len());
        }
        let col = if column < shown {
            column
        } else {
            shown
        };
        let len = chars.len();
        let moved = if start + col < len {
            start + col
        } else {
            len
        };
        let value = string_of(chars.as_slice());
        *self = TextArea { value, cursor: moved };
    }

    /// Process a key event and return the resulting action.
    ///
    /// Enter submits, so a line break has its own key: `Ctrl+J`. Ctrl+C quits;
    /// any other Control or Alt chord is ignored. `Home` and `End` jump to the
    /// start and end of the whole value; arrows move by character or by
    /// wrapped row.
    pub fn handle_key(&mut self, event: EditorKeyEvent, layout: TextAreaLayout) -> (action: TextAreaAction)
        ensures
            action == key_action(event),
            final(self).text() == key_text(old(self).text(), old(self).at() as int, event, layout.width as int),
            final(self).at() == key_cursor(old(self).text(), old(self).at() as int, event, layout.width as int),
    {
        proof { use_type_invariant(&*self); }
        if event.release {
            return TextAreaAction::Continue;
        }
        if event.ctrl && event.key == EditorKey::Char('c') {
            return TextAreaAction::Quit;
        }
        if event.ctrl && event.key == EditorKey::Char('j') {
            self.insert('\n');
            return TextAreaAction::Continue;
        }
        if event.ctrl || event.alt {
            return TextAreaAction::Continue;
        }
        match event.key {
            EditorKey::Char(c) => {
                self.insert(c);
                TextAreaAction::Continue
            },
            EditorKey::Backspace => {
                self.delete_backwards();
                TextAreaAction::Continue
            },
            EditorKey::Delete => {
                self.delete_forwards();
                TextAreaAction::Continue
            },
            EditorKey::Left => {
                let cursor = if self.cursor > 0 {
                    self.cursor - 1
                } else {
                    0
                };
                self.set_cursor(cursor);
                TextAreaAction::Continue
            },
            EditorKey::Right => {
                let len = self.char_len();
                let cursor = if self.cursor < len {
                    self.cursor + 1
                } else {
                    len
                };
                self.set_cursor(cursor);
                TextAreaAction::Continue
            },
            EditorKey::Up => {
                self.move_rows(-1, layout);
                TextAreaAction::Continue
            },
            EditorKey::Down => {
                self.move_rows(1, layout);
                TextAreaAction::Continue
            },
            EditorKey::Home => {
                self.set_cursor(0);
                TextAreaAction::Continue
            },
            EditorKey::End => {
                let len = self.char_len();
                self.set_cursor(len);
                TextAreaAction::Continue
            },
            EditorKey::Enter => TextAreaAction::Submit,
            EditorKey::Esc => TextAreaAction::Cancel,
            EditorKey::Other => TextAreaAction::Continue,
        }
    }

    /// Length of the value in `char`s, which is what the cursor indexes.
    fn char_len(&self) -> (r: usize)
        ensures
            r == self.text().len(),
    {
        chars_of(self.value.as_str()).len()
    }

    /// Place the cursor at `cursor`, which must lie within the value.
    fn set_cursor(&mut self, cursor: usize)
        requires
            cursor <= old(self).text().len(),
        ensures
            final(self).text() == old(self).text(),
            final(self).at() == cursor,
    {
        let value = self.value.clone();
        *self = TextArea { value, cursor };
    }
}

/// Copy of `v` without its element at `at`.
fn remove_at(v: &Vec<char>, at: usize) -> (r: Vec<char>)
    requires
        at < v.len(),
    ensures
        r@ == v@.remove(at as int),
{
    let mut r: Vec<char> = Vec::new();
    let mut i: usize = 0;
    while i < v.len()
        invariant
            at < v.len(),
            i <= v.len(),
            i <= at ==> r@ == v@.take(i as int),
            i > at ==> r@ == v@.take(i as int).remove(at as int),
        decreases v.len() - i,
    {
        if i != at {
            r.push(v[i]);
        }
        proof {
            if i > at {
                assert(v@.take(i + 1).remove(at as int) == v@.take(i as int).remove(at as int).push(v@[i as int]));
            } else if i == at {
                assert(v@.take(i + 1).remove(at as int) == v@.take(i as int));
            }
        }
        i = i + 1;
    }
    proof {
        assert(v@.take(v.len() as int) == v@);
    }
    r
}

/// The action a key event produces.
pub open spec fn key_action(e: EditorKeyEvent) -> TextAreaAction {
    if e.release {
        TextAreaAction::Continue
    } else if e.ctrl && e.key == EditorKey::Char('c') {
        TextAreaAction::Quit
    } else if e.ctrl || e.alt {
        TextAreaAction::Continue
    } else {
        match e.key {
            EditorKey::Enter => TextAreaAction::Submit,
            EditorKey::Esc => TextAreaAction::Cancel,
            _ => TextAreaAction::Continue,
        }
    }
}

/// The value after a key event.
pub open spec fn key_text(v: Seq<char>, cursor: int, e: EditorKeyEvent, width: int) -> Seq<char> {
    if e.release || (e.ctrl && e.key == EditorKey::Char('c')) {
        v
    } else if e.ctrl && e.key == EditorKey::Char('j') {
        inserted(v, cursor, '\n')
    } else if e.ctrl || e.alt {
        v
    } else {
        match e.key {
            EditorKey::Char(c) => inserted(v, cursor, c),
            EditorKey::Backspace => if cursor == 0 {
                v
            } else {
                v.remove(cursor - 1)
            },
            EditorKey::Delete => if cursor >= v.len() {
                v
            } else {
                v.remove(cursor)
            },
            _ => v,
        }
    }
}

/// The cursor after a key event.
pub open spec fn key_cursor(v: Seq<char>, cursor: int, e: EditorKeyEvent, width: int) -> int {
    if e.release || (e.ctrl && e.key == EditorKey::Char('c')) {
        cursor
    } else if e.ctrl && e.key == EditorKey::Char('j') {
        nfc(v.take(cursor).push('\n')).len() as int
    } else if e.ctrl || e.alt {
        cursor
    } else {
        match e.key {
            EditorKey::Char(c) => nfc(v.take(cursor).push(c)).len() as int,
            EditorKey::Backspace => if cursor == 0 {
                0
            } else {
                cursor - 1
            },
            EditorKey::Left => if cursor > 0 {
                cursor - 1
            } else {
                0
            },
            EditorKey::Right => if cursor < v.len() {
                cursor + 1
            } else {
                v.len() as int
            },
            EditorKey::Up => moved_cursor(v, cursor, -1, width),
            EditorKey::Down => moved_cursor(v, cursor, 1, width),
            EditorKey::Home => 0,
            EditorKey::End => v.len() as int,
            _ => cursor,
        }
    }
}

} // verus!
