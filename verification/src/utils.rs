//! Text normalization shared by every site adapter: entity decoding,
//! whitespace collapsing, boilerplate detection and file-name slugs.

use vstd::prelude::*;
use crate::text::{chars_of, is_empty_str, owned, string_of};

verus! {

/// Unicode `White_Space`, the property std's `char::is_whitespace` tests.
pub open spec fn is_ws(c: char) -> bool {
    let n = c as u32;
    (9 <= n && n <= 13) || n == 32 || n == 0x85 || n == 0xA0 || n == 0x1680
        || (0x2000 <= n && n <= 0x200A) || n == 0x2028 || n == 0x2029 || n == 0x202F
        || n == 0x205F || n == 0x3000
}

/// Whether `c` is Unicode white space.
pub fn is_whitespace(c: char) -> (r: bool)
    ensures
        r == is_ws(c),
{
    let n = c as u32;
    (9 <= n && n <= 13) || n == 32 || n == 0x85 || n == 0xA0 || n == 0x1680
        || (0x2000 <= n && n <= 0x200A) || n == 0x2028 || n == 0x2029 || n == 0x202F
        || n == 0x205F || n == 0x3000
}

/// `s` with leading and trailing white space removed and every inner run of
/// white space replaced by one space (`split_whitespace` joined with `" "`).
pub open spec fn collapse_ws(s: Seq<char>) -> Seq<char>
    decreases s.len(),
{
    if s.len() == 0 {
        Seq::empty()
    } else {
        let p = s.drop_last();
        let c = s.last();
        if is_ws(c) {
            collapse_ws(p)
        } else if collapse_ws(p).len() > 0 && is_ws(p.last()) {
            collapse_ws(p) + seq![' ', c]
        } else {
            collapse_ws(p).push(c)
        }
    }
}

/// A collapsed string never starts or ends with white space and holds no
/// two adjacent white-space characters.
pub proof fn lemma_collapse_shape(s: Seq<char>)
    ensures
        collapse_ws(s).len() > 0 ==> !is_ws(collapse_ws(s)[0]) && !is_ws(collapse_ws(s).last()),
        forall|i: int| 0 <= i < collapse_ws(s).len() && is_ws(#[trigger] collapse_ws(s)[i]) ==> collapse_ws(s)[i] == ' ',
        forall|i: int| 0 <= i < collapse_ws(s).len() - 1 && #[trigger] collapse_ws(s)[i] == ' ' ==> collapse_ws(s)[i + 1] != ' ',
    decreases s.len(),
{
    if s.len() > 0 {
        lemma_collapse_shape(s.drop_last());
        let p = s.drop_last();
        let r = collapse_ws(s);
        let q = collapse_ws(p);
        if !is_ws(s.last()) {
            if q.len() > 0 && is_ws(p.last()) {
                assert forall|i: int| 0 <= i < r.len() && is_ws(#[trigger] r[i]) implies r[i] == ' ' by {
                    if i < q.len() {
                        assert(r[i] == q[i]);
                    }
                }
                assert forall|i: int| 0 <= i < r.len() - 1 && #[trigger] r[i] == ' ' implies r[i + 1] != ' ' by {
                    if i < q.len() - 1 {
                        assert(r[i] == q[i] && r[i + 1] == q[i + 1]);
                    }
                    if i == q.len() - 1 {
                        assert(r[i] == q.last());
                    }
                }
            } else {
                assert forall|i: int| 0 <= i < r.len() && is_ws(#[trigger] r[i]) implies r[i] == ' ' by {
                    if i < q.len() {
                        assert(r[i] == q[i]);
                    }
                }
                assert forall|i: int| 0 <= i < r.len() - 1 && #[trigger] r[i] == ' ' implies r[i + 1] != ' ' by {
                    if i < q.len() - 1 {
                        assert(r[i] == q[i] && r[i + 1] == q[i + 1]);
                    }
                }
            }
        }
    }
}

/// Collapse white space as [`collapse_ws`] describes.
pub fn collapse_whitespace(chars: &Vec<char>) -> (out: Vec<char>)
    ensures
        out@ == collapse_ws(chars@),
{
    let mut out: Vec<char> = Vec::new();
    let mut i: usize = 0;
    while i < chars.len()
        invariant
            i <= chars.len(),
            out@ == collapse_ws(chars@.take(i as int)),
        decreases chars.len() - i,
    {
        let c = chars[i];
        let ghost p = chars@.take(i as int);
        proof {
            assert(chars@.take(i as int + 1).drop_last() == p);
        }
        if is_whitespace(c) {
        } else {
            if out.len() > 0 && is_whitespace(chars[i - 1]) {
                proof {
                    assert(p.last() == chars@[i - 1]);
                }
                out.push(' ');
                out.push(c);
            } else {
                proof {
                    if out.len() > 0 {
                        assert(p.last() == chars@[i - 1]);
                    }
                }
                out.push(c);
            }
        }
        i = i + 1;
    }
    proof {
        assert(chars@.take(chars.len() as int) == chars@);
    }
    out
}

/// Whether `pat` occurs in `s` starting at index `i`.
pub open spec fn occurs_at(s: Seq<char>, i: int, pat: Seq<char>) -> bool {
    0 <= i && i + pat.len() <= s.len() && s.subrange(i, i + pat.len()) == pat
}

/// Whether `pat` occurs anywhere in `s`.
pub open spec fn contains(s: Seq<char>, pat: Seq<char>) -> bool {
    exists|i: int| occurs_at(s, i, pat)
}

/// Whether `pat` occurs in `s` at index `i`.
pub fn matches_at(s: &Vec<char>, i: usize, pat: &Vec<char>) -> (r: bool)
    ensures
        r == occurs_at(s@, i as int, pat@),
{
    if i > s.len() || pat.len() > s.len() - i {
        return false;
    }
    let mut k: usize = 0;
    while k < pat.len()
        invariant
            k <= pat.len(),
            i + pat.len() <= s.len(),
            forall|m: int| 0 <= m < k ==> s@[i + m] == pat@[m],
        decreases pat.len() - k,
    {
        if s[i + k] != pat[k] {
            proof {
                assert(s@.subrange(i as int, i + pat.len())[k as int] != pat@[k as int]);
            }
            return false;
        }
        k = k + 1;
    }
    proof {
        assert(s@.subrange(i as int, i + pat.len()) =~= pat@);
    }
    true
}

/// Whether `pat` occurs anywhere in `s`.
pub fn contains_chars(s: &Vec<char>, pat: &Vec<char>) -> (r: bool)
    ensures
        r == contains(s@, pat@),
{
    if pat.len() == 0 {
        proof {
            assert(s@.subrange(0, 0) =~= pat@);
            assert(occurs_at(s@, 0, pat@));
        }
        return true;
    }
    let mut i: usize = 0;
    while i < s.len()
        invariant
            i <= s.len(),
            pat.len() > 0,
            forall|j: int| 0 <= j < i ==> !occurs_at(s@, j, pat@),
        decreases s.len() - i,
    {
        if matches_at(s, i, pat) {
            return true;
        }
        i = i + 1;
    }
    proof {
        assert forall|j: int| !occurs_at(s@, j, pat@) by {
            if 0 <= j < i {
            }
        }
    }
    false
}

/// The character an entity stands for, with its length, when `s` starts
/// with one of the entities the sites emit.
pub open spec fn entity_at(s: Seq<char>) -> Option<(char, nat)> {
    if occurs_at(s, 0, "&amp;"@) {
        Some(('&', 5))
    } else if occurs_at(s, 0, "&lt;"@) {
        Some(('<', 4))
    } else if occurs_at(s, 0, "&gt;"@) {
        Some(('>', 4))
    } else if occurs_at(s, 0, "&quot;"@) {
        Some(('"', 6))
    } else if occurs_at(s, 0, "&#39;"@) {
        Some(('\'', 5))
    } else if occurs_at(s, 0, "&apos;"@) {
        Some(('\'', 6))
    } else if occurs_at(s, 0, "&nbsp;"@) {
        Some(('\u{a0}', 6))
    } else {
        None
    }
}

/// `s` with each entity replaced by its character, in one left-to-right pass
/// (so `&amp;lt;` decodes to `&lt;`, not `<`).
pub open spec fn decode_entities(s: Seq<char>) -> Seq<char>
    decreases s.len(),
{
    if s.len() == 0 {
        Seq::empty()
    } else {
        match entity_at(s) {
            Some((c, n)) => {
                if 0 < n <= s.len() {
                    seq![c] + decode_entities(s.skip(n as int))
                } else {
                    seq![s[0]] + decode_entities(s.skip(1))
                }
            },
            None => seq![s[0]] + decode_entities(s.skip(1)),
        }
    }
}

/// What every scraped string goes through: entities decoded, then white
/// space collapsed.
pub open spec fn clean(s: Seq<char>) -> Seq<char> {
    collapse_ws(decode_entities(s))
}

/// Decode one entity at `chars[i..]`, if there is one.
fn entity_here(chars: &Vec<char>, i: usize, pats: &Vec<Vec<char>>) -> (r: Option<(char, usize)>)
    requires
        i <= chars.len(),
        pats.len() == 7,
        pats@[0]@ == "&amp;"@,
        pats@[1]@ == "&lt;"@,
        pats@[2]@ == "&gt;"@,
        pats@[3]@ == "&quot;"@,
        pats@[4]@ == "&#39;"@,
        pats@[5]@ == "&apos;"@,
        pats@[6]@ == "&nbsp;"@,
    ensures
        match r {
            Some((c, n)) => entity_at(chars@.skip(i as int)) == Some((c, n as nat)),
            None => entity_at(chars@.skip(i as int)) is None,
        },
{
    let ghost rest = chars@.skip(i as int);
    proof {
        assert forall|pat: Seq<char>| #[trigger] occurs_at(rest, 0, pat) == occurs_at(chars@, i as int, pat) by {
            if i + pat.len() <= chars@.len() {
                assert(rest.subrange(0, pat.len() as int) =~= chars@.subrange(i as int, i + pat.len()));
            }
        }
    }
    let outs: [char; 7] = ['&', '<', '>', '"', '\'', '\'', '\u{a0}'];
    let lens: [usize; 7] = [5, 4, 4, 6, 5, 6, 6];
    proof {
        reveal_strlit("&amp;");
        reveal_strlit("&lt;");
        reveal_strlit("&gt;");
        reveal_strlit("&quot;");
        reveal_strlit("&#39;");
        reveal_strlit("&apos;");
        reveal_strlit("&nbsp;");
    }
    if matches_at(chars, i, &pats[0]) {
        return Some((outs[0], lens[0]));
    }
    if matches_at(chars, i, &pats[1]) {
        return Some((outs[1], lens[1]));
    }
    if matches_at(chars, i, &pats[2]) {
        return Some((outs[2], lens[2]));
    }
    if matches_at(chars, i, &pats[3]) {
        return Some((outs[3], lens[3]));
    }
    if matches_at(chars, i, &pats[4]) {
        return Some((outs[4], lens[4]));
    }
    if matches_at(chars, i, &pats[5]) {
        return Some((outs[5], lens[5]));
    }
    if matches_at(chars, i, &pats[6]) {
        return Some((outs[6], lens[6]));
    }
    None
}

/// The entity patterns [`entity_at`] recognizes, in its order.
fn entity_patterns() -> (pats: Vec<Vec<char>>)
    ensures
        pats.len() == 7,
        pats@[0]@ == "&amp;"@,
        pats@[1]@ == "&lt;"@,
        pats@[2]@ == "&gt;"@,
        pats@[3]@ == "&quot;"@,
        pats@[4]@ == "&#39;"@,
        pats@[5]@ == "&apos;"@,
        pats@[6]@ == "&nbsp;"@,
{
    let mut pats: Vec<Vec<char>> = Vec::new();
    pats.push(chars_of("&amp;"));
    pats.push(chars_of("&lt;"));
    pats.push(chars_of("&gt;"));
    pats.push(chars_of("&quot;"));
    pats.push(chars_of("&#39;"));
    pats.push(chars_of("&apos;"));
    pats.push(chars_of("&nbsp;"));
    pats
}

/// Decode the entities of `chars` as [`decode_entities`] describes.
pub fn decode_entity_chars(chars: &Vec<char>) -> (out: Vec<char>)
    ensures
        out@ == decode_entities(chars@),
{
    let pats = entity_patterns();
    let mut out: Vec<char> = Vec::new();
    let mut i: usize = 0;
    proof {
        assert(chars@.skip(0) == chars@);
    }
    while i < chars.len()
        invariant
            i <= chars.len(),
            pats.len() == 7,
            pats@[0]@ == "&amp;"@,
            pats@[1]@ == "&lt;"@,
            pats@[2]@ == "&gt;"@,
            pats@[3]@ == "&quot;"@,
            pats@[4]@ == "&#39;"@,
            pats@[5]@ == "&apos;"@,
            pats@[6]@ == "&nbsp;"@,
            out@ + decode_entities(chars@.skip(i as int)) == decode_entities(chars@),
        decreases chars.len() - i,
    {
        let ghost rest = chars@.skip(i as int);
        match entity_here(chars, i, &pats) {
            Some((c, n)) => {
                proof {
                    assert(occurs_at(rest, 0, rest.take(n as int)) || true);
                    reveal_strlit("&amp;");
                    reveal_strlit("&lt;");
                    reveal_strlit("&gt;");
                    reveal_strlit("&quot;");
                    reveal_strlit("&#39;");
                    reveal_strlit("&apos;");
                    reveal_strlit("&nbsp;");
                    assert(0 < n <= rest.len());
                    assert(rest.skip(n as int) =~= chars@.skip(i + n));
                    assert(decode_entities(rest) == seq![c] + decode_entities(rest.skip(n as int)));
                    assert(out@.push(c) + decode_entities(chars@.skip(i + n)) =~= out@ + decode_entities(rest));
                }
                out.push(c);
                i = i + n;
            },
            None => {
                let c = chars[i];
                proof {
                    assert(rest[0] == c);
                    assert(rest.skip(1) =~= chars@.skip(i + 1));
                    assert(out@.push(c) + decode_entities(chars@.skip(i + 1)) =~= out@ + decode_entities(rest));
                }
                out.push(c);
                i = i + 1;
            },
        }
    }
    proof {
        assert(chars@.skip(i as int) =~= Seq::<char>::empty());
        assert(out@ + Seq::<char>::empty() =~= out@);
    }
    out
}

/// Decode HTML entities and collapse white space: the normalization every
/// scraped title, paragraph and attribute value goes through.
pub fn clean_text(text: &str) -> (res: String)
    ensures
        res@ == clean(text@),
{
    let chars = chars_of(text);
    let decoded = decode_entity_chars(&chars);
    let collapsed = collapse_whitespace(&decoded);
    string_of(collapsed.as_slice())
}

/// Boilerplate lines the sites splice into chapter prose.
pub open spec fn noise_markers() -> Seq<Seq<char>> {
    seq!["Bạn đang đọc truyện mới tại"@, "Nhấn Mở Bình Luận để xem thêm"@]
}

/// A line that carries no prose: blank, or one of the known boilerplate lines.
pub open spec fn noise(s: Seq<char>) -> bool {
    collapse_ws(s).len() == 0 || exists|k: int| 0 <= k < noise_markers().len() && contains(s, #[trigger] noise_markers()[k])
}

/// Whether `text` is blank or known boilerplate rather than chapter prose.
pub fn is_noise(text: &str) -> (r: bool)
    ensures
        r == noise(text@),
{
    let chars = chars_of(text);
    let collapsed = collapse_whitespace(&chars);
    if collapsed.len() == 0 {
        return true;
    }
    let first = chars_of("Bạn đang đọc truyện mới tại");
    let second = chars_of("Nhấn Mở Bình Luận để xem thêm");
    let hit_first = contains_chars(&chars, &first);
    let hit_second = contains_chars(&chars, &second);
    proof {
        let m = noise_markers();
        assert(m[0] == first@);
        assert(m[1] == second@);
        if !hit_first && !hit_second {
            assert forall|k: int| 0 <= k < m.len() implies !contains(text@, #[trigger] m[k]) by {
                if k == 0 {
                } else {
                    assert(k == 1);
                }
            }
        }
        if hit_first {
            assert(contains(text@, m[0]));
        }
        if hit_second {
            assert(contains(text@, m[1]));
        }
    }
    hit_first || hit_second
}

} // verus!

verus! {

/// `s` without its leading characters that satisfy `p`.
pub open spec fn trim_start_by(s: Seq<char>, p: spec_fn(char) -> bool) -> Seq<char>
    decreases s.len(),
{
    if s.len() > 0 && p(s[0]) {
        trim_start_by(s.skip(1), p)
    } else {
        s
    }
}

/// `s` without its trailing characters that satisfy `p`.
pub open spec fn trim_end_by(s: Seq<char>, p: spec_fn(char) -> bool) -> Seq<char>
    decreases s.len(),
{
    if s.len() > 0 && p(s.last()) {
        trim_end_by(s.drop_last(), p)
    } else {
        s
    }
}

/// The characters a trim removes: white space, or one given character.
pub open spec fn trim_pred(ws: bool, c: char) -> spec_fn(char) -> bool {
    |x: char| if ws { is_ws(x) } else { x == c }
}

/// `s` with leading and trailing white space removed (`str::trim`).
pub open spec fn trim(s: Seq<char>) -> Seq<char> {
    trim_end_by(trim_start_by(s, trim_pred(true, ' ')), trim_pred(true, ' '))
}

/// `s` with leading and trailing `c` removed (`str::trim_matches(c)`).
pub open spec fn trim_char(s: Seq<char>, c: char) -> Seq<char> {
    trim_end_by(trim_start_by(s, trim_pred(false, c)), trim_pred(false, c))
}

/// `s` with trailing `c` removed (`str::trim_end_matches(c)`).
pub open spec fn trim_end_char(s: Seq<char>, c: char) -> Seq<char> {
    trim_end_by(s, trim_pred(false, c))
}

/// Trimming from the front may first drop a prefix that is all `p`.
pub proof fn lemma_trim_start_skip(s: Seq<char>, p: spec_fn(char) -> bool, i: int)
    requires
        0 <= i <= s.len(),
        forall|k: int| 0 <= k < i ==> p(#[trigger] s[k]),
    ensures
        trim_start_by(s, p) == trim_start_by(s.skip(i), p),
    decreases i,
{
    if i > 0 {
        lemma_trim_start_skip(s.skip(1), p, i - 1);
        assert(s.skip(1).skip(i - 1) =~= s.skip(i));
        assert forall|k: int| 0 <= k < i - 1 implies p(#[trigger] s.skip(1)[k]) by {
            assert(s.skip(1)[k] == s[k + 1]);
        }
    } else {
        assert(s.skip(0) =~= s);
    }
}

/// Trimming from the back may first drop a suffix that is all `p`.
pub proof fn lemma_trim_end_take(s: Seq<char>, p: spec_fn(char) -> bool, j: int)
    requires
        0 <= j <= s.len(),
        forall|k: int| j <= k < s.len() ==> p(#[trigger] s[k]),
    ensures
        trim_end_by(s, p) == trim_end_by(s.take(j), p),
    decreases s.len() - j,
{
    if j < s.len() {
        lemma_trim_end_take(s.drop_last(), p, j);
        assert(s.drop_last().take(j) =~= s.take(j));
    } else {
        assert(s.take(j) =~= s);
    }
}

/// Whether a trim by [`trim_pred`]`(ws, c)` removes `x`.
fn trims(x: char, ws: bool, c: char) -> (r: bool)
    ensures
        r == trim_pred(ws, c)(x),
{
    if ws {
        is_whitespace(x)
    } else {
        x == c
    }
}

/// Remove characters matching [`trim_pred`]`(ws, c)` from the front (when
/// `front`) and from the back (when `back`) of `v`.
pub fn trim_chars(v: &Vec<char>, ws: bool, c: char, front: bool, back: bool) -> (out: Vec<char>)
    ensures
        front && back ==> out@ == trim_end_by(trim_start_by(v@, trim_pred(ws, c)), trim_pred(ws, c)),
        front && !back ==> out@ == trim_start_by(v@, trim_pred(ws, c)),
        !front && back ==> out@ == trim_end_by(v@, trim_pred(ws, c)),
        !front && !back ==> out@ == v@,
{
    let ghost p = trim_pred(ws, c);
    let mut i: usize = 0;
    if front {
        while i < v.len() && trims(v[i], ws, c)
            invariant
                i <= v.len(),
                p == trim_pred(ws, c),
                forall|k: int| 0 <= k < i ==> p(#[trigger] v@[k]),
            decreases v.len() - i,
        {
            i = i + 1;
        }
        proof {
            lemma_trim_start_skip(v@, p, i as int);
            if i < v.len() {
                assert(v@.skip(i as int)[0] == v@[i as int]);
            }
        }
    }
    let ghost mid = v@.skip(i as int);
    proof {
        if !front {
            assert(mid =~= v@);
        } else {
            assert(trim_start_by(v@, p) == mid);
        }
    }
    let mut j: usize = v.len();
    if back {
        while j > i && trims(v[j - 1], ws, c)
            invariant
                i <= j <= v.len(),
                p == trim_pred(ws, c),
                mid == v@.skip(i as int),
                forall|k: int| j <= k < v.len() ==> p(#[trigger] v@[k]),
            decreases j,
        {
            j = j - 1;
        }
        proof {
            assert forall|k: int| (j - i) <= k < mid.len() implies p(#[trigger] mid[k]) by {
                assert(mid[k] == v@[k + i]);
            }
            lemma_trim_end_take(mid, p, j - i);
            assert(mid.take(j - i) =~= v@.subrange(i as int, j as int));
            if j > i {
                assert(v@.subrange(i as int, j as int).last() == v@[j - 1]);
            }
        }
    }
    let mut out: Vec<char> = Vec::new();
    let mut k: usize = i;
    while k < j
        invariant
            i <= k <= j <= v.len(),
            out@ == v@.subrange(i as int, k as int),
        decreases j - k,
    {
        out.push(v[k]);
        k = k + 1;
        proof {
            assert(out@ =~= v@.subrange(i as int, k as int));
        }
    }
    proof {
        if !back {
            assert(v@.subrange(i as int, j as int) =~= mid);
        }
    }
    out
}

/// `text.trim()`.
pub fn trim_str(text: &str) -> (res: String)
    ensures
        res@ == trim(text@),
{
    let v = chars_of(text);
    let t = trim_chars(&v, true, ' ', true, true);
    string_of(t.as_slice())
}

/// The pieces `s` splits into at each `'\n'` (one more than its newlines).
pub open spec fn nl_pieces(s: Seq<char>) -> Seq<Seq<char>>
    decreases s.len(),
{
    if s.len() == 0 {
        seq![Seq::empty()]
    } else {
        let q = nl_pieces(s.drop_last());
        if s.last() == '\n' {
            q.push(Seq::empty())
        } else {
            q.update(q.len() - 1, q.last().push(s.last()))
        }
    }
}

proof fn lemma_nl_pieces_len(s: Seq<char>)
    ensures
        nl_pieces(s).len() >= 1,
    decreases s.len(),
{
    if s.len() > 0 {
        lemma_nl_pieces_len(s.drop_last());
    }
}

/// One line without the `'\r'` a CRLF ending leaves behind.
pub open spec fn strip_cr(line: Seq<char>) -> Seq<char> {
    if line.len() > 0 && line.last() == '\r' {
        line.drop_last()
    } else {
        line
    }
}

/// The lines of `s` as `str::lines` yields them: split at `'\n'`, the
/// `'\r'` of a CRLF ending removed; a trailing newline ends the last line
/// rather than starting an empty one.
pub open spec fn lines(s: Seq<char>) -> Seq<Seq<char>> {
    let p = nl_pieces(s);
    let ended = p.drop_last().map_values(|l: Seq<char>| strip_cr(l));
    if s.len() == 0 || s.last() == '\n' {
        ended
    } else {
        ended.push(p.last())
    }
}

/// Each string's characters.
pub open spec fn views(v: Seq<String>) -> Seq<Seq<char>> {
    v.map_values(|x: String| x@)
}

/// Appending a string appends its characters to [`views`].
pub proof fn lemma_views_push(v: Seq<String>, x: String)
    ensures
        views(v.push(x)) == views(v).push(x@),
{
    assert(views(v.push(x)) =~= views(v).push(x@));
}

/// The lines of `text`, as [`lines`] describes.
pub fn lines_of(text: &str) -> (res: Vec<String>)
    ensures
        views(res@) == lines(text@),
{
    let v = chars_of(text);
    let mut res: Vec<String> = Vec::new();
    let mut cur: Vec<char> = Vec::new();
    let ghost mut done: Seq<Seq<char>> = Seq::empty();
    let mut i: usize = 0;
    while i < v.len()
        invariant
            i <= v.len(),
            v@ == text@,
            done.push(cur@) == nl_pieces(v@.take(i as int)),
            views(res@) == done.map_values(|l: Seq<char>| strip_cr(l)),
        decreases v.len() - i,
    {
        let c = v[i];
        proof {
            assert(v@.take(i as int + 1).drop_last() == v@.take(i as int));
        }
        if c == '\n' {
            let mut line = cur.clone();
            if line.len() > 0 && line[line.len() - 1] == '\r' {
                line.pop();
            }
            proof {
                assert(line@ == strip_cr(cur@)) by {
                    if cur@.len() > 0 && cur@.last() == '\r' {
                        assert(line@ =~= cur@.drop_last());
                    }
                }
            }
            let ls = string_of(line.as_slice());
            proof {
                lemma_views_push(res@, ls);
                assert(done.push(cur@).map_values(|l: Seq<char>| strip_cr(l)) =~= done.map_values(|l: Seq<char>| strip_cr(l)).push(strip_cr(cur@)));
            }
            res.push(ls);
            proof {
                done = done.push(cur@);
            }
            cur = Vec::new();
        } else {
            cur.push(c);
            proof {
                assert(done.push(cur@) =~= nl_pieces(v@.take(i as int)).update(done.len() as int, cur@));
            }
        }
        i = i + 1;
    }
    proof {
        assert(v@.take(i as int) =~= v@);
        lemma_nl_pieces_len(v@);
        assert(nl_pieces(v@).drop_last() =~= done);
    }
    if cur.len() > 0 {
        let ls = string_of(cur.as_slice());
        proof {
            lemma_views_push(res@, ls);
            assert(nl_pieces(v@).last() == cur@);
            assert(v@.len() > 0 && v@.last() != '\n') by {
                if v@.len() == 0 {
                    assert(nl_pieces(v@) =~= seq![Seq::<char>::empty()]);
                } else if v@.last() == '\n' {
                    assert(nl_pieces(v@).last() =~= Seq::<char>::empty());
                }
            }
        }
        res.push(ls);
    } else {
        proof {
            if v@.len() > 0 && v@.last() != '\n' {
                let q = nl_pieces(v@.drop_last());
                lemma_nl_pieces_len(v@.drop_last());
                assert(nl_pieces(v@).last() == q.last().push(v@.last()));
                assert(false);
            }
        }
    }
    res
}

} // verus!

verus! {

/// The lines of `ls` that carry prose, in order: [`noise`] lines dropped.
pub open spec fn prose(ls: Seq<Seq<char>>) -> Seq<Seq<char>>
    decreases ls.len(),
{
    if ls.len() == 0 {
        Seq::empty()
    } else {
        let r = prose(ls.drop_last());
        if noise(ls.last()) {
            r
        } else {
            r.push(ls.last())
        }
    }
}

/// Nothing [`prose`] keeps is noise, and it keeps every line that is not.
pub proof fn lemma_prose_keeps_exactly_the_prose(ls: Seq<Seq<char>>)
    ensures
        forall|i: int| 0 <= i < prose(ls).len() ==> !noise(#[trigger] prose(ls)[i]),
        forall|i: int| 0 <= i < ls.len() && !noise(#[trigger] ls[i]) ==> prose(ls).contains(ls[i]),
        prose(ls).len() <= ls.len(),
    decreases ls.len(),
{
    if ls.len() > 0 {
        let p = ls.drop_last();
        lemma_prose_keeps_exactly_the_prose(p);
        let r = prose(p);
        assert forall|i: int| 0 <= i < ls.len() && !noise(#[trigger] ls[i]) implies prose(ls).contains(ls[i]) by {
            if i < ls.len() - 1 {
                assert(p[i] == ls[i]);
                assert(r.contains(p[i]));
                let j = choose|j: int| 0 <= j < r.len() && r[j] == p[i];
                if !noise(ls.last()) {
                    assert(prose(ls)[j] == r[j]);
                }
            } else {
                assert(prose(ls)[r.len() as int] == ls.last());
            }
        }
    }
}

/// The strings of `lines` that are not [`noise`], in order.
pub fn drop_noise(lines: Vec<String>) -> (res: Vec<String>)
    ensures
        views(res@) == prose(views(lines@)),
{
    let mut res: Vec<String> = Vec::new();
    let mut i: usize = 0;
    while i < lines.len()
        invariant
            i <= lines.len(),
            views(res@) == prose(views(lines@).take(i as int)),
        decreases lines.len() - i,
    {
        let line = &lines[i];
        proof {
            assert(views(lines@).take(i as int + 1).drop_last() =~= views(lines@).take(i as int));
            assert(views(lines@).take(i as int + 1).last() == line@);
        }
        if !is_noise(line.as_str()) {
            let kept = owned(line.as_str());
            proof {
                lemma_views_push(res@, kept);
            }
            res.push(kept);
        }
        i = i + 1;
    }
    proof {
        assert(views(lines@).take(lines.len() as int) =~= views(lines@));
    }
    res
}

} // verus!

verus! {

/// How a slug treats one character: kept (mapped), dropped without a trace
/// (a combining mark), or a word separator.
pub open spec fn slug_keeps(c: char) -> bool {
    ('a' <= c && c <= 'z') || ('A' <= c && c <= 'Z') || ('0' <= c && c <= '9') || c == 'đ' || c == 'Đ'
}

/// A combining diacritic, which NFD splits off a Vietnamese letter.
pub open spec fn slug_drops(c: char) -> bool {
    '\u{300}' <= c && c <= '\u{36f}'
}

/// The slug form of a kept character: ASCII lower case, `đ` as `d`.
pub open spec fn slug_char(c: char) -> char {
    if c == 'đ' || c == 'Đ' {
        'd'
    } else if 'A' <= c && c <= 'Z' {
        ((c as u32) + 32) as char
    } else {
        c
    }
}

/// Whether a separator comes after the last kept character of `s`.
pub open spec fn slug_pending(s: Seq<char>) -> bool
    decreases s.len(),
{
    if s.len() == 0 {
        false
    } else if slug_keeps(s.last()) {
        false
    } else if slug_drops(s.last()) {
        slug_pending(s.drop_last())
    } else {
        true
    }
}

/// The words of `s` in slug form, joined by single underscores.
pub open spec fn slug_words(s: Seq<char>) -> Seq<char>
    decreases s.len(),
{
    if s.len() == 0 {
        Seq::empty()
    } else {
        let p = s.drop_last();
        let c = s.last();
        if slug_keeps(c) {
            if slug_words(p).len() > 0 && slug_pending(p) {
                slug_words(p) + seq!['_', slug_char(c)]
            } else {
                slug_words(p).push(slug_char(c))
            }
        } else {
            slug_words(p)
        }
    }
}

/// The file-name slug of `title`: decomposed, diacritics dropped, ASCII
/// letters and digits lower-cased, every other run a single `_`; `fallback`
/// when nothing is left.
pub open spec fn slug(title: Seq<char>, fallback: Seq<char>) -> Seq<char> {
    let w = slug_words(crate::unicode::nfd(title));
    if w.len() == 0 { fallback } else { w }
}

/// [`slug_char`].
fn slug_char_exec(c: char) -> (r: char)
    ensures
        r == slug_char(c),
{
    if c == 'đ' || c == 'Đ' {
        'd'
    } else if 'A' <= c && c <= 'Z' {
        let n: u32 = (c as u32) + 32;
        let b: u8 = n as u8;
        b as char
    } else {
        c
    }
}

/// Turn a novel title into a directory name: `Tên Truyện` becomes
/// `ten_truyen`; `fallback` when the title has no letters or digits.
pub fn slugify(title: &str, fallback: &str) -> (res: String)
    ensures
        res@ == slug(title@, fallback@),
{
    let raw = chars_of(title);
    let v = crate::unicode::nfd_chars(raw.as_slice());
    let mut out: Vec<char> = Vec::new();
    let mut pending = false;
    let mut i: usize = 0;
    while i < v.len()
        invariant
            i <= v.len(),
            out@ == slug_words(v@.take(i as int)),
            pending == slug_pending(v@.take(i as int)),
        decreases v.len() - i,
    {
        let c = v[i];
        proof {
            assert(v@.take(i as int + 1).drop_last() =~= v@.take(i as int));
            assert(v@.take(i as int + 1).last() == c);
        }
        let keeps = ('a' <= c && c <= 'z') || ('A' <= c && c <= 'Z') || ('0' <= c && c <= '9') || c == 'đ' || c == 'Đ';
        if keeps {
            if out.len() > 0 && pending {
                out.push('_');
            }
            out.push(slug_char_exec(c));
            pending = false;
        } else if '\u{300}' <= c && c <= '\u{36f}' {
        } else {
            pending = true;
        }
        i = i + 1;
    }
    proof {
        assert(v@.take(v.len() as int) =~= v@);
    }
    if out.len() == 0 {
        owned(fallback)
    } else {
        string_of(out.as_slice())
    }
}

/// The first of `texts` that is not empty once cleaned, cleaned.
pub open spec fn first_nonempty(texts: Seq<Seq<char>>) -> Option<Seq<char>>
    decreases texts.len(),
{
    if texts.len() == 0 {
        None
    } else if clean(texts[0]).len() > 0 {
        Some(clean(texts[0]))
    } else {
        first_nonempty(texts.skip(1))
    }
}

/// The cleaned text of the first element a selector found, when there is
/// one and its cleaned text is not empty.
pub open spec fn first_clean(texts: Option<Seq<Seq<char>>>) -> Option<Seq<char>> {
    match texts {
        Some(ts) => if ts.len() > 0 && clean(ts[0]).len() > 0 { Some(clean(ts[0])) } else { None },
        None => None,
    }
}

/// The cleaned text of the first element, as [`first_clean`] describes.
pub fn first_clean_text(texts: &Option<Vec<String>>) -> (r: Option<String>)
    ensures
        r.deep_view() == first_clean(texts.deep_view()),
{
    match texts {
        Some(ts) => {
            if ts.len() > 0 {
                let t = clean_text(ts[0].as_str());
                if !is_empty_str(t.as_str()) {
                    return Some(t);
                }
            }
            None
        },
        None => None,
    }
}

/// The first of `texts` that is not empty once cleaned, as
/// [`first_nonempty`] describes.
pub fn first_nonempty_text(texts: &Vec<String>) -> (r: Option<String>)
    ensures
        r.deep_view() == first_nonempty(texts.deep_view()),
{
    let ghost tv = texts.deep_view();
    proof {
        assert(tv.skip(0) =~= tv);
    }
    let mut i: usize = 0;
    while i < texts.len()
        invariant
            i <= texts.len(),
            tv == texts.deep_view(),
            first_nonempty(tv) == first_nonempty(tv.skip(i as int)),
        decreases texts.len() - i,
    {
        proof {
            assert(tv.skip(i as int)[0] == texts@[i as int]@);
            assert(tv.skip(i as int).skip(1) =~= tv.skip(i + 1));
        }
        let t = clean_text(texts[i].as_str());
        if !is_empty_str(t.as_str()) {
            return Some(t);
        }
        i = i + 1;
    }
    None
}

} // verus!
