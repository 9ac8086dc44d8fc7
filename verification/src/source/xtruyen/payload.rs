//! Recovering chapter prose from an xtruyen chapter page. The page serves an
//! empty reading container and ships the text in an inline script as one
//! encoded string: a zlib stream, base64-encoded, written in a private
//! alphabet.

use base64::Engine;
use vstd::prelude::*;
use crate::pattern::{
    regex_capture_first, regex_captures_all, regex_every_match, regex_first_group, regex_pieces,
    regex_replace_all, regex_replaced, regex_split,
};
use crate::text::{chars_of, owned, string_of};
use crate::utils::{clean, clean_text, drop_noise, lemma_views_push, prose, views};

verus! {

/// The alphabet the encoded payload is written in, when the page carries
/// none of its own.
pub const DEFAULT_PAYLOAD_ALPHABET: &'static str = "0123456789abcdefghijklmnopqrstuvwxyzABCDEFGHIJKLMNOPQRSTUVWXYZ-_";

/// Standard base64, the alphabet the payload is translated into, when the
/// page carries none of its own.
pub const DEFAULT_BASE64_ALPHABET: &'static str = "ABCDEFGHIJKLMNOPQRSTUVWXYZabcdefghijklmnopqrstuvwxyz0123456789+/";

/// The `data_x` assignment holding the encoded chapter payload.
pub const DATA_X_PATTERN: &'static str = "data_x\\s*=\\s*\"([A-Za-z0-9+/=_-]+)\"";

/// Any single-quoted 64-character literal: the shape both alphabets take in
/// the page's obfuscated string array, whatever their order there.
pub const ALPHABET_PATTERN: &'static str = "'([A-Za-z0-9+/_-]{64})'";

/// The promotional block the site's own script removes before showing the
/// chapter; it travels inside the payload.
pub const PROMO_BLOCK_PATTERN: &'static str = "(?is)<div[^>]*class=\"[^\"]*native-stories[^\"]*\"[^>]*>.*?</div>";

/// One run of `<br>` separators: a paragraph boundary however long the run.
pub const BREAK_PATTERN: &'static str = "(?is)(?:\\s*<br\\s*/?>\\s*)+";

/// One HTML tag; the decoded payload carries only `br` and `div`.
pub const TAG_PATTERN: &'static str = "<[^>]*>";

/// The payload of a chapter page, from the page itself.
pub open spec fn payload_of(page: Seq<char>) -> Result<Seq<char>, Seq<char>> {
    match regex_first_group(DATA_X_PATTERN@, page, 1) {
        Some(Some(p)) => Ok(p),
        _ => Err("chapter page carries no encoded payload"@),
    }
}

/// Extract the encoded payload from a chapter page.
pub fn extract_payload(page_html: &str) -> (res: Result<String, String>)
    ensures
        crate::text::str_result(res) == payload_of(page_html@),
{
    match regex_capture_first(DATA_X_PATTERN, page_html, 1) {
        Some(Some(p)) => Ok(p),
        _ => Err(owned("chapter page carries no encoded payload")),
    }
}

/// Whether a literal carries a symbol only standard base64 has.
pub open spec fn has_base64_symbol(lit: Seq<char>) -> bool {
    lit.contains('+') || lit.contains('/')
}

/// The first payload-alphabet literal and the first base64 literal among
/// `lits`, in page order.
pub open spec fn first_alphabets(lits: Seq<Option<Seq<char>>>) -> (Option<Seq<char>>, Option<Seq<char>>)
    decreases lits.len(),
{
    if lits.len() == 0 {
        (None, None)
    } else {
        let (pa, ba) = first_alphabets(lits.drop_last());
        match lits.last() {
            None => (pa, ba),
            Some(l) => if has_base64_symbol(l) {
                (pa, if ba is Some { ba } else { Some(l) })
            } else {
                (if pa is Some { pa } else { Some(l) }, ba)
            },
        }
    }
}

/// The alphabets a page's 64-character literals name, the compiled-in pair
/// filling in for whichever the page lacks.
pub open spec fn alphabets_from(lits: Seq<Option<Seq<char>>>) -> (Seq<char>, Seq<char>) {
    let (pa, ba) = first_alphabets(lits);
    (
        match pa { Some(a) => a, None => DEFAULT_PAYLOAD_ALPHABET@ },
        match ba { Some(b) => b, None => DEFAULT_BASE64_ALPHABET@ },
    )
}

/// Group 1 of each match, when the match has one.
pub open spec fn first_groups(matches: Seq<Seq<Option<Seq<char>>>>) -> Seq<Option<Seq<char>>> {
    matches.map_values(|m: Seq<Option<Seq<char>>>| if m.len() > 1 { m[1] } else { None })
}

/// The alphabets of a chapter page.
pub open spec fn alphabets_of(page: Seq<char>) -> (Seq<char>, Seq<char>) {
    alphabets_from(match regex_every_match(ALPHABET_PATTERN@, page) {
        Some(l) => first_groups(l),
        None => Seq::empty(),
    })
}

/// Group 1 of each match.
pub fn group_ones(matches: &Vec<Vec<Option<String>>>) -> (r: Vec<Option<String>>)
    ensures
        r.deep_view() == first_groups(matches.deep_view()),
{
    let ghost mv = matches.deep_view();
    let mut r: Vec<Option<String>> = Vec::new();
    let mut i: usize = 0;
    while i < matches.len()
        invariant
            i <= matches.len(),
            mv == matches.deep_view(),
            r.deep_view() == first_groups(mv.take(i as int)),
        decreases matches.len() - i,
    {
        let m = &matches[i];
        let g: Option<String> = if m.len() > 1 {
            match &m[1] {
                Some(s) => Some(owned(s.as_str())),
                None => None,
            }
        } else {
            None
        };
        proof {
            assert(mv[i as int] == m.deep_view());
            assert(r.deep_view().push(g.deep_view()) =~= first_groups(mv.take(i + 1)));
        }
        r.push(g);
        proof {
            assert(r.deep_view() =~= first_groups(mv.take(i + 1)));
        }
        i = i + 1;
    }
    proof {
        assert(mv.take(matches.len() as int) =~= mv);
    }
    r
}

/// Whether `v` holds `'+'` or `'/'`.
fn has_base64_symbol_exec(v: &Vec<char>) -> (r: bool)
    ensures
        r == has_base64_symbol(v@),
{
    let mut i: usize = 0;
    while i < v.len()
        invariant
            i <= v.len(),
            forall|k: int| 0 <= k < i ==> v@[k] != '+' && v@[k] != '/',
        decreases v.len() - i,
    {
        if v[i] == '+' || v[i] == '/' {
            proof {
                assert(v@[i as int] == '+' ==> v@.contains('+'));
                assert(v@[i as int] == '/' ==> v@.contains('/'));
            }
            return true;
        }
        i = i + 1;
    }
    false
}

/// Tell the page's 64-character literals apart by their symbols (only
/// standard base64 has `+` and `/`), keep the first of each kind, and fall
/// back to the compiled-in pair.
pub fn pick_alphabets(literals: &Vec<Option<String>>) -> (res: (String, String))
    ensures
        (res.0@, res.1@) == alphabets_from(literals.deep_view()),
{
    let mut pa: Option<String> = None;
    let mut ba: Option<String> = None;
    let mut i: usize = 0;
    while i < literals.len()
        invariant
            i <= literals.len(),
            (pa.deep_view(), ba.deep_view()) == first_alphabets(literals.deep_view().take(i as int)),
        decreases literals.len() - i,
    {
        proof {
            assert(literals.deep_view().take(i as int + 1).drop_last() =~= literals.deep_view().take(i as int));
            assert(literals.deep_view().take(i as int + 1).last() == literals@[i as int].deep_view());
        }
        match &literals[i] {
            None => {},
            Some(l) => {
                let v = chars_of(l.as_str());
                if has_base64_symbol_exec(&v) {
                    if ba.is_none() {
                        ba = Some(owned(l.as_str()));
                    }
                } else {
                    if pa.is_none() {
                        pa = Some(owned(l.as_str()));
                    }
                }
            },
        }
        i = i + 1;
    }
    proof {
        assert(literals.deep_view().take(literals.len() as int) =~= literals.deep_view());
    }
    let a = match pa {
        Some(a) => a,
        None => owned(DEFAULT_PAYLOAD_ALPHABET),
    };
    let b = match ba {
        Some(b) => b,
        None => owned(DEFAULT_BASE64_ALPHABET),
    };
    (a, b)
}

/// Extract the payload alphabet and the base64 alphabet from a chapter page,
/// falling back to the compiled-in pair when the page carries neither.
pub fn extract_alphabets(page_html: &str) -> (res: (String, String))
    ensures
        (res.0@, res.1@) == alphabets_of(page_html@),
{
    match regex_captures_all(ALPHABET_PATTERN, page_html) {
        Some(ms) => {
            let lits = group_ones(&ms);
            pick_alphabets(&lits)
        },
        None => {
            let none: Vec<Option<String>> = Vec::new();
            proof {
                assert(none.deep_view() =~= Seq::<Option<Seq<char>>>::empty());
            }
            pick_alphabets(&none)
        },
    }
}

/// The first index of `c` in `a`, or -1 when `a` lacks it.
pub open spec fn first_index(a: Seq<char>, c: char) -> int
    decreases a.len(),
{
    if a.len() == 0 {
        -1
    } else if a[0] == c {
        0
    } else {
        let r = first_index(a.skip(1), c);
        if r < 0 { -1 } else { r + 1 }
    }
}

/// [`first_index`] finds the first occurrence, and only misses when there
/// is none.
pub proof fn lemma_first_index(a: Seq<char>, c: char)
    ensures
        first_index(a, c) < a.len(),
        first_index(a, c) >= 0 ==> a[first_index(a, c)] == c,
        first_index(a, c) >= 0 ==> forall|k: int| 0 <= k < first_index(a, c) ==> a[k] != c,
        first_index(a, c) < 0 ==> first_index(a, c) == -1 && !a.contains(c),
    decreases a.len(),
{
    if a.len() > 0 && a[0] != c {
        lemma_first_index(a.skip(1), c);
        let r = first_index(a.skip(1), c);
        if r >= 0 {
            assert forall|k: int| 0 <= k < r + 1 implies a[k] != c by {
                if k > 0 {
                    assert(a[k] == a.skip(1)[k - 1]);
                }
            }
        } else {
            assert(!a.contains(c)) by {
                if a.contains(c) {
                    let k = choose|k: int| 0 <= k < a.len() && a[k] == c;
                    assert(a.skip(1)[k - 1] == c);
                }
            }
        }
    }
}

/// One payload character moved between alphabets: the character at the same
/// position of `to`, or the character itself when `from` lacks it.
pub open spec fn translate_char(c: char, from: Seq<char>, to: Seq<char>) -> char {
    let i = first_index(from, c);
    if 0 <= i < to.len() { to[i] } else { c }
}

/// A payload moved between alphabets character by character.
pub open spec fn translated(payload: Seq<char>, from: Seq<char>, to: Seq<char>) -> Seq<char> {
    payload.map_values(|c: char| translate_char(c, from, to))
}

/// [`translate_char`].
fn translate_one(c: char, from: &Vec<char>, to: &Vec<char>) -> (r: char)
    ensures
        r == translate_char(c, from@, to@),
{
    let mut i: usize = 0;
    while i < from.len() && from[i] != c
        invariant
            i <= from.len(),
            forall|k: int| 0 <= k < i ==> from@[k] != c,
        decreases from.len() - i,
    {
        i = i + 1;
    }
    proof {
        lemma_first_index(from@, c);
        let r = first_index(from@, c);
        if i < from.len() {
            if r >= 0 && r < i {
                assert(from@[r] == c);
            }
            if r < 0 {
                assert(from@.contains(c));
            }
            assert(r == i);
        } else {
            if r >= 0 {
                assert(from@[r] == c);
            }
            assert(r < 0);
        }
    }
    if i < from.len() && i < to.len() {
        to[i]
    } else {
        c
    }
}

/// Translate an encoded payload from its own alphabet into standard base64.
/// A character in neither alphabet is passed through untouched, which is
/// what preserves base64 padding.
pub fn translate(payload: &str, from: &str, to: &str) -> (res: String)
    ensures
        res@ == translated(payload@, from@, to@),
{
    let p = chars_of(payload);
    let f = chars_of(from);
    let t = chars_of(to);
    let mut out: Vec<char> = Vec::new();
    let mut i: usize = 0;
    while i < p.len()
        invariant
            i <= p.len(),
            p@ == payload@,
            f@ == from@,
            t@ == to@,
            out@ == translated(p@.take(i as int), f@, t@),
        decreases p.len() - i,
    {
        let c = translate_one(p[i], &f, &t);
        out.push(c);
        i = i + 1;
        proof {
            assert(out@ =~= translated(p@.take(i as int), f@, t@));
        }
    }
    proof {
        assert(p@.take(p.len() as int) =~= p@);
    }
    string_of(out.as_slice())
}

/// No character occurs twice in `a`.
pub open spec fn distinct(a: Seq<char>) -> bool {
    forall|i: int, j: int| 0 <= i < j < a.len() ==> a[i] != a[j]
}

/// Translating into another alphabet and back gives the payload again, when
/// both alphabets are of one length without repeats and no payload
/// character is foreign to the first alphabet yet part of the second.
pub proof fn lemma_translate_round_trip(payload: Seq<char>, a: Seq<char>, b: Seq<char>)
    requires
        a.len() == b.len(),
        distinct(a),
        distinct(b),
        forall|k: int| 0 <= k < payload.len() ==> a.contains(#[trigger] payload[k]) || !b.contains(payload[k]),
    ensures
        translated(translated(payload, a, b), b, a) == payload,
        translated(payload, a, b).len() == payload.len(),
{
    let fwd = translated(payload, a, b);
    assert forall|k: int| 0 <= k < payload.len() implies #[trigger] translated(fwd, b, a)[k] == payload[k] by {
        let c = payload[k];
        lemma_first_index(a, c);
        let i = first_index(a, c);
        if i >= 0 {
            let d = b[i];
            lemma_first_index(b, d);
            let j = first_index(b, d);
            if j >= 0 && j != i {
                if j < i {
                    assert(b[j] == b[i]);
                } else {
                    assert(b[i] == b[j]);
                }
            }
            assert(b.contains(d));
            assert(j == i);
        } else {
            assert(!b.contains(c));
            lemma_first_index(b, c);
            if first_index(b, c) >= 0 {
                assert(b[first_index(b, c)] == c);
            }
        }
    }
    assert(translated(fwd, b, a) =~= payload);
}

/// What `base64`'s standard engine, padding-indifferent, decodes `text` to;
/// `None` when it rejects the text.
pub uninterp spec fn base64_decoded(text: Seq<char>) -> Option<Seq<u8>>;

/// What a `flate2` zlib decoder, read to a UTF-8 string, makes of `bytes`;
/// `None` when the stream is not zlib or not UTF-8.
pub uninterp spec fn zlib_text(bytes: Seq<u8>) -> Option<Seq<char>>;

/// Decode `text` with the standard base64 alphabet, accepting it with or
/// without padding (`base64::engine::GeneralPurpose::decode`).
#[verifier::external_body]
fn decode_base64(text: &str) -> (res: Option<Vec<u8>>)
    ensures
        res.deep_view() == base64_decoded(text@),
{
    let config = base64::engine::GeneralPurposeConfig::new()
        .with_decode_padding_mode(base64::engine::DecodePaddingMode::Indifferent);
    let engine = base64::engine::GeneralPurpose::new(&base64::alphabet::STANDARD, config);
    engine.decode(text).ok()
}

/// Inflate a zlib stream into a string (`flate2::read::ZlibDecoder` read with
/// `read_to_string`).
#[verifier::external_body]
fn inflate_zlib(bytes: &[u8]) -> (res: Option<String>)
    ensures
        res.deep_view() == zlib_text(bytes@),
{
    let mut markup = String::new();
    std::io::Read::read_to_string(&mut flate2::read::ZlibDecoder::new(bytes), &mut markup).ok()?;
    Some(markup)
}

/// The chapter markup a translated payload decodes and inflates to.
pub open spec fn inflated(translated: Seq<char>) -> Result<Seq<char>, Seq<char>> {
    match base64_decoded(translated) {
        None => Err("translated payload is not valid base64"@),
        Some(bytes) => match zlib_text(bytes) {
            None => Err("payload did not inflate as a zlib stream"@),
            Some(m) => Ok(m),
        },
    }
}

/// Decode and inflate a translated payload into the chapter's raw markup.
pub fn inflate(translated: &str) -> (res: Result<String, String>)
    ensures
        crate::text::str_result(res) == inflated(translated@),
{
    match decode_base64(translated) {
        None => Err(owned("translated payload is not valid base64")),
        Some(bytes) => {
            proof {
                assert(bytes.deep_view() =~= bytes@);
            }
            match inflate_zlib(bytes.as_slice()) {
                None => Err(owned("payload did not inflate as a zlib stream")),
                Some(m) => Ok(m),
            }
        },
    }
}

/// One piece of chapter markup reduced to a paragraph: tags become spaces,
/// then [`clean`].
pub open spec fn piece_text(piece: Seq<char>) -> Seq<char> {
    match regex_replaced(TAG_PATTERN@, piece, " "@) {
        Some(t) => clean(t),
        None => clean(piece),
    }
}

/// The paragraphs of decoded chapter markup: the promotional block removed,
/// the rest cut at every run of breaks, each piece reduced by
/// [`piece_text`], noise dropped. Should a pattern fail to compile, its step
/// is skipped.
pub open spec fn markup_paragraphs(markup: Seq<char>) -> Seq<Seq<char>> {
    let without_promo = match regex_replaced(PROMO_BLOCK_PATTERN@, markup, " "@) {
        Some(t) => t,
        None => markup,
    };
    let pieces = match regex_pieces(BREAK_PATTERN@, without_promo) {
        Some(p) => p,
        None => seq![without_promo],
    };
    prose(pieces.map_values(|p: Seq<char>| piece_text(p)))
}

/// [`piece_text`].
fn piece_to_text(piece: &str) -> (res: String)
    ensures
        res@ == piece_text(piece@),
{
    match regex_replace_all(TAG_PATTERN, piece, " ") {
        Some(t) => clean_text(t.as_str()),
        None => clean_text(piece),
    }
}

/// Split decoded chapter markup into ordered paragraphs. Stripping tags
/// before decoding entities keeps an escaped `&lt;b&gt;` from being eaten.
pub fn split_paragraphs(markup: &str) -> (res: Vec<String>)
    ensures
        views(res@) == markup_paragraphs(markup@),
{
    let without_promo = match regex_replace_all(PROMO_BLOCK_PATTERN, markup, " ") {
        Some(t) => t,
        None => owned(markup),
    };
    let pieces = match regex_split(BREAK_PATTERN, without_promo.as_str()) {
        Some(p) => p,
        None => {
            let mut one: Vec<String> = Vec::new();
            one.push(owned(without_promo.as_str()));
            one
        },
    };
    let ghost pv = views(pieces@);
    proof {
        assert(pieces.deep_view() =~= pv);
        if regex_pieces(BREAK_PATTERN@, without_promo@) is None {
            assert(pv =~= seq![without_promo@]);
        }
    }
    let mut texts: Vec<String> = Vec::new();
    let mut i: usize = 0;
    while i < pieces.len()
        invariant
            i <= pieces.len(),
            pv == views(pieces@),
            views(texts@) == pv.take(i as int).map_values(|p: Seq<char>| piece_text(p)),
        decreases pieces.len() - i,
    {
        let t = piece_to_text(pieces[i].as_str());
        proof {
            lemma_views_push(texts@, t);
            assert(pv.take(i as int + 1).map_values(|p: Seq<char>| piece_text(p)) =~= pv.take(i as int).map_values(|p: Seq<char>| piece_text(p)).push(piece_text(pv[i as int])));
        }
        texts.push(t);
        i = i + 1;
    }
    proof {
        assert(pv.take(pieces.len() as int) =~= pv);
    }
    drop_noise(texts)
}

/// The paragraphs of a chapter page, or why there are none.
pub open spec fn page_paragraphs(page: Seq<char>) -> Result<Seq<Seq<char>>, Seq<char>> {
    match payload_of(page) {
        Err(e) => Err(e),
        Ok(p) => {
            let (a, b) = alphabets_of(page);
            match inflated(translated(p, a, b)) {
                Err(e) => Err(e),
                Ok(m) => Ok(markup_paragraphs(m)),
            }
        },
    }
}

/// The characters of a paragraph list or of an error message.
pub open spec fn paragraphs_result(r: Result<Vec<String>, String>) -> Result<Seq<Seq<char>>, Seq<char>> {
    match r {
        Ok(v) => Ok(views(v@)),
        Err(e) => Err(e@),
    }
}

/// Recover a chapter's paragraphs from its page, in reading order.
pub fn chapter_paragraphs(page_html: &str) -> (res: Result<Vec<String>, String>)
    ensures
        paragraphs_result(res) == page_paragraphs(page_html@),
{
    let payload = match extract_payload(page_html) {
        Ok(p) => p,
        Err(e) => return Err(e),
    };
    let (payload_alphabet, base64_alphabet) = extract_alphabets(page_html);
    let t = translate(payload.as_str(), payload_alphabet.as_str(), base64_alphabet.as_str());
    match inflate(t.as_str()) {
        Err(e) => Err(e),
        Ok(markup) => Ok(split_paragraphs(markup.as_str())),
    }
}

} // verus!
