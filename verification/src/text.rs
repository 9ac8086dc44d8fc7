//! Character-level helpers shared by every module: conversions between
//! strings and character vectors, and small verified string builders.

use vstd::prelude::*;

verus! {

/// The characters of `s`, in order (std's `str::chars` collected).
#[verifier::external_body]
pub(crate) fn chars_of(s: &str) -> (v: Vec<char>)
    ensures
        v@ == s@,
{
    s.chars().collect()
}

/// A string holding exactly the characters of `v` (std's `FromIterator<char>`).
#[verifier::external_body]
pub(crate) fn string_of(v: &[char]) -> (s: String)
    ensures
        s@ == v@,
{
    v.iter().collect()
}

/// Append one character to `s` (std's `String::push`).
#[verifier::external_body]
pub(crate) fn push_char(s: &mut String, c: char)
    ensures
        final(s)@ == old(s)@.push(c),
{
    s.push(c)
}

} // verus!

verus! {

/// `parts` joined with `sep` between consecutive parts (std's `join`).
pub open spec fn join(parts: Seq<Seq<char>>, sep: Seq<char>) -> Seq<char>
    decreases parts.len(),
{
    if parts.len() == 0 {
        Seq::empty()
    } else if parts.len() == 1 {
        parts[0]
    } else {
        join(parts.drop_last(), sep) + sep + parts.last()
    }
}

/// One more part extends a join by the separator and that part.
pub proof fn lemma_join_push(parts: Seq<Seq<char>>, sep: Seq<char>, i: int)
    requires
        0 < i < parts.len(),
    ensures
        join(parts.take(i + 1), sep) == join(parts.take(i), sep) + sep + parts[i],
{
    assert(parts.take(i + 1).drop_last() == parts.take(i));
}

} // verus!

verus! {

/// The ASCII digit character for `d` (`d < 10`).
pub open spec fn digit_char(d: nat) -> char {
    (48 + d) as char
}

/// The decimal representation of `n`, without sign or leading zeros.
pub open spec fn decimal(n: nat) -> Seq<char>
    decreases n,
{
    if n < 10 {
        seq![digit_char(n)]
    } else {
        decimal(n / 10).push(digit_char(n % 10))
    }
}

/// `n` in decimal, zero-padded to at least two digits (`{:02}`).
pub open spec fn pad2(n: nat) -> Seq<char> {
    if n < 10 {
        seq!['0'] + decimal(n)
    } else {
        decimal(n)
    }
}

/// Append the decimal digits of `n` to `out`.
pub fn push_decimal(n: u64, out: &mut Vec<char>)
    ensures
        final(out)@ == old(out)@ + decimal(n as nat),
    decreases n,
{
    if n >= 10 {
        push_decimal(n / 10, out);
    }
    let d = (n % 10) as u8;
    let c = (48u8 + d) as char;
    out.push(c);
    proof {
        assert(c == digit_char((n % 10) as nat));
    }
}

/// `n` rendered in decimal (`n.to_string()`).
pub fn u64_to_string(n: u64) -> (s: String)
    ensures
        s@ == decimal(n as nat),
{
    let mut v: Vec<char> = Vec::new();
    push_decimal(n, &mut v);
    proof {
        assert(Seq::<char>::empty() + decimal(n as nat) == decimal(n as nat));
    }
    string_of(v.as_slice())
}

/// `n` rendered in decimal, zero-padded to two digits (`format!("{:02}", n)`).
pub fn pad2_string(n: u64) -> (s: String)
    ensures
        s@ == pad2(n as nat),
{
    let mut v: Vec<char> = Vec::new();
    if n < 10 {
        v.push('0');
    }
    push_decimal(n, &mut v);
    proof {
        if n >= 10 {
            assert(Seq::<char>::empty() + decimal(n as nat) == decimal(n as nat));
        }
    }
    string_of(v.as_slice())
}

} // verus!

verus! {

/// Whether two character vectors hold the same characters.
pub fn chars_eq(a: &Vec<char>, b: &Vec<char>) -> (r: bool)
    ensures
        r == (a@ == b@),
{
    if a.len() != b.len() {
        return false;
    }
    let mut i: usize = 0;
    while i < a.len()
        invariant
            i <= a.len(),
            a.len() == b.len(),
            forall|k: int| 0 <= k < i ==> a@[k] == b@[k],
        decreases a.len() - i,
    {
        if a[i] != b[i] {
            return false;
        }
        i = i + 1;
    }
    proof {
        assert(a@ =~= b@);
    }
    true
}

/// Whether two strings hold the same characters (`a == b`).
pub fn str_eq(a: &str, b: &str) -> (r: bool)
    ensures
        r == (a@ == b@),
{
    let x = chars_of(a);
    let y = chars_of(b);
    chars_eq(&x, &y)
}

/// `a` followed by `b`, as a new string.
pub fn concat(a: &str, b: &str) -> (s: String)
    ensures
        s@ == a@ + b@,
{
    let mut s = String::new();
    s.append(a);
    s.append(b);
    s
}

/// A copy of `s` (`str::to_string`).
pub fn owned(s: &str) -> (r: String)
    ensures
        r@ == s@,
{
    let mut r = String::new();
    r.append(s);
    r
}

} // verus!

verus! {

/// The characters of a string-valued result, on either side.
pub open spec fn str_result(r: Result<String, String>) -> Result<Seq<char>, Seq<char>> {
    match r {
        Ok(s) => Ok(s@),
        Err(e) => Err(e@),
    }
}

} // verus!

verus! {

/// Whether `s` holds no characters.
pub fn is_empty_str(s: &str) -> (r: bool)
    ensures
        r == (s@.len() == 0),
{
    chars_of(s).len() == 0
}

} // verus!

verus! {

/// `a` sorts strictly before `b`: lexicographically, characters compared by
/// code point (the order `str`'s `Ord` gives, as UTF-8 keeps it).
pub open spec fn seq_lt(a: Seq<char>, b: Seq<char>) -> bool
    decreases a.len(),
{
    if a.len() == 0 {
        b.len() > 0
    } else if b.len() == 0 {
        false
    } else if a[0] != b[0] {
        a[0] < b[0]
    } else {
        seq_lt(a.skip(1), b.skip(1))
    }
}

/// Nothing sorts before itself.
pub proof fn lemma_seq_lt_irreflexive(a: Seq<char>)
    ensures
        !seq_lt(a, a),
    decreases a.len(),
{
    if a.len() > 0 {
        lemma_seq_lt_irreflexive(a.skip(1));
    }
}

/// Sorting before is transitive.
pub proof fn lemma_seq_lt_transitive(a: Seq<char>, b: Seq<char>, c: Seq<char>)
    requires
        seq_lt(a, b),
        seq_lt(b, c),
    ensures
        seq_lt(a, c),
    decreases a.len(),
{
    if a.len() > 0 && b.len() > 0 && c.len() > 0 {
        if a[0] == b[0] && b[0] == c[0] {
            lemma_seq_lt_transitive(a.skip(1), b.skip(1), c.skip(1));
        }
    }
}

/// Of two different strings, one sorts before the other.
pub proof fn lemma_seq_lt_total(a: Seq<char>, b: Seq<char>)
    requires
        a != b,
    ensures
        seq_lt(a, b) || seq_lt(b, a),
    decreases a.len(),
{
    if a.len() > 0 && b.len() > 0 && a[0] == b[0] {
        if a.skip(1) == b.skip(1) {
            assert(a =~= seq![a[0]] + a.skip(1));
            assert(b =~= seq![b[0]] + b.skip(1));
        }
        lemma_seq_lt_total(a.skip(1), b.skip(1));
    } else if a.len() == 0 && b.len() == 0 {
        assert(a =~= b);
    } else if a.len() > 0 && b.len() > 0 {
    }
}

/// Whether `a` sorts strictly before `b`.
pub fn str_lt(a: &str, b: &str) -> (r: bool)
    ensures
        r == seq_lt(a@, b@),
{
    let x = chars_of(a);
    let y = chars_of(b);
    let mut i: usize = 0;
    proof {
        assert(x@.skip(0) =~= x@);
        assert(y@.skip(0) =~= y@);
    }
    while i < x.len() && i < y.len() && x[i] == y[i]
        invariant
            i <= x.len(),
            i <= y.len(),
            x@ == a@,
            y@ == b@,
            seq_lt(a@, b@) == seq_lt(x@.skip(i as int), y@.skip(i as int)),
        decreases x.len() - i,
    {
        proof {
            assert(x@.skip(i as int).skip(1) =~= x@.skip(i + 1));
            assert(y@.skip(i as int).skip(1) =~= y@.skip(i + 1));
        }
        i = i + 1;
    }
    if i == x.len() {
        i < y.len()
    } else if i == y.len() {
        false
    } else {
        x[i] < y[i]
    }
}

/// The characters of each string in `v`.
pub open spec fn strs(v: Seq<&str>) -> Seq<Seq<char>> {
    v.map_values(|s: &str| s@)
}

/// No string of `s` sorts before an earlier one.
pub open spec fn sorted(s: Seq<Seq<char>>) -> bool {
    forall|i: int, j: int| 0 <= i < j < s.len() ==> !seq_lt(#[trigger] s[j], #[trigger] s[i])
}

/// `v` in ascending order (std's `sort_unstable` on `&str`).
pub fn sort_strs(v: Vec<&'static str>) -> (r: Vec<&'static str>)
    ensures
        sorted(strs(r@)),
        r.len() == v.len(),
        forall|x: Seq<char>| strs(r@).contains(x) <==> strs(v@).contains(x),
{
    let mut r: Vec<&'static str> = Vec::new();
    let mut i: usize = 0;
    while i < v.len()
        invariant
            i <= v.len(),
            r.len() == i,
            sorted(strs(r@)),
            forall|x: Seq<char>| strs(r@).contains(x) <==> strs(v@.take(i as int)).contains(x),
        decreases v.len() - i,
    {
        let x = v[i];
        let mut p: usize = 0;
        while p < r.len() && !str_lt(x, r[p])
            invariant
                p <= r.len(),
                forall|k: int| 0 <= k < p ==> !seq_lt(x@, #[trigger] strs(r@)[k]),
            decreases r.len() - p,
        {
            p = p + 1;
        }
        let ghost old_r = strs(r@);
        proof {
            if p < r.len() {
                assert(seq_lt(x@, old_r[p as int]));
            }
        }
        r.insert(p, x);
        proof {
            let nr = strs(r@);
            assert(nr =~= old_r.insert(p as int, x@));
            old_r.insert_ensures(p as int, x@);
            assert forall|a: int, b: int| 0 <= a < b < nr.len() implies !seq_lt(#[trigger] nr[b], #[trigger] nr[a]) by {
                if a < p && b < p {
                    assert(nr[a] == old_r[a] && nr[b] == old_r[b]);
                } else if a < p && b == p {
                    assert(nr[a] == old_r[a]);
                } else if a < p && b > p {
                    assert(nr[a] == old_r[a] && nr[b] == old_r[b - 1]);
                } else if a == p {
                    assert(nr[b] == old_r[b - 1]);
                    if seq_lt(nr[b], x@) {
                        if b - 1 == p {
                            lemma_seq_lt_transitive(nr[b], x@, old_r[p as int]);
                            lemma_seq_lt_irreflexive(old_r[p as int]);
                        } else {
                            lemma_seq_lt_transitive(nr[b], x@, old_r[p as int]);
                        }
                    }
                } else {
                    assert(nr[a] == old_r[a - 1] && nr[b] == old_r[b - 1]);
                }
            }
            let tv = strs(v@.take(i + 1));
            let pv = strs(v@.take(i as int));
            assert(tv =~= pv.push(x@));
            assert forall|y: Seq<char>| nr.contains(y) <==> tv.contains(y) by {
                if nr.contains(y) {
                    let k = choose|k: int| 0 <= k < nr.len() && nr[k] == y;
                    if k < p {
                        assert(old_r[k] == y);
                        assert(old_r.contains(y));
                    } else if k > p {
                        assert(old_r[k - 1] == y);
                        assert(old_r.contains(y));
                    }
                    assert(tv[i as int] == x@);
                    if old_r.contains(y) {
                        let m = choose|m: int| 0 <= m < pv.len() && pv[m] == y;
                        assert(tv[m] == y);
                    }
                }
                if tv.contains(y) {
                    let m = choose|m: int| 0 <= m < tv.len() && tv[m] == y;
                    if m < i {
                        assert(pv[m] == y);
                        assert(old_r.contains(y));
                        let k = choose|k: int| 0 <= k < old_r.len() && old_r[k] == y;
                        if k < p {
                            assert(nr[k] == y);
                        } else {
                            assert(nr[k + 1] == y);
                        }
                    } else {
                        assert(nr[p as int] == y);
                    }
                }
            }
        }
        i = i + 1;
    }
    proof {
        assert(v@.take(v.len() as int) =~= v@);
    }
    r
}

} // verus!

verus! {

/// `segment` appended to the path `base` as std's `Path::join` does on Unix:
/// an absolute segment replaces the base, an empty base yields the segment,
/// and a separator is added only when the base lacks a trailing one.
pub open spec fn path_join(base: Seq<char>, segment: Seq<char>) -> Seq<char> {
    if segment.len() > 0 && segment[0] == '/' {
        segment
    } else if base.len() == 0 {
        segment
    } else if base.last() == '/' {
        base + segment
    } else {
        base + "/"@ + segment
    }
}

/// [`path_join`].
pub fn join_path(base: &str, segment: &str) -> (p: String)
    ensures
        p@ == path_join(base@, segment@),
{
    let s = chars_of(segment);
    let b = chars_of(base);
    if s.len() > 0 && s[0] == '/' {
        owned(segment)
    } else if b.len() == 0 {
        owned(segment)
    } else if b[b.len() - 1] == '/' {
        concat(base, segment)
    } else {
        let mut p = concat(base, "/");
        p.append(segment);
        p
    }
}

} // verus!

verus! {

/// The value of a string of decimal digits.
pub open spec fn digits_value(s: Seq<char>) -> nat
    decreases s.len(),
{
    if s.len() == 0 {
        0
    } else {
        digits_value(s.drop_last()) * 10 + ((s.last() as u32) - 48) as nat
    }
}

/// Whether `s` is all ASCII digits.
pub open spec fn all_digits(s: Seq<char>) -> bool {
    forall|i: int| 0 <= i < s.len() ==> '0' <= #[trigger] s[i] && s[i] <= '9'
}

/// What std's `str::parse::<u32>` gives: an optional `+`, then at least one
/// digit and nothing else, for a value that fits.
pub open spec fn parsed_u32(s: Seq<char>) -> Option<u32> {
    let d = if s.len() > 0 && s[0] == '+' { s.skip(1) } else { s };
    if d.len() == 0 || !all_digits(d) || digits_value(d) > u32::MAX {
        None
    } else {
        Some(digits_value(d) as u32)
    }
}

proof fn lemma_digits_value_grows(s: Seq<char>, i: int)
    requires
        0 <= i <= s.len(),
        all_digits(s),
    ensures
        digits_value(s.take(i)) <= digits_value(s),
    decreases s.len() - i,
{
    if i < s.len() {
        lemma_digits_value_grows(s, i + 1);
        assert(s.take(i + 1).drop_last() =~= s.take(i));
    } else {
        assert(s.take(i) =~= s);
    }
}

/// Parse `s` as std's `str::parse::<u32>` does.
pub fn parse_u32(s: &str) -> (r: Option<u32>)
    ensures
        r == parsed_u32(s@),
{
    let v = chars_of(s);
    let start: usize = if v.len() > 0 && v[0] == '+' { 1 } else { 0 };
    let ghost d = if s@.len() > 0 && s@[0] == '+' { s@.skip(1) } else { s@ };
    if start >= v.len() {
        proof {
            assert(d.len() == 0);
        }
        return None;
    }
    let mut value: u64 = 0;
    let mut i: usize = start;
    while i < v.len()
        invariant
            start <= i <= v.len(),
            v@ == s@,
            d == v@.skip(start as int),
            d == (if s@.len() > 0 && s@[0] == '+' { s@.skip(1) } else { s@ }),
            d.len() > 0,
            all_digits(d.take(i - start)),
            value == digits_value(d.take(i - start)),
            value <= u32::MAX,
        decreases v.len() - i,
    {
        let c = v[i];
        proof {
            assert(d.take(i - start + 1).drop_last() =~= d.take(i - start));
            assert(d[i - start] == c);
        }
        if c < '0' || c > '9' {
            proof {
                assert(!all_digits(d)) by {
                    assert(d[i - start] == c);
                }
            }
            return None;
        }
        let digit = (c as u32 - 48) as u64;
        let next = value * 10 + digit;
        proof {
            assert(d.take(i - start + 1).last() == c);
            assert(next == digits_value(d.take(i - start + 1)));
        }
        if next > 4294967295 {
            proof {
                assert(all_digits(d.take(i - start + 1)));
                if all_digits(d) {
                    lemma_digits_value_grows(d, i - start + 1);
                }
            }
            return None;
        }
        value = next;
        i = i + 1;
        proof {
            assert(all_digits(d.take(i - start)));
        }
    }
    proof {
        assert(d.take(i - start) =~= d);
    }
    Some(value as u32)
}

/// What std's `str::parse::<usize>` gives: an optional `+`, then at least
/// one digit and nothing else, for a value that fits.
pub open spec fn parsed_usize(s: Seq<char>) -> Option<usize> {
    let d = if s.len() > 0 && s[0] == '+' { s.skip(1) } else { s };
    if d.len() == 0 || !all_digits(d) || digits_value(d) > usize::MAX {
        None
    } else {
        Some(digits_value(d) as usize)
    }
}

/// Parse `s` as std's `str::parse::<usize>` does.
pub fn parse_usize(s: &str) -> (r: Option<usize>)
    ensures
        r == parsed_usize(s@),
{
    let v = chars_of(s);
    let start: usize = if v.len() > 0 && v[0] == '+' { 1 } else { 0 };
    let ghost d = if s@.len() > 0 && s@[0] == '+' { s@.skip(1) } else { s@ };
    if start >= v.len() {
        proof {
            assert(d.len() == 0);
        }
        return None;
    }
    let mut value: u128 = 0;
    let mut i: usize = start;
    while i < v.len()
        invariant
            start <= i <= v.len(),
            v@ == s@,
            d == v@.skip(start as int),
            d == (if s@.len() > 0 && s@[0] == '+' { s@.skip(1) } else { s@ }),
            d.len() > 0,
            all_digits(d.take(i - start)),
            value == digits_value(d.take(i - start)),
            value <= usize::MAX,
        decreases v.len() - i,
    {
        let c = v[i];
        proof {
            assert(d.take(i - start + 1).drop_last() =~= d.take(i - start));
            assert(d[i - start] == c);
        }
        if c < '0' || c > '9' {
            proof {
                assert(!all_digits(d)) by {
                    assert(d[i - start] == c);
                }
            }
            return None;
        }
        let digit = (c as u32 - 48) as u128;
        let next = value * 10 + digit;
        proof {
            assert(d.take(i - start + 1).last() == c);
            assert(next == digits_value(d.take(i - start + 1)));
        }
        if next > usize::MAX as u128 {
            proof {
                assert(all_digits(d.take(i - start + 1)));
                if all_digits(d) {
                    lemma_digits_value_grows(d, i - start + 1);
                }
            }
            return None;
        }
        value = next;
        i = i + 1;
        proof {
            assert(all_digits(d.take(i - start)));
        }
    }
    proof {
        assert(d.take(i - start) =~= d);
    }
    Some(value as usize)
}

/// Mapping one more item and flattening appends that item's image.
pub proof fn lemma_flatten_map_step<A, B>(s: Seq<A>, f: spec_fn(A) -> Seq<B>, i: int)
    requires
        0 <= i < s.len(),
    ensures
        s.take(i + 1).map_values(f).flatten() == s.take(i).map_values(f).flatten() + f(s[i]),
{
    assert(s.take(i + 1).map_values(f) =~= s.take(i).map_values(f).push(f(s[i])));
    s.take(i).map_values(f).lemma_flatten_push(f(s[i]));
}

/// The characters of each of two lists of strings, appended.
pub proof fn lemma_views_append(a: Seq<String>, b: Seq<String>)
    ensures
        (a + b).map_values(|x: String| x@) == a.map_values(|x: String| x@) + b.map_values(|x: String| x@),
{
    assert((a + b).map_values(|x: String| x@) =~= a.map_values(|x: String| x@) + b.map_values(|x: String| x@));
}

/// `n` rendered in decimal, with a leading `-` when negative.
pub open spec fn signed_decimal(n: int) -> Seq<char> {
    if n < 0 { seq!['-'] + decimal((-n) as nat) } else { decimal(n as nat) }
}

/// `n` rendered in decimal (`i64::to_string`).
pub fn i64_to_string(n: i64) -> (s: String)
    ensures
        s@ == signed_decimal(n as int),
{
    let wide: i128 = n as i128;
    let mut v: Vec<char> = Vec::new();
    if wide < 0 {
        v.push('-');
        let m: u64 = (-wide) as u64;
        push_decimal(m, &mut v);
        proof {
            assert(v@ =~= seq!['-'] + decimal((-(n as int)) as nat));
        }
    } else {
        let m: u64 = wide as u64;
        push_decimal(m, &mut v);
        proof {
            assert(v@ =~= decimal(n as nat));
        }
    }
    string_of(v.as_slice())
}

} // verus!
