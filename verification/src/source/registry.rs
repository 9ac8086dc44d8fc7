//! Host-to-adapter resolution: the single point that decides whether a URL
//! is accepted, and by which site adapter.

use vstd::prelude::*;
use crate::source::khodocsach::Khodocsach;
use crate::source::metruyenhot::Metruyenhot;
use crate::source::xtruyen::Xtruyen;
use crate::source::{RatePolicy, SiteAdapter};
use crate::text::{chars_eq, chars_of, concat, join, lemma_join_push, owned, sort_strs, sorted, str_eq, str_result, string_of, strs, seq_lt};
use crate::urls::{opt_url_view, parse_url, parsed_url, UrlParts, UrlView};

verus! {

/// Every compiled-in adapter.
#[derive(Clone, Copy, Debug, PartialEq, Eq, Structural)]
pub enum Adapter {
    /// `khodocsach.com`.
    Khodocsach,
    /// `metruyenhotne.com` and `metruyenhotvn.com`.
    Metruyenhot,
    /// `xtruyen.vn`.
    Xtruyen,
}

/// The adapters in registry order.
pub open spec fn adapters() -> Seq<Adapter> {
    seq![Adapter::Khodocsach, Adapter::Metruyenhot, Adapter::Xtruyen]
}

impl Adapter {
    /// The hosts this adapter claims.
    pub open spec fn spec_hosts(self) -> Seq<Seq<char>> {
        match self {
            Adapter::Khodocsach => seq!["khodocsach.com"@],
            Adapter::Metruyenhot => seq!["metruyenhotne.com"@, "metruyenhotvn.com"@],
            Adapter::Xtruyen => seq!["xtruyen.vn"@],
        }
    }

    /// The adapter's machine id.
    pub open spec fn spec_id(self) -> Seq<char> {
        match self {
            Adapter::Khodocsach => "khodocsach"@,
            Adapter::Metruyenhot => "metruyenhot"@,
            Adapter::Xtruyen => "xtruyen"@,
        }
    }

    /// Stable machine id, used in logs and errors.
    pub fn id(&self) -> (r: &'static str)
        ensures
            r@ == self.spec_id(),
    {
        match self {
            Adapter::Khodocsach => Khodocsach.id(),
            Adapter::Metruyenhot => Metruyenhot.id(),
            Adapter::Xtruyen => Xtruyen.id(),
        }
    }

    /// Human-readable name shown on the wizard summary screen.
    pub fn display_name(&self) -> (r: &'static str)
        ensures
            r@ == self.spec_id(),
    {
        match self {
            Adapter::Khodocsach => Khodocsach.display_name(),
            Adapter::Metruyenhot => Metruyenhot.display_name(),
            Adapter::Xtruyen => Xtruyen.display_name(),
        }
    }

    /// Hosts this adapter claims, lower-case and without `www.`.
    pub fn hosts(&self) -> (r: Vec<&'static str>)
        ensures
            r@.map_values(|h: &str| h@) == self.spec_hosts(),
    {
        match self {
            Adapter::Khodocsach => Khodocsach.hosts(),
            Adapter::Metruyenhot => Metruyenhot.hosts(),
            Adapter::Xtruyen => Xtruyen.hosts(),
        }
    }

    /// Request pacing this source tolerates.
    pub fn rate_policy(&self) -> (p: RatePolicy)
        ensures
            p == self.spec_rate_policy(),
    {
        match self {
            Adapter::Khodocsach => Khodocsach.rate_policy(),
            Adapter::Metruyenhot => Metruyenhot.rate_policy(),
            Adapter::Xtruyen => Xtruyen.rate_policy(),
        }
    }

    /// The pacing of each adapter.
    pub open spec fn spec_rate_policy(self) -> RatePolicy {
        match self {
            Adapter::Khodocsach => RatePolicy { max_concurrency: usize::MAX, min_delay_ms: 0, max_retries: 2, backoff_base_ms: 2000 },
            Adapter::Metruyenhot => RatePolicy { max_concurrency: usize::MAX, min_delay_ms: 0, max_retries: 0, backoff_base_ms: 0 },
            Adapter::Xtruyen => RatePolicy { max_concurrency: 2, min_delay_ms: 500, max_retries: 3, backoff_base_ms: 2000 },
        }
    }
}

/// `c` lower-cased when it is an ASCII capital.
pub open spec fn ascii_lower_char(c: char) -> char {
    if 'A' <= c && c <= 'Z' { ((c as u32) + 32) as char } else { c }
}

/// `s` with its ASCII capitals lower-cased (`to_ascii_lowercase`).
pub open spec fn ascii_lower(s: Seq<char>) -> Seq<char> {
    s.map_values(|c: char| ascii_lower_char(c))
}

/// `s` without a leading `www.`.
pub open spec fn strip_www(s: Seq<char>) -> Seq<char> {
    if s.len() >= 4 && s.take(4) == "www."@ { s.skip(4) } else { s }
}

/// The normalized host of `url`, from what the URL crate parsed it into.
pub open spec fn host_of(url: Seq<char>, parsed: Option<UrlView>) -> Result<Seq<char>, Seq<char>> {
    match parsed {
        None => Err("invalid URL: "@ + url),
        Some(p) => match p.1 {
            None => Err("URL has no host: "@ + url),
            Some(h) => Ok(strip_www(ascii_lower(h))),
        },
    }
}

/// [`ascii_lower_char`].
pub(crate) fn lower_char(c: char) -> (r: char)
    ensures
        r == ascii_lower_char(c),
{
    if 'A' <= c && c <= 'Z' {
        let n: u32 = (c as u32) + 32;
        let b: u8 = n as u8;
        let r = b as char;
        assert(r == ((c as u32) + 32) as char);
        r
    } else {
        c
    }
}

/// [`strip_www`] of [`ascii_lower`] of `h`.
fn lower_without_www(h: &str) -> (r: String)
    ensures
        r@ == strip_www(ascii_lower(h@)),
{
    let v = chars_of(h);
    let mut lower: Vec<char> = Vec::new();
    let mut i: usize = 0;
    while i < v.len()
        invariant
            i <= v.len(),
            v@ == h@,
            lower@ == ascii_lower(v@.take(i as int)),
        decreases v.len() - i,
    {
        lower.push(lower_char(v[i]));
        i = i + 1;
        proof {
            assert(lower@ =~= ascii_lower(v@.take(i as int)));
        }
    }
    proof {
        assert(v@.take(v.len() as int) =~= v@);
    }
    let www = chars_of("www.");
    proof {
        reveal_strlit("www.");
    }
    let mut starts = lower.len() >= 4;
    if starts {
        let mut k: usize = 0;
        while k < 4
            invariant
                k <= 4,
                lower.len() >= 4,
                www.len() == 4,
                www@ == "www."@,
                starts == forall|m: int| 0 <= m < k ==> lower@[m] == www@[m],
            decreases 4 - k,
        {
            if lower[k] != www[k] {
                starts = false;
            }
            k = k + 1;
        }
        proof {
            if starts {
                assert(lower@.take(4) =~= "www."@);
            } else {
                assert(lower@.take(4) != "www."@) by {
                    let m = choose|m: int| 0 <= m < 4 && lower@[m] != www@[m];
                    assert(lower@.take(4)[m] != "www."@[m]);
                }
            }
        }
    }
    let mut out: Vec<char> = Vec::new();
    let mut j: usize = if starts { 4 } else { 0 };
    let ghost start = j as int;
    assert(start <= lower.len());
    while j < lower.len()
        invariant
            0 <= start <= j <= lower.len(),
            out@ == lower@.subrange(start, j as int),
        decreases lower.len() - j,
    {
        out.push(lower[j]);
        j = j + 1;
        proof {
            assert(out@ =~= lower@.subrange(start, j as int));
        }
    }
    proof {
        assert(lower@.subrange(start, lower.len() as int) =~= lower@.skip(start));
        assert(lower@.skip(0) =~= lower@);
    }
    string_of(out.as_slice())
}

/// [`normalize_host`] for an already-parsed URL.
pub fn host_from(url: &str, parsed: &Option<UrlParts>) -> (res: Result<String, String>)
    ensures
        str_result(res) == host_of(url@, opt_url_view(*parsed)),
{
    match parsed {
        None => Err(concat("invalid URL: ", url)),
        Some(p) => match &p.host {
            None => Err(concat("URL has no host: ", url)),
            Some(h) => Ok(lower_without_www(h.as_str())),
        },
    }
}

/// Parse `url` and return its host lower-cased and without a leading
/// `www.`. Errors when the URL cannot be parsed or has no host.
pub fn normalize_host(url: &str) -> (res: Result<String, String>)
    ensures
        str_result(res) == host_of(url@, parsed_url(url@)),
{
    let parsed = parse_url(url);
    host_from(url, &parsed)
}

} // verus!

verus! {

/// Every host any adapter claims, in registry order.
pub open spec fn all_hosts() -> Seq<Seq<char>> {
    Adapter::Khodocsach.spec_hosts() + Adapter::Metruyenhot.spec_hosts() + Adapter::Xtruyen.spec_hosts()
}

/// A listing of the supported hosts: each one once, in ascending order.
pub open spec fn is_host_listing(l: Seq<Seq<char>>) -> bool {
    &&& sorted(l)
    &&& l.len() == all_hosts().len()
    &&& forall|x: Seq<char>| l.contains(x) <==> all_hosts().contains(x)
}

/// Every host any adapter claims, sorted so error messages render in a
/// stable order across runs.
pub fn supported_hosts() -> (r: Vec<&'static str>)
    ensures
        is_host_listing(strs(r@)),
{
    let mut hosts: Vec<&'static str> = Vec::new();
    let mut k = Adapter::Khodocsach.hosts();
    let mut m = Adapter::Metruyenhot.hosts();
    let mut x = Adapter::Xtruyen.hosts();
    hosts.append(&mut k);
    hosts.append(&mut m);
    hosts.append(&mut x);
    proof {
        assert(strs(hosts@) =~= all_hosts());
    }
    sort_strs(hosts)
}

/// The one listing of the supported hosts: ascending, each once.
pub open spec fn host_listing() -> Seq<Seq<char>> {
    seq!["khodocsach.com"@, "metruyenhotne.com"@, "metruyenhotvn.com"@, "xtruyen.vn"@]
}

/// There is exactly one listing of the supported hosts, so the message
/// refusing an unsupported host is the same on every run.
pub proof fn lemma_host_listing_is_unique(l: Seq<Seq<char>>)
    requires
        is_host_listing(l),
    ensures
        l == host_listing(),
{
    let a = "khodocsach.com"@;
    let b = "metruyenhotne.com"@;
    let c = "metruyenhotvn.com"@;
    let d = "xtruyen.vn"@;
    reveal_strlit("khodocsach.com");
    reveal_strlit("metruyenhotne.com");
    reveal_strlit("metruyenhotvn.com");
    reveal_strlit("xtruyen.vn");
    assert(all_hosts() =~= seq![a, b, c, d]);
    reveal_with_fuel(seq_lt, 13);
    assert(seq_lt(a, b));
    assert(seq_lt(a, c));
    assert(seq_lt(a, d));
    assert(seq_lt(b, c));
    assert(seq_lt(b, d));
    assert(seq_lt(c, d));
    assert(!seq_lt(b, a) && !seq_lt(c, a) && !seq_lt(d, a) && !seq_lt(c, b) && !seq_lt(d, b) && !seq_lt(d, c));
    assert(a != b && a != c && a != d && b != c && b != d && c != d);
    assert(l.len() == 4);
    assert forall|i: int| 0 <= i < 4 implies l[i] == a || l[i] == b || l[i] == c || l[i] == d by {
        assert(l.contains(l[i]));
        assert(all_hosts().contains(l[i]));
    }
    assert(l.contains(a) && l.contains(b) && l.contains(c) && l.contains(d)) by {
        assert(all_hosts()[0] == a && all_hosts()[1] == b && all_hosts()[2] == c && all_hosts()[3] == d);
    }
    let ia = choose|i: int| 0 <= i < l.len() && l[i] == a;
    let ib = choose|i: int| 0 <= i < l.len() && l[i] == b;
    let ic = choose|i: int| 0 <= i < l.len() && l[i] == c;
    let id = choose|i: int| 0 <= i < l.len() && l[i] == d;
    assert(!seq_lt(l[1], l[0]) && !seq_lt(l[2], l[0]) && !seq_lt(l[3], l[0]));
    assert(!seq_lt(l[2], l[1]) && !seq_lt(l[3], l[1]) && !seq_lt(l[3], l[2]));
    assert(l =~= host_listing());
}

/// The adapter that claims `host`, if any.
pub open spec fn owner_of(host: Seq<char>) -> Option<Adapter> {
    if Adapter::Khodocsach.spec_hosts().contains(host) {
        Some(Adapter::Khodocsach)
    } else if Adapter::Metruyenhot.spec_hosts().contains(host) {
        Some(Adapter::Metruyenhot)
    } else if Adapter::Xtruyen.spec_hosts().contains(host) {
        Some(Adapter::Xtruyen)
    } else {
        None
    }
}

/// Hosts accepted when any host is allowed, for local fixtures.
pub open spec fn is_local_host(host: Seq<char>) -> bool {
    host == "localhost"@ || host == "127.0.0.1"@
}

/// The refusal naming `host` and listing the supported hosts.
pub open spec fn unsupported_message(host: Seq<char>, listing: Seq<Seq<char>>, allow_any_host: bool) -> Seq<char> {
    "Unsupported host '"@ + host + "'. Supported: "@ + join(listing, ", "@)
        + if allow_any_host { " (or localhost / 127.0.0.1 with --allow-any-host)."@ } else { "."@ }
}

/// What resolving `url` gives for a normalized host `host`: the adapter
/// claiming it, metruyenhot for a local host when any host is allowed
/// (local fixtures mirror its page layout), else nothing.
pub open spec fn resolved_adapter(host: Seq<char>, allow_any_host: bool) -> Option<Adapter> {
    match owner_of(host) {
        Some(a) => Some(a),
        None => if allow_any_host && is_local_host(host) { Some(Adapter::Metruyenhot) } else { None },
    }
}

/// Whether `res` is what resolving `url` gives.
pub open spec fn resolves(url: Seq<char>, allow_any_host: bool, res: Result<Adapter, String>) -> bool {
    match host_of(url, parsed_url(url)) {
        Err(e) => res matches Err(m) && m@ == e,
        Ok(h) => match resolved_adapter(h, allow_any_host) {
            Some(a) => res == Ok::<Adapter, String>(a),
            None => res matches Err(m) && m@ == unsupported_message(h, host_listing(), allow_any_host),
        },
    }
}

/// Whether `v` holds a string equal to `s`.
fn claims(v: &Vec<&'static str>, s: &str) -> (r: bool)
    ensures
        r == strs(v@).contains(s@),
{
    let mut i: usize = 0;
    while i < v.len()
        invariant
            i <= v.len(),
            forall|k: int| 0 <= k < i ==> strs(v@)[k] != s@,
        decreases v.len() - i,
    {
        if str_eq(v[i], s) {
            proof {
                assert(strs(v@)[i as int] == s@);
            }
            return true;
        }
        i = i + 1;
    }
    false
}

/// `parts` joined with `sep`.
pub fn join_strs(parts: &Vec<&'static str>, sep: &str) -> (s: String)
    ensures
        s@ == join(strs(parts@), sep@),
{
    let ghost ps = strs(parts@);
    let mut s = String::new();
    let mut i: usize = 0;
    while i < parts.len()
        invariant
            i <= parts.len(),
            ps == strs(parts@),
            s@ == join(ps.take(i as int), sep@),
        decreases parts.len() - i,
    {
        if i > 0 {
            s.append(sep);
            proof {
                lemma_join_push(ps, sep@, i as int);
            }
        } else {
            proof {
                assert(ps.take(1) =~= seq![ps[0]]);
            }
        }
        s.append(parts[i]);
        i = i + 1;
    }
    proof {
        assert(ps.take(parts.len() as int) =~= ps);
    }
    s
}

/// Resolve `url`'s host to the adapter that owns it. `allow_any_host` also
/// accepts `localhost` / `127.0.0.1`, mapped to the metruyenhot adapter
/// since local fixtures mirror its page layout.
pub fn resolve(url: &str, allow_any_host: bool) -> (res: Result<Adapter, String>)
    ensures
        resolves(url@, allow_any_host, res),
{
    let host = match normalize_host(url) {
        Ok(h) => h,
        Err(e) => return Err(e),
    };
    let kh = Adapter::Khodocsach.hosts();
    if claims(&kh, host.as_str()) {
        return Ok(Adapter::Khodocsach);
    }
    let mh = Adapter::Metruyenhot.hosts();
    if claims(&mh, host.as_str()) {
        return Ok(Adapter::Metruyenhot);
    }
    let xh = Adapter::Xtruyen.hosts();
    if claims(&xh, host.as_str()) {
        return Ok(Adapter::Xtruyen);
    }
    if allow_any_host && (str_eq(host.as_str(), "localhost") || str_eq(host.as_str(), "127.0.0.1")) {
        return Ok(Adapter::Metruyenhot);
    }
    let listing = supported_hosts();
    let supported = join_strs(&listing, ", ");
    let mut msg = concat("Unsupported host '", host.as_str());
    msg.append("'. Supported: ");
    msg.append(supported.as_str());
    if allow_any_host {
        msg.append(" (or localhost / 127.0.0.1 with --allow-any-host).");
    } else {
        msg.append(".");
    }
    proof {
        lemma_host_listing_is_unique(strs(listing@));
        assert(msg@ == unsupported_message(host@, strs(listing@), allow_any_host));
    }
    Err(msg)
}

/// Validator-shaped wrapper: `None` when the URL resolves, `Some(message)`
/// otherwise.
pub fn validate_url(url: &str, allow_any_host: bool) -> (res: Option<String>)
    ensures
        exists|r: Result<Adapter, String>| #[trigger] resolves(url@, allow_any_host, r) && match r {
            Ok(_) => res is None,
            Err(m) => res matches Some(e) && e@ == m@,
        },
{
    let r = resolve(url, allow_any_host);
    match r {
        Ok(_) => None,
        Err(m) => Some(m),
    }
}

} // verus!
