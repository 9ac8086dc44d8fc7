//! The fixed allowlist of the two metruyenhot hosts, with URL validation
//! against it. [`crate::source::registry`] supersedes it for multi-site
//! resolution; this module keeps the single-site checks.

use vstd::prelude::*;
use crate::source::registry::{host_of, normalize_host as registry_host};
use crate::text::{concat, str_eq, str_result};
use crate::urls::parsed_url;

verus! {

/// The hosts this allowlist accepts, alphabetically.
pub open spec fn supported_host_list() -> Seq<Seq<char>> {
    seq!["metruyenhotne.com"@, "metruyenhotvn.com"@]
}

/// Parse `url` and return its host lower-cased and without a leading
/// `www.`. Errors when the URL cannot be parsed or has no host.
pub fn normalize_host(url: &str) -> (res: Result<String, String>)
    ensures
        str_result(res) == host_of(url@, parsed_url(url@)),
{
    registry_host(url)
}

/// What the allowlist check gives for `url`: the normalized host when it is
/// listed (or, with `local`, a local host), else a refusal listing the
/// supported hosts.
pub open spec fn checked_host(url: Seq<char>, local: bool) -> Result<Seq<char>, Seq<char>> {
    match host_of(url, parsed_url(url)) {
        Err(e) => Err(e),
        Ok(h) => if supported_host_list().contains(h) || (local && (h == "localhost"@ || h == "127.0.0.1"@)) {
            Ok(h)
        } else if local {
            Err("Unsupported host '"@ + h + "'. Supported: metruyenhotne.com, metruyenhotvn.com (or localhost / 127.0.0.1 with --allow-any-host)."@)
        } else {
            Err("Unsupported host '"@ + h + "'. Supported: metruyenhotne.com, metruyenhotvn.com."@)
        },
    }
}

/// Shared body of the two allowlist checks.
fn check_host(url: &str, local: bool) -> (res: Result<String, String>)
    ensures
        str_result(res) == checked_host(url@, local),
{
    let host = match normalize_host(url) {
        Ok(h) => h,
        Err(e) => return Err(e),
    };
    let listed = str_eq(host.as_str(), "metruyenhotne.com") || str_eq(host.as_str(), "metruyenhotvn.com");
    proof {
        let l = supported_host_list();
        if l.contains(host@) {
            let k = choose|k: int| 0 <= k < l.len() && l[k] == host@;
            assert(k == 0 || k == 1);
        }
        if host@ == "metruyenhotne.com"@ {
            assert(l[0] == host@);
        }
        if host@ == "metruyenhotvn.com"@ {
            assert(l[1] == host@);
        }
    }
    let is_local = str_eq(host.as_str(), "localhost") || str_eq(host.as_str(), "127.0.0.1");
    if listed || (local && is_local) {
        Ok(host)
    } else if local {
        let mut m = concat("Unsupported host '", host.as_str());
        m.append("'. Supported: metruyenhotne.com, metruyenhotvn.com (or localhost / 127.0.0.1 with --allow-any-host).");
        Err(m)
    } else {
        let mut m = concat("Unsupported host '", host.as_str());
        m.append("'. Supported: metruyenhotne.com, metruyenhotvn.com.");
        Err(m)
    }
}

/// Normalize `url`'s host and require it to be listed. Returns the
/// normalized host; the refusal names the host and lists every supported
/// one.
pub fn ensure_supported(url: &str) -> (res: Result<String, String>)
    ensures
        str_result(res) == checked_host(url@, false),
{
    check_host(url, false)
}

/// Like [`ensure_supported`] but also accepts `localhost` and `127.0.0.1`,
/// for local fixtures.
pub fn ensure_supported_or_local(url: &str) -> (res: Result<String, String>)
    ensures
        str_result(res) == checked_host(url@, true),
{
    check_host(url, true)
}

/// Validator-shaped wrapper: `None` when the URL is acceptable, or the
/// refusal's message.
pub fn validate_url(url: &str, allow_any_host: bool) -> (res: Option<String>)
    ensures
        match checked_host(url@, allow_any_host) {
            Ok(_) => res is None,
            Err(m) => res matches Some(e) && e@ == m,
        },
{
    match check_host(url, allow_any_host) {
        Ok(_) => None,
        Err(m) => Some(m),
    }
}

} // verus!
