use novel_downloader::sites::{ensure_supported as allowlist_check, ensure_supported_or_local as allowlist_or_local};
use novel_downloader::source::metruyenhot::Metruyenhot;
use novel_downloader::source::registry::{normalize_host, resolve, supported_hosts, validate_url, Adapter};
use novel_downloader::source::xtruyen::Xtruyen;
use novel_downloader::source::{RatePolicy, SiteAdapter, SourceError};

/// Resolve without the local-host escape hatch.
fn ensure_supported(url: &str) -> Result<String, String> {
    resolve(url, false)?;
    normalize_host(url)
}

/// Resolve with any host allowed.
fn ensure_supported_or_local(url: &str) -> Result<String, String> {
    resolve(url, true)?;
    normalize_host(url)
}

#[test]
fn resolve_maps_every_metruyenhot_host_to_the_metruyenhot_adapter() {
    for host in ["metruyenhotne.com", "metruyenhotvn.com"] {
        let adapter = resolve(&format!("https://{host}/foo"), false).unwrap();
        assert_eq!(adapter.id(), "metruyenhot");
        assert_eq!(adapter.display_name(), "metruyenhot");
    }
}

#[test]
fn resolve_claims_every_supported_host_for_exactly_one_adapter() {
    for host in supported_hosts() {
        resolve(&format!("https://{host}/foo"), false)
            .unwrap_or_else(|e| panic!("{host} is listed as supported but does not resolve: {e}"));
    }
}

#[test]
fn resolve_accepts_localhost_only_with_allow_any_host() {
    assert!(resolve("http://localhost:8765/foo", false).is_err());
    assert_eq!(resolve("http://localhost:8765/foo", true).unwrap().id(), "metruyenhot");
}

#[test]
fn supported_hosts_listed_alphabetically_for_stable_error_messages() {
    assert_eq!(
        supported_hosts(),
        vec!["khodocsach.com", "metruyenhotne.com", "metruyenhotvn.com", "xtruyen.vn"]
    );
}

#[test]
fn normalize_host_lowercases_and_strips_www() {
    assert_eq!(normalize_host("https://WWW.MetruyenhotVN.com/foo").unwrap(), "metruyenhotvn.com");
}

#[test]
fn normalize_host_keeps_apex_host_unchanged() {
    assert_eq!(normalize_host("https://metruyenhotvn.com/bar/").unwrap(), "metruyenhotvn.com");
}

#[test]
fn normalize_host_errors_on_url_without_host() {
    let err = normalize_host("not-a-url").unwrap_err();
    assert!(err.to_lowercase().contains("url"), "got: {err}");
}

#[test]
fn ensure_supported_accepts_each_listed_host() {
    for host in supported_hosts() {
        let url = format!("https://{host}/some-novel");
        let resolved = ensure_supported(&url).unwrap_or_else(|e| panic!("expected {host} to be accepted, got {e}"));
        assert_eq!(resolved, host);
    }
}

#[test]
fn ensure_supported_accepts_www_prefixed_host() {
    let host = ensure_supported("https://www.metruyenhotne.com/foo").unwrap();
    assert_eq!(host, "metruyenhotne.com");
}

#[test]
fn ensure_supported_rejects_unknown_host_and_lists_supported() {
    let err = ensure_supported("https://example.com/foo").unwrap_err();
    assert!(err.contains("example.com"), "got: {err}");
    for host in supported_hosts() {
        assert!(err.contains(host), "missing {host} in error: {err}");
    }
}

#[test]
fn ensure_supported_or_local_accepts_localhost() {
    assert_eq!(ensure_supported_or_local("http://localhost:8765/foo").unwrap(), "localhost");
    assert_eq!(ensure_supported_or_local("http://127.0.0.1:8765/foo").unwrap(), "127.0.0.1");
}

#[test]
fn ensure_supported_or_local_still_rejects_unrelated_host() {
    assert!(ensure_supported_or_local("https://example.com/foo").is_err());
}

#[test]
fn validate_url_returns_none_on_supported_host() {
    assert!(validate_url("https://metruyenhotvn.com/foo", false).is_none());
}

#[test]
fn validate_url_returns_error_message_on_unknown_host() {
    let msg = validate_url("https://example.com/foo", false).unwrap();
    assert!(msg.contains("example.com"));
    assert!(msg.contains("metruyenhotvn.com"));
}

#[test]
fn validate_url_with_allow_any_host_accepts_localhost() {
    assert!(validate_url("http://localhost:8765/foo", true).is_none());
}

#[test]
fn validate_url_with_allow_any_host_still_rejects_unsupported() {
    assert!(validate_url("https://example.com/foo", true).is_some());
}

#[test]
fn the_refusal_lists_the_hosts_in_order_and_names_the_escape_hatch() {
    assert_eq!(
        validate_url("https://example.com/foo", false).unwrap(),
        "Unsupported host 'example.com'. Supported: khodocsach.com, metruyenhotne.com, metruyenhotvn.com, xtruyen.vn."
    );
    assert_eq!(
        validate_url("https://example.com/foo", true).unwrap(),
        "Unsupported host 'example.com'. Supported: khodocsach.com, metruyenhotne.com, metruyenhotvn.com, xtruyen.vn (or localhost / 127.0.0.1 with --allow-any-host)."
    );
}

#[test]
fn resolve_maps_khodocsach_host_to_the_khodocsach_adapter() {
    let adapter = resolve("https://khodocsach.com/mot-truyen", false).unwrap();
    assert_eq!(adapter.id(), "khodocsach");
    assert_eq!(adapter, Adapter::Khodocsach);
}

#[test]
fn resolve_maps_the_xtruyen_host_to_the_xtruyen_adapter() {
    let adapter = resolve("https://xtruyen.vn/truyen/mot-truyen", false).unwrap();
    assert_eq!(adapter.id(), "xtruyen");
    assert_eq!(adapter.display_name(), "xtruyen");
}

#[test]
fn supported_hosts_lists_the_xtruyen_host() {
    assert!(supported_hosts().contains(&"xtruyen.vn"));
}

#[test]
fn an_unsupported_host_error_names_the_xtruyen_host() {
    let message = validate_url("https://not-a-novel-site.example/truyen/a", false)
        .expect("an unknown host must be rejected");
    assert!(message.contains("xtruyen.vn"), "{message}");
}

#[test]
fn xtruyen_rate_policy_reflects_the_measured_per_address_limit() {
    let policy = resolve("https://xtruyen.vn/truyen/a", false).unwrap().rate_policy();
    assert_eq!(policy.max_concurrency, 2);
    assert_eq!(policy.min_delay_ms, 500);
    assert!(policy.max_retries >= 1);
    assert!(policy.backoff_base_ms >= 1000);
    assert!(policy.fixes_pacing());
    assert_eq!(policy, Xtruyen.rate_policy());
}

#[test]
fn metruyenhot_pacing_is_left_to_the_user() {
    let policy = Metruyenhot.rate_policy();
    assert!(!policy.fixes_pacing());
    assert_eq!(policy.effective_workers(8), 8);
    assert_eq!(policy.effective_delay_ms(250), 250);
}

#[test]
fn a_capped_policy_clamps_workers_and_raises_the_delay() {
    let policy = RatePolicy { max_concurrency: 2, min_delay_ms: 500, max_retries: 3, backoff_base_ms: 2000 };
    assert_eq!(policy.effective_workers(8), 2);
    assert_eq!(policy.effective_workers(0), 1);
    assert_eq!(policy.effective_workers(1), 1);
    assert_eq!(policy.effective_delay_ms(100), 500);
    assert_eq!(policy.effective_delay_ms(900), 900);
}

#[test]
fn source_errors_render_their_messages() {
    assert_eq!(
        SourceError::RateLimited { source_name: "xtruyen", message: "HTTP 429".to_string() }.message(),
        "rate limited by xtruyen: HTTP 429"
    );
    assert_eq!(SourceError::NotFound("x".to_string()).message(), "not found: x");
    assert_eq!(SourceError::ClientRejected("x".to_string()).message(), "request rejected by the site: x");
    assert_eq!(SourceError::Unentitled("x".to_string()).message(), "chapter not available to this client: x");
    assert_eq!(SourceError::Other("boom".to_string()).message(), "boom");
}

#[test]
fn the_allowlist_accepts_only_the_metruyenhot_hosts() {
    assert_eq!(allowlist_check("https://www.metruyenhotne.com/foo").unwrap(), "metruyenhotne.com");
    assert_eq!(
        allowlist_check("https://khodocsach.com/foo").unwrap_err(),
        "Unsupported host 'khodocsach.com'. Supported: metruyenhotne.com, metruyenhotvn.com."
    );
    assert_eq!(allowlist_or_local("http://127.0.0.1:9/foo").unwrap(), "127.0.0.1");
    assert!(allowlist_or_local("https://example.com/").unwrap_err().contains("--allow-any-host"));
    assert!(novel_downloader::sites::validate_url("https://metruyenhotvn.com/x", false).is_none());
    assert!(novel_downloader::sites::normalize_host("nope").is_err());
}
