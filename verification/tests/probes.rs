use ops_desk::checks::{
    check_targets, classify_probe, content_type_matches, elapsed_ms, millis_to_i32,
    plan_check_run, site_asset_url, summarize_run, CheckTarget, HttpOutcome, Site,
};
use ops_desk::urls::{domain_to_base_url, join_url};

fn site(id: i64, base_url: &str, homepage_path: &str, critical_css_url: &str) -> Site {
    Site {
        id,
        base_url: base_url.to_string(),
        homepage_path: homepage_path.to_string(),
        critical_css_url: critical_css_url.to_string(),
    }
}

fn target(target_type: &'static str, url: &str, expected: &'static [&'static str]) -> CheckTarget {
    CheckTarget { target_type, url: url.to_string(), expected_content_types: expected }
}

#[test]
fn join_url_drops_trailing_slashes_of_base() {
    assert_eq!(join_url("https://a.com///", "/robots.txt"), "https://a.com/robots.txt");
}

#[test]
fn join_url_adds_missing_slash() {
    assert_eq!(join_url("https://a.com", "robots.txt"), "https://a.com/robots.txt");
}

#[test]
fn join_url_keeps_root_path() {
    assert_eq!(join_url("https://a.com/", "/"), "https://a.com/");
}

#[test]
fn join_url_keeps_double_slash_of_path() {
    assert_eq!(join_url("https://a.com", "//x"), "https://a.com//x");
}

#[test]
fn join_url_empty_inputs() {
    assert_eq!(join_url("", ""), "/");
}

#[test]
fn base_url_of_bare_domain() {
    assert_eq!(domain_to_base_url("example.com"), "https://example.com");
}

#[test]
fn base_url_trims_white_space_and_slashes() {
    assert_eq!(domain_to_base_url("  example.com// \n"), "https://example.com");
}

#[test]
fn base_url_drops_https_scheme() {
    assert_eq!(domain_to_base_url("https://example.com/"), "https://example.com");
}

#[test]
fn base_url_upgrades_http_scheme() {
    assert_eq!(domain_to_base_url("http://example.com"), "https://example.com");
}

#[test]
fn base_url_drops_repeated_https_scheme() {
    assert_eq!(domain_to_base_url("https://https://x.io"), "https://x.io");
}

#[test]
fn base_url_strips_https_before_http() {
    assert_eq!(domain_to_base_url("http://https://x.io"), "https://https://x.io");
}

#[test]
fn base_url_of_trailing_space_inside_slash() {
    assert_eq!(domain_to_base_url("x.io /"), "https://x.io ");
}

#[test]
fn base_url_law_https_scheme_makes_no_difference() {
    assert_eq!(domain_to_base_url("https://shop.example.com"), domain_to_base_url("shop.example.com"));
}

#[test]
fn content_type_with_parameters_matches() {
    assert!(content_type_matches(Some("text/html; charset=utf-8"), &["text/html"]));
}

#[test]
fn content_type_is_case_insensitive() {
    assert!(content_type_matches(Some("Text/HTML"), &["text/html"]));
    assert_eq!(
        content_type_matches(Some("APPLICATION/XML"), &["application/xml", "text/xml"]),
        content_type_matches(Some("application/xml"), &["application/xml", "text/xml"])
    );
}

#[test]
fn missing_content_type_never_matches() {
    assert!(!content_type_matches(None, &["text/html"]));
}

#[test]
fn content_type_second_choice_matches() {
    assert!(content_type_matches(Some("text/xml"), &["application/xml", "text/xml"]));
}

#[test]
fn content_type_other_type_does_not_match() {
    assert!(!content_type_matches(Some("application/json"), &["application/xml", "text/xml"]));
}

#[test]
fn content_type_empty_expectations_never_match() {
    assert!(!content_type_matches(Some("text/html"), &[]));
}

#[test]
fn targets_of_a_site() {
    let s = site(7, "https://shop.example.com/", "/", "/static/assets/css/main.css");
    let targets = check_targets(&s);
    assert_eq!(targets.len(), 4);
    assert_eq!(targets[0].target_type, "homepage");
    assert_eq!(targets[0].url, "https://shop.example.com/");
    assert_eq!(targets[0].expected_content_types, &["text/html"]);
    assert_eq!(targets[1].target_type, "css");
    assert_eq!(targets[1].url, "https://shop.example.com/static/assets/css/main.css");
    assert_eq!(targets[1].expected_content_types, &["text/css"]);
    assert_eq!(targets[2].target_type, "robots");
    assert_eq!(targets[2].url, "https://shop.example.com/robots.txt");
    assert_eq!(targets[2].expected_content_types, &["text/plain"]);
    assert_eq!(targets[3].target_type, "sitemap");
    assert_eq!(targets[3].url, "https://shop.example.com/sitemap.xml");
    assert_eq!(targets[3].expected_content_types, &["application/xml", "text/xml"]);
}

#[test]
fn targets_keep_absolute_css_url() {
    let s = site(1, "https://a.com", "home", "https://cdn.example.com/main.css");
    let targets = check_targets(&s);
    assert_eq!(targets[0].url, "https://a.com/home");
    assert_eq!(targets[1].url, "https://cdn.example.com/main.css");
}

#[test]
fn asset_url_absolute_and_relative() {
    let s = site(1, "https://a.com/", "/", "/x.css");
    assert_eq!(site_asset_url(&s, "http://cdn.io/x.css"), "http://cdn.io/x.css");
    assert_eq!(site_asset_url(&s, "static/x.css"), "https://a.com/static/x.css");
    assert_eq!(site_asset_url(&s, "HTTPS://cdn.io/x.css"), "https://a.com/HTTPS://cdn.io/x.css");
}

#[test]
fn probe_ok_on_200_with_expected_type() {
    let probe = classify_probe(
        target("homepage", "https://a.com/", &["text/html"]),
        42,
        HttpOutcome::Responded { status: 200, content_type: Some("text/html; charset=utf-8".to_string()) },
    );
    assert!(probe.ok);
    assert_eq!(probe.failure_reason, None);
    assert_eq!(probe.status_code, Some(200));
    assert_eq!(probe.content_type.as_deref(), Some("text/html; charset=utf-8"));
    assert_eq!(probe.latency_ms, 42);
    assert_eq!(probe.url, "https://a.com/");
    assert_eq!(probe.target_type, "homepage");
}

#[test]
fn probe_fails_on_other_status() {
    let probe = classify_probe(
        target("robots", "https://a.com/robots.txt", &["text/plain"]),
        5,
        HttpOutcome::Responded { status: 404, content_type: Some("text/plain".to_string()) },
    );
    assert!(!probe.ok);
    assert_eq!(probe.status_code, Some(404));
    assert_eq!(probe.failure_reason.as_deref(), Some("expected 200, got 404"));
}

#[test]
fn probe_status_is_judged_before_content_type() {
    let probe = classify_probe(
        target("css", "https://a.com/main.css", &["text/css"]),
        1,
        HttpOutcome::Responded { status: 500, content_type: None },
    );
    assert_eq!(probe.failure_reason.as_deref(), Some("expected 200, got 500"));
}

#[test]
fn probe_fails_on_wrong_content_type() {
    let probe = classify_probe(
        target("sitemap", "https://a.com/sitemap.xml", &["application/xml", "text/xml"]),
        9,
        HttpOutcome::Responded { status: 200, content_type: Some("text/html".to_string()) },
    );
    assert!(!probe.ok);
    assert_eq!(
        probe.failure_reason.as_deref(),
        Some("expected content type application/xml or text/xml, got text/html")
    );
}

#[test]
fn probe_fails_on_missing_content_type() {
    let probe = classify_probe(
        target("css", "https://a.com/main.css", &["text/css"]),
        9,
        HttpOutcome::Responded { status: 200, content_type: None },
    );
    assert!(!probe.ok);
    assert_eq!(probe.content_type, None);
    assert_eq!(probe.failure_reason.as_deref(), Some("expected content type text/css, got missing"));
}

#[test]
fn probe_fails_when_request_fails() {
    let probe = classify_probe(
        target("homepage", "https://down.example/", &["text/html"]),
        12000,
        HttpOutcome::Failed { error: "operation timed out".to_string() },
    );
    assert!(!probe.ok);
    assert_eq!(probe.status_code, None);
    assert_eq!(probe.content_type, None);
    assert_eq!(probe.latency_ms, 12000);
    assert_eq!(probe.failure_reason.as_deref(), Some("request failed: operation timed out"));
}

#[test]
fn probe_law_ok_exactly_without_failure_reason() {
    let outcomes = vec![
        HttpOutcome::Responded { status: 200, content_type: Some("text/css".to_string()) },
        HttpOutcome::Responded { status: 200, content_type: Some("text/plain".to_string()) },
        HttpOutcome::Responded { status: 301, content_type: Some("text/css".to_string()) },
        HttpOutcome::Failed { error: "dns".to_string() },
    ];
    for outcome in outcomes {
        let probe = classify_probe(target("css", "u", &["text/css"]), 0, outcome);
        assert_eq!(probe.ok, probe.failure_reason.is_none());
    }
}

#[test]
fn millis_that_fit_are_kept() {
    assert_eq!(millis_to_i32(0), 0);
    assert_eq!(millis_to_i32(1234), 1234);
    assert_eq!(millis_to_i32(i32::MAX as u128), i32::MAX);
}

#[test]
fn millis_that_do_not_fit_are_capped() {
    assert_eq!(millis_to_i32(i32::MAX as u128 + 1), i32::MAX);
    assert_eq!(millis_to_i32(u128::MAX), i32::MAX);
}

#[test]
fn elapsed_since_a_moment_ago() {
    let started = std::time::Instant::now() - std::time::Duration::from_millis(25);
    let ms = elapsed_ms(started);
    assert!(ms >= 25);
}

#[test]
fn plan_runs_four_probes_per_site_in_order() {
    let sites = vec![site(3, "https://a.com", "/", "/a.css"), site(9, "https://b.com/", "/", "/b.css")];
    let plan = plan_check_run(&sites);
    assert_eq!(plan.len(), 8);
    let ids: Vec<i64> = plan.iter().map(|p| p.site_id).collect();
    assert_eq!(ids, vec![3, 3, 3, 3, 9, 9, 9, 9]);
    let kinds: Vec<&str> = plan.iter().map(|p| p.target.target_type).collect();
    assert_eq!(kinds, vec!["homepage", "css", "robots", "sitemap", "homepage", "css", "robots", "sitemap"]);
    assert_eq!(plan[5].target.url, "https://b.com/b.css");
}

#[test]
fn plan_of_no_sites_is_empty() {
    assert!(plan_check_run(&Vec::new()).is_empty());
}

#[test]
fn summary_counts_failures() {
    let summary = summarize_run(2, &vec![true, false, true, false, false, true, true, true]);
    assert_eq!(summary.checked_sites, 2);
    assert_eq!(summary.inserted_checks, 8);
    assert_eq!(summary.failures, 3);
}

#[test]
fn summary_of_empty_run() {
    let summary = summarize_run(0, &Vec::new());
    assert_eq!((summary.checked_sites, summary.inserted_checks, summary.failures), (0, 0, 0));
}

#[test]
fn base_url_trims_unicode_white_space() {
    assert_eq!(domain_to_base_url("\u{3000}x.io\u{a0}\u{85}"), "https://x.io");
}

#[test]
fn join_url_law_missing_slash_is_added() {
    assert_eq!(join_url("https://a.com", "sitemap.xml"), join_url("https://a.com", "/sitemap.xml"));
    assert_eq!(join_url("https://a.com/", "x"), join_url("https://a.com", "x"));
}
