use armor::csp::{self, ContentSecurityPolicy, ReportTo, ReportToEndpoint, Source};
use http::HeaderMap;

#[test]
fn four_directives_render_sorted() {
    let mut policy = ContentSecurityPolicy::new();
    policy
        .default_src("'self'")
        .default_src("areweasyncyet.rs")
        .script_src("'self'")
        .object_src("'none'")
        .upgrade_insecure_requests();
    assert_eq!(
        policy.value(),
        "default-src 'self' areweasyncyet.rs; object-src 'none'; script-src 'self'; upgrade-insecure-requests"
    );
}

#[test]
fn repeated_directive_merges() {
    let mut policy = csp::new();
    policy.script_src("'self'").script_src("'unsafe-inline'");
    assert_eq!(policy.value(), "script-src 'self' 'unsafe-inline'");
}

#[test]
fn empty_policy_renders_empty() {
    assert_eq!(csp::new().value(), "");
    assert_eq!(ContentSecurityPolicy::new().value(), "");
}

#[test]
fn default_policy_token() {
    let policy = ContentSecurityPolicy::default();
    assert_eq!(policy.value(), "script-src 'self'; object-src 'self'");
}

#[test]
fn report_only_uses_other_header() {
    let mut policy = csp::new();
    policy.default_src("'self'").report_only();
    let mut headers = HeaderMap::new();
    policy.apply(&mut headers);
    assert_eq!(headers["content-security-policy-report-only"], "default-src 'self'");
    assert!(headers.get("content-security-policy").is_none());
}

#[test]
fn enforced_policy_header() {
    let mut policy = csp::new();
    policy.img_src("data:");
    let mut headers = HeaderMap::new();
    policy.apply(&mut headers);
    assert_eq!(headers["Content-Security-Policy"], "img-src data:");
    assert!(headers.get("content-security-policy-report-only").is_none());
}

#[test]
fn apply_replaces_previous_policy() {
    let mut headers = HeaderMap::new();
    headers.insert("content-security-policy", "old".parse().unwrap());
    headers.append("content-security-policy", "older".parse().unwrap());
    let mut policy = csp::new();
    policy.frame_ancestors("'none'");
    policy.apply(&mut headers);
    let all: Vec<_> = headers.get_all("content-security-policy").iter().collect();
    assert_eq!(all.len(), 1);
    assert_eq!(all[0], "frame-ancestors 'none'");
}

#[test]
fn value_is_repeatable() {
    let mut policy = csp::new();
    policy.style_src("'self'").block_all_mixed_content();
    let first = policy.value();
    let second = policy.value();
    assert_eq!(first, "block-all-mixed-content; style-src 'self'");
    assert_eq!(first, second);
}

#[test]
fn every_directive_name() {
    let mut policy = csp::new();
    policy
        .base_uri("a")
        .connect_src("a")
        .default_src("a")
        .font_src("a")
        .form_action("a")
        .frame_ancestors("a")
        .frame_src("a")
        .img_src("a")
        .media_src("a")
        .object_src("a")
        .plugin_types("a")
        .require_sri_for("a")
        .sandbox("a")
        .script_src("a")
        .style_src("a")
        .worker_src("a");
    assert_eq!(
        policy.value(),
        "base-uri a; connect-src a; default-src a; font-src a; form-action a; \
         frame-ancestors a; frame-src a; img-src a; media-src a; object-src a; \
         plugin-types a; require-sri-for a; sandbox a; script-src a; style-src a; worker-src a"
    );
}

#[test]
fn source_texts() {
    let cases = vec![
        (Source::SameOrigin, "'self'"),
        (Source::SRC, "'src'"),
        (Source::NoSource, "'none'"),
        (Source::UnsafeInline, "'unsafe-inline'"),
        (Source::Data, "data:"),
        (Source::Mediastream, "mediastream:"),
        (Source::HTTPS, "https:"),
        (Source::Blob, "blob:"),
        (Source::Filesystem, "filesystem:"),
        (Source::StrictDynamic, "'strict-dynamic'"),
        (Source::UnsafeEval, "'unsafe-eval'"),
        (Source::Wildcard, "*"),
    ];
    for (source, text) in cases {
        assert_eq!(source.as_str(), text);
    }
}

#[test]
fn report_uri_token() {
    let mut policy = csp::new();
    policy.report_uri("https://example.com/csp").default_src("'self'");
    assert_eq!(policy.value(), "default-src 'self'; report-uri https://example.com/csp");
}

#[test]
fn report_to_full_group() {
    let group = ReportTo::new(
        Some("csp-endpoint".to_string()),
        10886400,
        vec![
            ReportToEndpoint::new("https://example.com/csp-reports"),
            ReportToEndpoint::new("https://backup.com/csp-reports"),
        ],
        Some(true),
    );
    assert_eq!(
        group.to_json(),
        "{\"group\":\"csp-endpoint\",\"max_age\":10886400,\"endpoints\":[{\"url\":\"https://example.com/csp-reports\"},{\"url\":\"https://backup.com/csp-reports\"}],\"include_subdomains\":true}"
    );
}

#[test]
fn report_to_minimal_group() {
    let group = ReportTo::new(None, -5, vec![], None);
    assert_eq!(group.to_json(), "{\"max_age\":-5,\"endpoints\":[]}");
    let group = ReportTo::new(None, 0, vec![ReportToEndpoint::new("u")], Some(false));
    assert_eq!(
        group.to_json(),
        "{\"max_age\":0,\"endpoints\":[{\"url\":\"u\"}],\"include_subdomains\":false}"
    );
}

#[test]
fn report_to_extreme_ages() {
    let group = ReportTo::new(None, i32::MIN, vec![], None);
    assert_eq!(group.to_json(), "{\"max_age\":-2147483648,\"endpoints\":[]}");
    let group = ReportTo::new(None, i32::MAX, vec![], None);
    assert_eq!(group.to_json(), "{\"max_age\":2147483647,\"endpoints\":[]}");
}

#[test]
fn report_to_escapes_strings() {
    let group = ReportTo::new(Some("a\"b\\c".to_string()), 1, vec![], None);
    assert_eq!(group.to_json(), "{\"group\":\"a\\\"b\\\\c\",\"max_age\":1,\"endpoints\":[]}");
}

#[test]
fn report_to_tokens_in_policy() {
    let mut policy = csp::new();
    policy.report_to(vec![
        ReportTo::new(Some("b".to_string()), 1, vec![], None),
        ReportTo::new(Some("a".to_string()), 2, vec![], None),
    ]);
    assert_eq!(
        policy.value(),
        "report-to {\"group\":\"a\",\"max_age\":2,\"endpoints\":[]}; report-to {\"group\":\"b\",\"max_age\":1,\"endpoints\":[]}"
    );
}

#[test]
fn sorting_is_by_code_point() {
    let mut policy = csp::new();
    policy.script_src("é").img_src("Z").img_src("a");
    assert_eq!(policy.value(), "img-src Z a; script-src é");
    let mut other = csp::new();
    other.upgrade_insecure_requests().block_all_mixed_content().base_uri("x");
    assert_eq!(other.value(), "base-uri x; block-all-mixed-content; upgrade-insecure-requests");
}
