use armor::{FrameOptions, ReferrerOptions};
use http::HeaderMap;

fn values(headers: &HeaderMap, name: &str) -> Vec<String> {
    headers
        .get_all(name)
        .iter()
        .map(|v| v.to_str().unwrap().to_string())
        .collect()
}

#[test]
fn dns_prefetch_control_sets_on() {
    let mut headers = HeaderMap::new();
    armor::dns_prefetch_control(&mut headers);
    assert_eq!(headers.len(), 1);
    assert_eq!(headers["X-DNS-Prefetch-Control"], "on");
}

#[test]
fn dont_sniff_mimetype_sets_nosniff() {
    let mut headers = HeaderMap::new();
    armor::dont_sniff_mimetype(&mut headers);
    assert_eq!(headers.len(), 1);
    assert_eq!(headers["X-Content-Type-Options"], "nosniff");
}

#[test]
fn frameguard_levels() {
    let mut headers = HeaderMap::new();
    armor::frameguard(&mut headers, None);
    assert_eq!(headers["X-Frame-Options"], "sameorigin");
    armor::frameguard(&mut headers, Some(FrameOptions::Deny));
    assert_eq!(values(&headers, "x-frame-options"), vec!["deny"]);
    armor::frameguard(&mut headers, Some(FrameOptions::SameOrigin));
    assert_eq!(values(&headers, "x-frame-options"), vec!["sameorigin"]);
}

#[test]
fn hsts_sets_sixty_days() {
    let mut headers = HeaderMap::new();
    armor::hsts(&mut headers);
    assert_eq!(headers.len(), 1);
    assert_eq!(headers["Strict-Transport-Security"], "max-age=5184000");
}

#[test]
fn xss_filter_sets_block() {
    let mut headers = HeaderMap::new();
    armor::xss_filter(&mut headers);
    assert_eq!(headers.len(), 1);
    assert_eq!(headers["X-XSS-Protection"], "1; mode=block");
}

#[test]
fn fixed_headers_leave_other_names_alone() {
    let mut headers = HeaderMap::new();
    headers.insert("x-custom", "kept".parse().unwrap());
    headers.insert("x-xss-protection", "0".parse().unwrap());
    armor::xss_filter(&mut headers);
    armor::hsts(&mut headers);
    assert_eq!(headers.len(), 3);
    assert_eq!(headers["x-custom"], "kept");
    assert_eq!(values(&headers, "x-xss-protection"), vec!["1; mode=block"]);
}

#[test]
fn hide_powered_by_removes_header() {
    let mut headers = HeaderMap::new();
    headers.insert("X-Powered-By", "Tide/Rust".parse().unwrap());
    headers.append("X-Powered-By", "again".parse().unwrap());
    armor::hide_powered_by(&mut headers);
    assert_eq!(headers.get("X-Powered-By"), None);
    assert!(headers.is_empty());
}

#[test]
fn hide_powered_by_without_header_is_no_op() {
    let mut headers = HeaderMap::new();
    headers.insert("server", "tide".parse().unwrap());
    armor::hide_powered_by(&mut headers);
    assert_eq!(headers.len(), 1);
    assert_eq!(headers["server"], "tide");
}

#[test]
fn referrer_policy_twice_keeps_both() {
    let mut headers = HeaderMap::new();
    armor::referrer_policy(&mut headers, Some(ReferrerOptions::UnsafeUrl));
    armor::referrer_policy(&mut headers, Some(ReferrerOptions::NoReferrer));
    assert_eq!(values(&headers, "referrer-policy"), vec!["unsafe-url", "no-referrer"]);
}

#[test]
fn referrer_policy_values() {
    let cases = vec![
        (None, ""),
        (Some(ReferrerOptions::Empty), ""),
        (Some(ReferrerOptions::NoReferrer), "no-referrer"),
        (Some(ReferrerOptions::NoReferrerDowngrade), "no-referrer-when-downgrade"),
        (Some(ReferrerOptions::SameOrigin), "same-origin"),
        (Some(ReferrerOptions::Origin), "origin"),
        (Some(ReferrerOptions::StrictOrigin), "strict-origin"),
        (Some(ReferrerOptions::CrossOrigin), "origin-when-cross-origin"),
        (Some(ReferrerOptions::StrictCrossOrigin), "strict-origin-when-cross-origin"),
        (Some(ReferrerOptions::UnsafeUrl), "unsafe-url"),
    ];
    for (option, expected) in cases {
        let mut headers = HeaderMap::new();
        armor::referrer_policy(&mut headers, option);
        assert_eq!(values(&headers, "Referrer-Policy"), vec![expected]);
    }
}

#[test]
fn armor_sets_all_protections() {
    let mut headers = HeaderMap::new();
    headers.insert("x-powered-by", "Tide/Rust".parse().unwrap());
    armor::armor(&mut headers);
    assert_eq!(headers.len(), 5);
    assert_eq!(headers["X-DNS-Prefetch-Control"], "on");
    assert_eq!(headers["X-Content-Type-Options"], "nosniff");
    assert_eq!(headers["X-Frame-Options"], "sameorigin");
    assert_eq!(headers["Strict-Transport-Security"], "max-age=5184000");
    assert_eq!(headers["X-XSS-Protection"], "1; mode=block");
    assert_eq!(headers.get("x-powered-by"), None);
}
