use prismoire::instance_config::validate_source_repo_url;
use prismoire::middleware::cache_control::cache_control;
use prismoire::middleware::csrf::{csrf_origin_check, referer_matches, AllowedOrigin};
use prismoire::middleware::route_metrics::counted_path;
use prismoire::middleware::security_headers::{security_headers, HttpsEnabled};
use prismoire::web_url::UrlParts;

#[test]
fn normalizes_origin_without_port() {
    let origin = AllowedOrigin::parse("https://example.com/").unwrap();
    assert_eq!(origin.0.as_str(), "https://example.com");
}

#[test]
fn normalizes_origin_with_port() {
    let origin = AllowedOrigin::parse("http://localhost:3000/").unwrap();
    assert_eq!(origin.0.as_str(), "http://localhost:3000");
}

#[test]
fn referer_matches_exact() {
    assert!(referer_matches("https://example.com", "https://example.com"));
}

#[test]
fn referer_matches_with_path() {
    assert!(referer_matches("https://example.com/foo/bar", "https://example.com"));
}

#[test]
fn referer_rejects_suffix_spoof() {
    assert!(!referer_matches("https://example.com.attacker.tld/", "https://example.com"));
}

#[test]
fn referer_rejects_different_origin() {
    assert!(!referer_matches("https://evil.example/", "https://example.com"));
}

#[test]
fn referers_end_with_the_origin_or_go_on_with_a_path() {
    assert!(referer_matches("https://example.com", "https://example.com"));
    assert!(referer_matches("https://example.com/?q", "https://example.com"));
    assert!(!referer_matches("https://example.com?q", "https://example.com"));
    assert!(!referer_matches("https://example.com#top", "https://example.com"));
    assert!(!referer_matches("https://example.com:8080/", "https://example.com"));
    assert!(!referer_matches("https://example.co", "https://example.com"));
}

#[test]
fn origins_leave_out_the_own_port_of_the_scheme() {
    assert_eq!(AllowedOrigin::parse("https://example.com:443/x").unwrap().0, "https://example.com");
    assert_eq!(AllowedOrigin::parse("http://example.com:80/").unwrap().0, "http://example.com");
    assert!(AllowedOrigin::parse("data:text/plain,hi").is_none());
    assert!(AllowedOrigin::parse("not a url").is_none());
    let parts = UrlParts {
        scheme: "https".to_string(),
        host: Some("example.com".to_string()),
        port: Some(8443),
    };
    assert_eq!(AllowedOrigin::from_url(&parts).unwrap().0, "https://example.com:8443");
    let nowhere = UrlParts { scheme: "https".to_string(), host: None, port: None };
    assert!(AllowedOrigin::from_url(&nowhere).is_none());
}

#[test]
fn changes_come_from_the_own_site() {
    let own = AllowedOrigin("https://example.com".to_string());
    let other = Some("https://evil.example");
    let same = Some("https://example.com");
    assert!(csrf_origin_check("GET", other, None, &own));
    assert!(csrf_origin_check("HEAD", other, None, &own));
    assert!(csrf_origin_check("OPTIONS", None, None, &own));
    assert!(csrf_origin_check("POST", same, None, &own));
    assert!(!csrf_origin_check("POST", other, None, &own));
    // The origin decides where there is one.
    assert!(!csrf_origin_check("DELETE", other, Some("https://example.com/x"), &own));
    assert!(csrf_origin_check("DELETE", None, Some("https://example.com/x"), &own));
    assert!(!csrf_origin_check("PATCH", None, Some("https://evil.example/"), &own));
    assert!(!csrf_origin_check("POST", None, None, &own));
}

#[test]
fn answers_are_not_kept_unless_the_handler_says_so() {
    assert_eq!(cache_control(false), Some("no-store"));
    assert_eq!(cache_control(true), None);
}

#[test]
fn unmatched_requests_share_a_path() {
    assert_eq!(counted_path(Some("/api/threads/{id}")), "/api/threads/{id}");
    assert_eq!(counted_path(None), "<unmatched>");
}

#[test]
fn security_headers_are_added_where_they_are_missing() {
    let all = security_headers(&vec![], HttpsEnabled(true));
    let names: Vec<&str> = all.iter().map(|h| h.name).collect();
    assert!(names.contains(&"strict-transport-security"));
    assert!(names.contains(&"content-security-policy"));
    let plain = security_headers(&vec![], HttpsEnabled(false));
    assert_eq!(plain.len() + 1, all.len());
    assert!(plain.iter().all(|h| h.name != "strict-transport-security"));
    let kept = security_headers(&vec!["content-security-policy".to_string()], HttpsEnabled(true));
    assert!(kept.iter().all(|h| h.name != "content-security-policy"));
    assert_eq!(kept.len() + 1, all.len());
}

#[test]
fn source_urls_are_checked() {
    assert_eq!(
        validate_source_repo_url("  https://git.example/repo ").unwrap(),
        "https://git.example/repo"
    );
    assert!(validate_source_repo_url("http://git.example/repo").is_ok());
    assert!(validate_source_repo_url("").is_err());
    assert!(validate_source_repo_url("ftp://git.example/").is_err());
    assert!(validate_source_repo_url("not a url").is_err());
    assert!(validate_source_repo_url(&format!("https://e.example/{}", "a".repeat(2048))).is_err());
    // The length counts characters, whatever they take in bytes.
    assert!(validate_source_repo_url(&format!("https://e.example/{}", "é".repeat(2000))).is_ok());
}
