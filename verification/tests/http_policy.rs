use mochiclaw::http_policy::{covers, HttpContext, HttpRequest};
use mochiclaw::strmap::StrMap;

fn ctx(allowed: &[&str], denied: &[&str]) -> HttpContext {
    HttpContext::new(
        None,
        allowed.iter().map(|s| s.to_string()).collect(),
        denied.iter().map(|s| s.to_string()).collect(),
    )
}

#[test]
fn test_allowed_and_denied_hosts() {
    let c = ctx(&["*.example.com", "api.other.org"], &["evil.example.com"]);
    assert!(c.is_host_allowed("https://api.example.com/v1/chat"));
    assert!(c.is_host_allowed("http://api.other.org"));
    assert!(!c.is_host_allowed("https://evil.example.com/"));
    assert!(!c.is_host_allowed("https://unlisted.net"));
    assert!(!c.is_host_allowed("not a url"));
    assert!(!ctx(&[], &[]).is_host_allowed("https://api.example.com"));
}

#[test]
fn test_invalid_pattern_compares_literally() {
    assert!(covers("[", "["));
    assert!(!covers("[", "a"));
    assert!(covers("*", "anything.com"));
}

#[test]
fn test_refused_request_forgets_last_answer() {
    let mut c = ctx(&["ok.com"], &[]);
    let mut headers = StrMap::new();
    headers.insert("x".to_string(), "y".to_string());
    c.record(200, headers);
    assert_eq!(c.status_code(), 200);
    let allowed = HttpRequest { url: "https://ok.com/a".to_string(), headers: StrMap::new(), method: None };
    assert_eq!(c.let_through(&allowed), Some("GET".to_string()));
    assert_eq!(c.status_code(), 200);
    let refused = HttpRequest { url: "https://no.com/".to_string(), headers: StrMap::new(), method: Some("POST".to_string()) };
    assert_eq!(c.let_through(&refused), None);
    assert_eq!(c.status_code(), 0);
    assert_eq!(c.last_headers.len(), 0);
}
