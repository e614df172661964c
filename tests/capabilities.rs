use harbor_bridge::fetch::{http_method, plan_fetch, FetchPlan, HttpMethod};
use harbor_bridge::sandbox::{
    home_relative, is_descendant, pattern_matches, Capabilities, FilesystemCapabilities, NetworkCapabilities,
    ResolvedPrefix,
};

#[test]
fn test_host_matching() {
    let caps = NetworkCapabilities {
        allowed_hosts: vec!["api.example.com".to_string(), "*.googleapis.com".to_string()],
    };

    assert!(caps.is_host_allowed("https://api.example.com/foo"));
    assert!(caps.is_host_allowed("https://gmail.googleapis.com/v1/users"));
    assert!(caps.is_host_allowed("https://www.googleapis.com/oauth2"));
    assert!(!caps.is_host_allowed("https://evil.com/steal"));
    assert!(!caps.is_host_allowed("https://example.com/foo"));
}

#[test]
fn test_wildcard_all() {
    let caps = NetworkCapabilities { allowed_hosts: vec!["*".to_string()] };
    assert!(caps.is_host_allowed("https://anything.com/foo"));
}

#[test]
fn wildcard_pattern_matches_subdomain_and_bare_domain() {
    assert!(pattern_matches("*.example.com", "api.example.com"));
    assert!(pattern_matches("*.example.com", "example.com"));
    assert!(!pattern_matches("*.example.com", "evil.com"));
    assert!(!pattern_matches("*.example.com", "badexample.com"));
    assert!(pattern_matches("api.example.com", "api.example.com"));
    assert!(!pattern_matches("api.example.com", "www.api.example.com"));
    assert!(pattern_matches("*", "anything"));
}

#[test]
fn fetch_capability_scenarios() {
    let sub = NetworkCapabilities { allowed_hosts: vec!["*.example.com".to_string()] };
    assert!(matches!(plan_fetch(&sub, "https://api.example.com/x", None), FetchPlan::Send(HttpMethod::Get)));
    match plan_fetch(&sub, "https://evil.com/x", None) {
        FetchPlan::Refuse(m) => assert_eq!(m, "Host not allowed: https://evil.com/x"),
        other => panic!("unexpected {:?}", other),
    }
    let all = NetworkCapabilities { allowed_hosts: vec!["*".to_string()] };
    assert!(matches!(plan_fetch(&all, "https://evil.com/x", Some("post")), FetchPlan::Send(HttpMethod::Post)));
    assert!(matches!(plan_fetch(&all, "https://evil.com/x", None), FetchPlan::Send(HttpMethod::Get)));
    let none = NetworkCapabilities { allowed_hosts: vec![] };
    assert!(!none.grants_fetch());
    assert!(all.grants_fetch());
    assert!(!none.is_host_allowed("https://api.example.com/x"));
}

#[test]
fn fetch_rejects_unsupported_method() {
    let all = NetworkCapabilities { allowed_hosts: vec!["*".to_string()] };
    match plan_fetch(&all, "https://a.com/", Some("trace")) {
        FetchPlan::Refuse(m) => assert_eq!(m, "Unsupported method: TRACE"),
        other => panic!("unexpected {:?}", other),
    }
    assert_eq!(http_method("DELETE"), Some(HttpMethod::Delete));
    assert_eq!(http_method("delete"), None);
}

#[test]
fn unparsable_url_is_refused() {
    let all = NetworkCapabilities { allowed_hosts: vec!["*".to_string()] };
    assert!(!all.is_host_allowed("not a url"));
    assert!(all.allows_host("x.org"));
}

#[test]
fn descendant_compares_whole_components() {
    assert!(is_descendant("/home/u/docs/a.txt", "/home/u/docs"));
    assert!(is_descendant("/home/u/docs", "/home/u/docs"));
    assert!(!is_descendant("/home/u/docs2/a", "/home/u/docs"));
    assert!(is_descendant("/tmp/x", "/"));
    assert!(!is_descendant("/home", "/home/u"));
}

#[test]
fn filesystem_grants() {
    let fs = FilesystemCapabilities {
        read_paths: vec!["/data".to_string(), "~/notes".to_string()],
        write_paths: vec![],
    };
    let resolved = vec![
        ResolvedPrefix { canonical: Some("/data".to_string()), home_canonical: None },
        ResolvedPrefix { canonical: None, home_canonical: Some("/home/u/notes".to_string()) },
    ];
    assert!(fs.can_read(&Some("/data/a".to_string()), &resolved));
    assert!(fs.can_read(&Some("/home/u/notes/n.md".to_string()), &resolved));
    assert!(!fs.can_read(&Some("/etc/passwd".to_string()), &resolved));
    assert!(!fs.can_read(&None, &resolved));
    assert!(!fs.can_write(&Some("/data/a".to_string()), &vec![]));
    assert_eq!(home_relative("~/notes"), Some("notes".to_string()));
    assert_eq!(home_relative("/data"), None);
}

#[test]
fn default_capabilities_grant_nothing() {
    let c = Capabilities::default();
    assert!(c.network.allowed_hosts.is_empty());
    assert!(c.filesystem.read_paths.is_empty());
    assert!(c.filesystem.write_paths.is_empty());
}
