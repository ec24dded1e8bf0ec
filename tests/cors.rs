use save_map_server::cors::{all_options, header_names_match, set_header, ALLOWED_ORIGIN, CORS};

fn pairs(v: &[(&str, &str)]) -> Vec<(String, String)> {
    v.iter().map(|(a, b)| (a.to_string(), b.to_string())).collect()
}

#[test]
fn every_response_gets_the_policy() {
    let mut hs = Vec::new();
    CORS.on_response(&mut hs);
    assert_eq!(
        hs,
        pairs(&[
            ("Access-Control-Allow-Origin", "https://satisfactory-calculator.com"),
            ("Access-Control-Allow-Methods", "POST, GET, PATCH, OPTIONS"),
            ("Access-Control-Allow-Headers", "*"),
            ("Access-Control-Allow-Credentials", "true"),
        ])
    );
    assert_eq!(ALLOWED_ORIGIN, "https://satisfactory-calculator.com");
}

#[test]
fn policy_overwrites_existing_values() {
    let mut hs = pairs(&[
        ("Content-Type", "text/html"),
        ("access-control-allow-origin", "*"),
        ("ACCESS-CONTROL-ALLOW-CREDENTIALS", "false"),
    ]);
    CORS.on_response(&mut hs);
    assert_eq!(hs.len(), 5);
    assert_eq!(hs[0], ("Content-Type".to_string(), "text/html".to_string()));
    let origins: Vec<_> =
        hs.iter().filter(|(n, _)| n.eq_ignore_ascii_case("access-control-allow-origin")).collect();
    assert_eq!(origins.len(), 1);
    assert_eq!(origins[0].1, "https://satisfactory-calculator.com");
    assert!(hs.contains(&("Access-Control-Allow-Credentials".to_string(), "true".to_string())));
}

#[test]
fn error_responses_get_the_policy_too() {
    let mut hs = pairs(&[("Content-Type", "text/plain"), ("Content-Length", "0")]);
    CORS.on_response(&mut hs);
    assert!(hs.contains(&(
        "Access-Control-Allow-Origin".to_string(),
        "https://satisfactory-calculator.com".to_string()
    )));
}

#[test]
fn set_header_replaces_every_match() {
    let mut hs = pairs(&[("X-A", "1"), ("x-a", "2"), ("X-B", "3")]);
    set_header(&mut hs, "X-A", "9");
    assert_eq!(hs, pairs(&[("X-B", "3"), ("X-A", "9")]));
}

#[test]
fn header_names_ignore_ascii_case() {
    assert!(header_names_match("Content-Type", "content-TYPE"));
    assert!(!header_names_match("Content-Type", "Content-Typ"));
    assert!(!header_names_match("a", "b"));
    assert!(header_names_match("", ""));
}

#[test]
fn preflight_handler_has_nothing_to_do() {
    all_options();
}
