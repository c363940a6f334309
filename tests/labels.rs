use registry_dns::labels::{
    capture_service, is_caddy_label, is_snippet_value, parse_address, PRIVATE_SERVICE_TLD,
    PUBLIC_SERVICE_TLD,
};

#[test]
fn test_parse_address() {
    let test_cases = vec![
        // single address
        ("192.168.1.1", vec!["192.168.1.1"]),
        // address with extra spaces
        ("  192.168.1.1  ", vec!["192.168.1.1"]),
        // comma-separated addresses without spaces
        (
            "192.168.1.1,192.168.1.2",
            vec!["192.168.1.1", "192.168.1.2"],
        ),
        // space-separated addresses
        (
            "192.168.1.1 192.168.1.2",
            vec!["192.168.1.1", "192.168.1.2"],
        ),
        // mixed comma and space separation
        (
            " 192.168.1.1, 192.168.1.2 192.168.1.3 ,192.168.1.4 ",
            vec!["192.168.1.1", "192.168.1.2", "192.168.1.3", "192.168.1.4"],
        ),
        // empty and whitespace-only segments
        ("   ,  ", Vec::<&str>::new()),
    ];

    for (input, expected) in test_cases {
        let expected: Vec<String> = expected.into_iter().map(String::from).collect();
        let result = parse_address(input);
        assert_eq!(result, expected, "Failed for input: {:?}", input);
    }
}

#[test]
fn parse_address_splits_on_any_whitespace() {
    assert_eq!(parse_address("a.public\tb.public\nc.private"), vec!["a.public", "b.public", "c.private"]);
    assert!(parse_address("").is_empty());
}

#[test]
fn capture_service_public_and_private() {
    let public_tests = vec![
        ("service.public", "service"),
        ("another-service.public:8080", "another-service"),
        ("sub.domain.public", "sub.domain"),
        ("http://service.public", "service"),
        ("https://another-service.public:8080", "another-service"),
        ("http://sub.domain.public", "sub.domain"),
    ];
    for (input, expected) in public_tests {
        assert_eq!(capture_service(input, PUBLIC_SERVICE_TLD), Some(expected.to_string()), "{}", input);
        assert_eq!(capture_service(input, PRIVATE_SERVICE_TLD), None, "{}", input);
    }
    let private_tests = vec![
        ("service.private", "service"),
        ("another-service.private:3000", "another-service"),
        ("sub.domain.private", "sub.domain"),
        ("http://service.private", "service"),
        ("http://another-service.private:3000", "another-service"),
        ("https://sub.domain.private", "sub.domain"),
    ];
    for (input, expected) in private_tests {
        assert_eq!(capture_service(input, PRIVATE_SERVICE_TLD), Some(expected.to_string()), "{}", input);
        assert_eq!(capture_service(input, PUBLIC_SERVICE_TLD), None, "{}", input);
    }
}

#[test]
fn capture_service_rejects_other_addresses() {
    let non_matching = vec![
        "something.publicx",
        "something.privatex",
        "http://",
        "http://something.publicx",
        "http://something.privatex",
        "no-tld-here",
        "service.unknown:1234",
        "127.0.0.1",
        "http://127.0.0.1",
        ".public",
        "a.public:",
        "a.public:8x",
    ];
    for input in non_matching {
        assert!(
            capture_service(input, PUBLIC_SERVICE_TLD).is_none()
                && capture_service(input, PRIVATE_SERVICE_TLD).is_none(),
            "Expected no capture from: {}",
            input
        );
    }
}

#[test]
fn capture_service_keeps_a_bare_scheme_as_name() {
    assert_eq!(capture_service("http://.public", PUBLIC_SERVICE_TLD), Some("http://".to_string()));
    assert_eq!(capture_service("a.public.public", PUBLIC_SERVICE_TLD), Some("a.public".to_string()));
}

#[test]
fn caddy_label_keys() {
    assert!(is_caddy_label("caddy"));
    assert!(is_caddy_label("caddy_0"));
    assert!(is_caddy_label("caddy_12"));
    assert!(!is_caddy_label("caddy_"));
    assert!(!is_caddy_label("caddy_1a"));
    assert!(!is_caddy_label("caddy.reverse_proxy"));
    assert!(!is_caddy_label("xcaddy"));
    assert!(!is_caddy_label(""));
}

#[test]
fn snippet_values() {
    assert!(is_snippet_value("(snippet)"));
    assert!(is_snippet_value("()"));
    assert!(!is_snippet_value("(a\nb)"));
    assert!(!is_snippet_value("(open"));
    assert!(!is_snippet_value("billing.public"));
}

#[test]
fn digits_of_any_script() {
    assert!(is_caddy_label("caddy_\u{663}"));
    assert!(is_caddy_label("caddy_\u{FF11}\u{FF12}"));
    assert!(!is_caddy_label("caddy_\u{663}x"));
    assert_eq!(capture_service("a.public:\u{663}", PUBLIC_SERVICE_TLD), Some("a".to_string()));
    assert_eq!(capture_service("b.private:\u{967}\u{968}", PRIVATE_SERVICE_TLD), Some("b".to_string()));
    assert_eq!(capture_service("a.public:\u{2163}", PUBLIC_SERVICE_TLD), None);
}
