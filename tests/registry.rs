use registry_dns::registry::{Registry, RegistryError};

#[test]
fn test_registry_from_str() {
    let registry = Registry::from_str("http://localhost:8080").unwrap();
    assert_eq!(registry.hostname(), "localhost");
    assert_eq!(
        registry.url(),
        reqwest::Url::parse("http://localhost:8080").unwrap().as_str()
    );
}

#[test]
fn registry_from_str_errors() {
    assert_eq!(Registry::from_str("not a url").err(), Some(RegistryError::InvalidUrl));
    assert_eq!(Registry::from_str("mailto:someone@example.com").err(), Some(RegistryError::MissingHost));
    assert_eq!(Registry::from_str("http://bad..name:80").err(), Some(RegistryError::InvalidHostname));
}

#[test]
fn registry_service_sets() {
    let mut r = Registry::new("alpha".to_string(), "http://alpha:3000/".to_string());
    r.add_public_service("a".to_string());
    r.add_public_service("b".to_string());
    r.add_public_service("a".to_string());
    assert_eq!(r.public_services(), &vec!["a".to_string(), "b".to_string()]);
    assert!(r.has_public_service("a"));
    assert!(!r.has_private_service("a"));
    r.add_private_service("p".to_string());
    assert!(r.has_private_service("p"));
    r.remove_public_service("a");
    assert_eq!(r.public_services(), &vec!["b".to_string()]);
    r.flush_public_services(vec!["x".to_string(), "x".to_string(), "y".to_string()]);
    assert_eq!(r.public_services(), &vec!["x".to_string(), "y".to_string()]);
    r.clear_public_services();
    r.clear_private_services();
    assert!(r.public_services().is_empty());
    assert!(r.private_services().is_empty());
    assert_eq!(r.hostname(), "alpha");
    assert_eq!(r.url(), "http://alpha:3000/");
}

#[test]
fn registry_from_parts() {
    let r = Registry::from_parts("alpha", "http://alpha:3000").unwrap();
    assert_eq!(r.hostname(), "alpha");
    assert_eq!(r.url(), "http://alpha:3000/");
    assert!(r.public_services().is_empty());
    assert_eq!(Registry::from_parts("a..b", "http://alpha:3000").err(), Some(RegistryError::InvalidHostname));
    assert_eq!(Registry::from_parts("alpha", "no url").err(), Some(RegistryError::InvalidUrl));
}
