use registry_dns::env::{
    create_error_msg, setting_or_default, Env, EnvError, ListenSetting, DEFAULT_REGISTRY_LISTEN,
};
use registry_dns::registry::RegistryError;

fn env(hostname: Option<&str>, urls: Option<&str>) -> Env {
    Env {
        server_listen: ListenSetting { value: "0.0.0.0:53".to_string(), address: Some("0.0.0.0:53".to_string()) },
        registry_listen: ListenSetting {
            value: "0.0.0.0:3000".to_string(),
            address: Some("0.0.0.0:3000".to_string()),
        },
        self_hostname: hostname.map(String::from),
        registry_urls: urls.map(String::from),
    }
}

#[test]
fn valid_configuration() {
    let e = env(Some("alpha"), Some("http://beta:3000 http://gamma:3000"));
    assert!(e.validate().is_ok());
    let me = e.self_registry().unwrap();
    assert_eq!(me.hostname(), "alpha");
    assert_eq!(me.url(), "http://0.0.0.0:3000/");
    let peers = e.registries().unwrap();
    assert_eq!(peers.len(), 2);
    assert_eq!(peers[1].hostname(), "gamma");
    assert_eq!(e.server_listen().unwrap(), "0.0.0.0:53");
}

#[test]
fn empty_peer_list() {
    let e = env(Some("alpha"), Some(""));
    assert!(e.validate().is_ok());
    assert!(e.registries().unwrap().is_empty());
}

#[test]
fn missing_variables() {
    match env(None, Some("")).validate() {
        Err(EnvError::NotFound(k)) => assert_eq!(k, "SELF_HOSTNAME"),
        other => panic!("unexpected {:?}", other),
    }
    let err = env(Some("alpha"), None).validate().unwrap_err();
    assert_eq!(err.message(), "Environment variable `REGISTRY_URLS` not found.");
}

#[test]
fn invalid_values() {
    let mut e = env(Some("alpha"), Some(""));
    e.server_listen = ListenSetting { value: "nowhere".to_string(), address: None };
    let err = e.validate().unwrap_err();
    assert_eq!(
        err.message(),
        "Failed to parse environment variable `DNS_SERVER_LISTEN` with value `nowhere`."
    );
    match env(Some("alpha"), Some("http://beta:3000 nonsense")).validate() {
        Err(EnvError::Registry(u, RegistryError::InvalidUrl)) => assert_eq!(u, "nonsense"),
        other => panic!("unexpected {:?}", other),
    }
    match env(Some("a..b"), Some("")).self_registry() {
        Err(EnvError::Invalid(k, v)) => {
            assert_eq!(k, "SELF_HOSTNAME");
            assert_eq!(v, "a..b");
        }
        other => panic!("unexpected {:?}", other.err()),
    }
}

#[test]
fn error_message_and_defaults() {
    assert_eq!(
        create_error_msg("KEY", "v"),
        "Failed to parse environment variable `KEY` with value `v`."
    );
    assert_eq!(setting_or_default(None, DEFAULT_REGISTRY_LISTEN), "0.0.0.0:3000");
    assert_eq!(setting_or_default(Some("1.2.3.4:5".to_string()), DEFAULT_REGISTRY_LISTEN), "1.2.3.4:5");
}

#[test]
fn messages_of_url_errors() {
    assert_eq!(EnvError::InvalidUrl("x".to_string()).message(), "Failed to parse URL `x`.");
    assert_eq!(
        EnvError::Registry("x".to_string(), RegistryError::InvalidUrl).message(),
        "Failed to parse URL `x`."
    );
    assert_eq!(
        EnvError::Registry("mailto:a@b".to_string(), RegistryError::MissingHost).message(),
        "No hostname found in URL `mailto:a@b`."
    );
    assert_eq!(
        EnvError::Registry("http://a..b".to_string(), RegistryError::InvalidHostname).message(),
        "Failed to parse hostname in URL `http://a..b`."
    );
}
