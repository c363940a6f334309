use registry_dns::api::{
    apply_pulled_services, get_registry_services, get_self_services, push_path,
    put_registry_services, PutOutcome,
};
use registry_dns::registry::Registry;
use registry_dns::resolver::lookup_order;

fn alpha() -> Registry {
    Registry::new("alpha".to_string(), "http://alpha:3000/".to_string())
}

#[test]
fn peer_match() {
    let me = alpha();
    let mut peers = vec![Registry::from_str("http://beta:3000").unwrap()];
    let outcome = put_registry_services(&mut peers, "beta", "[\"analytics\"]");
    assert_eq!(outcome, PutOutcome::Success);
    assert_eq!(outcome.as_str(), "Success");
    assert_eq!(
        lookup_order(&me, &peers, "analytics.public."),
        vec!["beta".to_string(), "analytics.public.".to_string()]
    );
}

#[test]
fn private_is_node_local() {
    let mut me = alpha();
    me.add_private_service("vault".to_string());
    assert_eq!(get_self_services(&me), "[]");
    // beta knows alpha only through what alpha publishes
    let beta = Registry::new("beta".to_string(), "http://beta:3000/".to_string());
    let mut beta_peers = vec![Registry::from_str("http://alpha:3000").unwrap()];
    assert!(apply_pulled_services(&mut beta_peers, 0, &get_self_services(&me)));
    assert!(beta_peers[0].public_services().is_empty());
    assert_eq!(
        lookup_order(&beta, &beta_peers, "vault.private."),
        vec!["vault.private.".to_string()]
    );
}

#[test]
fn self_registration() {
    let mut peers: Vec<Registry> = vec![];
    let outcome = put_registry_services(&mut peers, "http://gamma:3000", "[\"x\"]");
    assert_eq!(outcome, PutOutcome::Success);
    assert_eq!(peers.len(), 1);
    assert_eq!(peers[0].hostname(), "gamma");
    assert_eq!(peers[0].url(), "http://gamma:3000/");
    assert!(peers[0].public_services().is_empty());
    // the next push finds it under its hostname
    assert_eq!(put_registry_services(&mut peers, "gamma", "[\"x\"]"), PutOutcome::Success);
    assert_eq!(peers[0].public_services(), &vec!["x".to_string()]);
    assert_eq!(peers.len(), 1);
}

#[test]
fn put_rejects_bad_input() {
    let mut peers = vec![Registry::from_str("http://beta:3000").unwrap()];
    let outcome = put_registry_services(&mut peers, "beta", "not json");
    assert_eq!(outcome, PutOutcome::InvalidServices);
    assert_eq!(outcome.as_str(), "Invalid services");
    assert_eq!(put_registry_services(&mut peers, "beta", "[1, 2]"), PutOutcome::InvalidServices);
    let outcome = put_registry_services(&mut peers, "nobody", "[]");
    assert_eq!(outcome, PutOutcome::InvalidRegistry);
    assert_eq!(outcome.as_str(), "Invalid registry");
    assert_eq!(peers.len(), 1);
}

#[test]
fn get_registry_services_of_known_and_unknown_peers() {
    let mut peers = vec![Registry::from_str("http://beta:3000").unwrap()];
    assert_eq!(get_registry_services(&peers, "beta"), "[]");
    put_registry_services(&mut peers, "beta", "[\"a\",\"b\",\"a\"]");
    assert_eq!(get_registry_services(&peers, "beta"), "[\"a\",\"b\"]");
    assert_eq!(get_registry_services(&peers, "delta"), "null");
}

#[test]
fn push_then_get_round_trip() {
    let mut a = alpha();
    a.add_public_service("web".to_string());
    a.add_public_service("mail".to_string());
    let body = get_self_services(&a);
    assert_eq!(body, "[\"web\",\"mail\"]");
    let mut b_peers = vec![Registry::from_str("http://alpha:3000").unwrap()];
    assert_eq!(put_registry_services(&mut b_peers, "alpha", &body), PutOutcome::Success);
    assert_eq!(get_registry_services(&b_peers, "alpha"), body);
}

#[test]
fn pull_twice_is_pull_once() {
    let mut peers = vec![
        Registry::from_str("http://beta:3000").unwrap(),
        Registry::from_str("http://gamma:3000").unwrap(),
    ];
    assert!(apply_pulled_services(&mut peers, 1, "[\"s\",\"t\"]"));
    let first: Vec<String> = peers[1].public_services().clone();
    assert!(apply_pulled_services(&mut peers, 1, "[\"s\",\"t\"]"));
    assert_eq!(peers[1].public_services(), &first);
    assert_eq!(first, vec!["s".to_string(), "t".to_string()]);
    assert!(peers[0].public_services().is_empty());
    assert!(!apply_pulled_services(&mut peers, 1, "{}"));
    assert_eq!(peers[1].public_services(), &first);
}

#[test]
fn push_path_names_the_sender() {
    assert_eq!(push_path(&alpha()), "/api/alpha/services");
}

#[test]
fn self_registration_of_a_known_hostname_adds_nothing() {
    let mut peers = vec![Registry::from_str("http://beta:3000").unwrap()];
    put_registry_services(&mut peers, "beta", "[\"s\"]");
    let outcome = put_registry_services(&mut peers, "http://beta:3000", "[]");
    assert_eq!(outcome, PutOutcome::Success);
    assert_eq!(peers.len(), 1);
    assert_eq!(peers[0].public_services(), &vec!["s".to_string()]);
    assert_eq!(put_registry_services(&mut peers, "http://beta:4000", "[]"), PutOutcome::Success);
    assert_eq!(peers.len(), 1);
}
