use registry_dns::registry::Registry;
use registry_dns::resolver::{lookup_order, next_action, service_key, DnsAction};

#[test]
fn tld_stripping() {
    assert_eq!(service_key("svc.public."), "svc");
    assert_eq!(service_key("svc.private."), "svc");
    assert_eq!(service_key("svc."), "svc");
    assert_eq!(service_key("sub.domain.public"), "sub.domain");
    assert_eq!(service_key("a.public.public."), "a.public");
    assert_eq!(service_key("svc.public.private."), "svc.public");
    assert_eq!(service_key("example.com."), "example.com");
    assert_eq!(service_key(""), "");
}

#[test]
fn cascade_precedence() {
    let mut me = Registry::new("alpha".to_string(), "http://alpha:3000/".to_string());
    me.add_public_service("svc".to_string());
    let mut beta = Registry::new("beta".to_string(), "http://beta:3000/".to_string());
    beta.add_public_service("svc".to_string());
    let plan = lookup_order(&me, &vec![beta], "svc.public.");
    assert_eq!(plan, vec!["alpha".to_string(), "beta".to_string(), "svc.public.".to_string()]);
    // the own hostname does not resolve: the peer is next
    match next_action(&plan, &vec![None]) {
        DnsAction::Resolve(n) => assert_eq!(n, "beta"),
        other => panic!("unexpected {:?}", other),
    }
}

#[test]
fn private_services_of_self_match() {
    let mut me = Registry::new("alpha".to_string(), "http://alpha:3000/".to_string());
    me.add_private_service("vault".to_string());
    let plan = lookup_order(&me, &vec![], "vault.private.");
    assert_eq!(plan, vec!["alpha".to_string(), "vault.private.".to_string()]);
}

#[test]
fn first_matching_peer_wins() {
    let me = Registry::new("alpha".to_string(), "http://alpha:3000/".to_string());
    let mut beta = Registry::new("beta".to_string(), "http://beta:3000/".to_string());
    beta.add_private_service("svc".to_string());
    let mut gamma = Registry::new("gamma".to_string(), "http://gamma:3000/".to_string());
    gamma.add_public_service("svc".to_string());
    let mut delta = Registry::new("delta".to_string(), "http://delta:3000/".to_string());
    delta.add_public_service("svc".to_string());
    let plan = lookup_order(&me, &vec![beta, gamma, delta], "svc.public.");
    assert_eq!(plan, vec!["gamma".to_string(), "svc.public.".to_string()]);
}

#[test]
fn unknown_service_fall_through() {
    let me = Registry::new("alpha".to_string(), "http://alpha:3000/".to_string());
    let plan = lookup_order(&me, &vec![], "nothing.public.");
    assert_eq!(plan, vec!["nothing.public.".to_string()]);
    assert!(matches!(next_action(&plan, &vec![None]), DnsAction::NxDomain));
}

#[test]
fn upstream_pass_through() {
    let me = Registry::new("alpha".to_string(), "http://alpha:3000/".to_string());
    let plan = lookup_order(&me, &vec![], "example.com.");
    assert_eq!(plan, vec!["example.com.".to_string()]);
    match next_action(&plan, &vec![]) {
        DnsAction::Resolve(n) => assert_eq!(n, "example.com."),
        other => panic!("unexpected {:?}", other),
    }
    match next_action(&plan, &vec![Some([93, 184, 216, 34])]) {
        DnsAction::Answer(rec) => {
            assert_eq!(rec.address, [93, 184, 216, 34]);
            assert_eq!(rec.ttl, 0);
        }
        other => panic!("unexpected {:?}", other),
    }
}
