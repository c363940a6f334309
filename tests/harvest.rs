use registry_dns::harvest::{flush_registry_services, ContainerLabels};
use registry_dns::registry::Registry;
use registry_dns::resolver::{lookup_order, next_action, DnsAction};

fn container(name: &str, labels: &[(&str, &str)]) -> ContainerLabels {
    ContainerLabels {
        names: vec![name.to_string()],
        labels: labels.iter().map(|(k, v)| (k.to_string(), v.to_string())).collect(),
    }
}

fn alpha() -> Registry {
    Registry::new("alpha".to_string(), "http://0.0.0.0:3000/".to_string())
}

#[test]
fn self_only_match() {
    let mut me = alpha();
    flush_registry_services(&mut me, &vec![container("/billing", &[("caddy", "billing.public")])]);
    assert_eq!(me.public_services(), &vec!["billing".to_string()]);
    assert!(me.private_services().is_empty());
    let plan = lookup_order(&me, &vec![], "billing.public.");
    assert_eq!(plan, vec!["alpha".to_string(), "billing.public.".to_string()]);
    match next_action(&plan, &vec![]) {
        DnsAction::Resolve(n) => assert_eq!(n, "alpha"),
        other => panic!("unexpected {:?}", other),
    }
    match next_action(&plan, &vec![Some([10, 0, 0, 1])]) {
        DnsAction::Answer(rec) => {
            assert_eq!(rec.address, [10, 0, 0, 1]);
            assert_eq!(rec.ttl, 0);
        }
        other => panic!("unexpected {:?}", other),
    }
}

#[test]
fn harvest_idempotence() {
    let mut me = alpha();
    me.add_public_service("a".to_string());
    let containers = vec![container("c", &[("caddy", "a.public")])];
    flush_registry_services(&mut me, &containers);
    assert_eq!(me.public_services(), &vec!["a".to_string()]);
    flush_registry_services(&mut me, &containers);
    assert_eq!(me.public_services(), &vec!["a".to_string()]);
    assert_eq!(me.hostname(), "alpha");
}

#[test]
fn harvest_clears_previous_services() {
    let mut me = alpha();
    me.add_public_service("old".to_string());
    me.add_private_service("older".to_string());
    flush_registry_services(&mut me, &vec![]);
    assert!(me.public_services().is_empty());
    assert!(me.private_services().is_empty());
}

#[test]
fn harvest_last_classification_wins() {
    let mut me = alpha();
    let containers = vec![
        container("one", &[("caddy", "x.public, y.private")]),
        container("two", &[("caddy_1", "http://x.private:80 y.public")]),
    ];
    flush_registry_services(&mut me, &containers);
    assert_eq!(me.public_services(), &vec!["y".to_string()]);
    assert_eq!(me.private_services(), &vec!["x".to_string()]);
    for s in me.public_services() {
        assert!(!me.private_services().contains(s));
    }
}

#[test]
fn harvest_skips_snippets_and_other_labels() {
    let mut me = alpha();
    let containers = vec![container(
        "web",
        &[
            ("caddy", "(common.public)"),
            ("caddy.reverse_proxy", "proxy.public"),
            ("caddy_2", "shop.public:443,,admin.private"),
            ("traefik", "other.public"),
        ],
    )];
    flush_registry_services(&mut me, &containers);
    assert_eq!(me.public_services(), &vec!["shop".to_string()]);
    assert_eq!(me.private_services(), &vec!["admin".to_string()]);
}

#[test]
fn container_names() {
    assert_eq!(container("//web", &[]).name(), "web");
    assert_eq!(ContainerLabels { names: vec![], labels: vec![] }.name(), "unknown");
    let labels = container("c", &[("caddy", "a.public"), ("caddy", "(s)"), ("x", "b.public")]);
    assert_eq!(labels.caddy_values(), vec!["a.public".to_string()]);
}
