//! Rebuilding the node's own registry from the labels of its running containers.
use vstd::prelude::*;

use crate::labels::{
    PRIVATE_SERVICE_TLD, PUBLIC_SERVICE_TLD, capture_service, captured_service, is_caddy_key,
    is_caddy_label, is_snippet, is_snippet_value, parse_address, tokens,
};
use crate::registry::{
    Registry, RegistryModel, dedup, lemma_dedup_contents, lemma_without_contents, texts, without,
};

verus! {

/// What the container runtime reports of one running container.
pub struct ContainerLabels {
    pub names: Vec<String>,
    pub labels: Vec<(String, String)>,
}

/// The values of the labels that hold addresses, in order.
pub open spec fn caddy_values_of(labels: Seq<(String, String)>) -> Seq<Seq<char>>
    decreases labels.len(),
{
    if labels.len() == 0 {
        Seq::empty()
    } else {
        let p = caddy_values_of(labels.drop_last());
        let (k, v) = labels.last();
        if is_caddy_key(k@) && !is_snippet(v@) { p.push(v@) } else { p }
    }
}

/// The addresses that a list of label values holds, in order.
pub open spec fn tokens_of_values(values: Seq<Seq<char>>) -> Seq<Seq<char>>
    decreases values.len(),
{
    if values.len() == 0 {
        Seq::empty()
    } else {
        tokens_of_values(values.drop_last()) + tokens(values.last())
    }
}

/// The addresses that the labels of a list of containers hold, in order.
pub open spec fn all_tokens(containers: Seq<ContainerLabels>) -> Seq<Seq<char>>
    decreases containers.len(),
{
    if containers.len() == 0 {
        Seq::empty()
    } else {
        all_tokens(containers.drop_last()) + tokens_of_values(caddy_values_of(containers.last().labels@))
    }
}

/// How an address counts: `Some((true, name))` for a public service,
/// `Some((false, name))` for a private one. The public domain is tried first.
pub open spec fn classify(a: Seq<char>) -> Option<(bool, Seq<char>)> {
    match captured_service(a, PUBLIC_SERVICE_TLD@) {
        Some(n) => Some((true, n)),
        None => match captured_service(a, PRIVATE_SERVICE_TLD@) {
            Some(n) => Some((false, n)),
            None => None,
        },
    }
}

/// The public and private lists after one more address: a name goes to the
/// list of its class and leaves the other, so the last classification wins.
pub open spec fn apply_address(
    st: (Seq<Seq<char>>, Seq<Seq<char>>),
    a: Seq<char>,
) -> (Seq<Seq<char>>, Seq<Seq<char>>) {
    match classify(a) {
        Some((true, n)) => (dedup(st.0.push(n)), without(st.1, n)),
        Some((false, n)) => (without(st.0, n), dedup(st.1.push(n))),
        None => st,
    }
}

/// The public and private lists that a sequence of addresses yields, from empty lists.
pub open spec fn harvested(addresses: Seq<Seq<char>>) -> (Seq<Seq<char>>, Seq<Seq<char>>)
    decreases addresses.len(),
{
    if addresses.len() == 0 {
        (Seq::empty(), Seq::empty())
    } else {
        apply_address(harvested(addresses.drop_last()), addresses.last())
    }
}

/// The registry `r` after a harvest over `containers`.
pub open spec fn after_harvest(r: RegistryModel, containers: Seq<ContainerLabels>) -> RegistryModel {
    RegistryModel {
        public: harvested(all_tokens(containers)).0,
        private: harvested(all_tokens(containers)).1,
        ..r
    }
}

/// `s` without the slashes it starts with.
pub open spec fn trim_leading_slashes(s: Seq<char>) -> Seq<char>
    decreases s.len(),
{
    if s.len() > 0 && s[0] == '/' { trim_leading_slashes(s.drop_first()) } else { s }
}

impl ContainerLabels {
    /// The container's first name without its leading slashes, or `unknown`.
    pub fn name(&self) -> (r: String)
        ensures
            self.names@.len() > 0 ==> r@ == trim_leading_slashes(self.names@[0]@),
            self.names@.len() == 0 ==> r@ == "unknown"@,
    {
        if self.names.len() == 0 {
            return String::from_str("unknown");
        }
        let s = self.names[0].as_str();
        let n = s.unicode_len();
        let mut i: usize = 0;
        assert(s@.skip(0) =~= s@);
        while i < n && s.get_char(i) == '/'
            invariant
                n == s@.len(),
                i <= n,
                trim_leading_slashes(s@) == trim_leading_slashes(s@.skip(i as int)),
            decreases n - i,
        {
            assert(s@.skip(i as int).drop_first() =~= s@.skip(i + 1));
            i = i + 1;
        }
        assert(s@.skip(i as int) =~= s@.subrange(i as int, n as int));
        String::from_str(s.substring_char(i, n))
    }

    /// The values of the labels that hold addresses: those whose key is
    /// `caddy` or `caddy_<n>`, except snippet definitions.
    pub fn caddy_values(&self) -> (r: Vec<String>)
        ensures
            texts(r@) == caddy_values_of(self.labels@),
    {
        let mut r: Vec<String> = Vec::new();
        let mut i: usize = 0;
        while i < self.labels.len()
            invariant
                i <= self.labels@.len(),
                texts(r@) == caddy_values_of(self.labels@.take(i as int)),
            decreases self.labels@.len() - i,
        {
            assert(self.labels@.take(i + 1).drop_last() =~= self.labels@.take(i as int));
            let (k, v) = &self.labels[i];
            if is_caddy_label(k.as_str()) && !is_snippet_value(v.as_str()) {
                r.push(v.clone());
                assert(texts(r@) =~= caddy_values_of(self.labels@.take(i as int)).push(v@));
            }
            i = i + 1;
        }
        assert(self.labels@.take(i as int) =~= self.labels@);
        r
    }
}

/// Whether a container event with action `action` rebuilds the registry: only
/// `start` does, the first event at which a container's labels are complete.
pub fn triggers_harvest(action: &str) -> (r: bool)
    ensures
        r == (action@ == "start"@),
{
    String::from_str(action).eq(&String::from_str("start"))
}

/// Applies one address to the registry's lists.
fn process_address(registry: &mut Registry, address: &str)
    requires
        old(registry).wf(),
    ensures
        final(registry).wf(),
        final(registry)@.hostname == old(registry)@.hostname,
        final(registry)@.url == old(registry)@.url,
        (final(registry)@.public, final(registry)@.private)
            == apply_address((old(registry)@.public, old(registry)@.private), address@),
{
    match capture_service(address, PUBLIC_SERVICE_TLD) {
        Some(service) => {
            registry.remove_private_service(service.as_str());
            registry.add_public_service(service);
        },
        None => match capture_service(address, PRIVATE_SERVICE_TLD) {
            Some(service) => {
                registry.remove_public_service(service.as_str());
                registry.add_private_service(service);
            },
            None => {},
        },
    }
}

/// Rebuilds the registry's service lists from the labels of `containers`: both
/// lists are cleared, then each address of each label is classified in turn.
/// The registry's identity is kept.
pub fn flush_registry_services(registry: &mut Registry, containers: &Vec<ContainerLabels>)
    requires
        old(registry).wf(),
    ensures
        final(registry).wf(),
        final(registry)@ == after_harvest(old(registry)@, containers@),
{
    registry.clear_public_services();
    registry.clear_private_services();
    let ghost start = registry@;
    assert(all_tokens(containers@.take(0)) =~= Seq::<Seq<char>>::empty());
    let mut i: usize = 0;
    while i < containers.len()
        invariant
            i <= containers@.len(),
            registry.wf(),
            registry@.hostname == old(registry)@.hostname,
            registry@.url == old(registry)@.url,
            (registry@.public, registry@.private) == harvested(all_tokens(containers@.take(i as int))),
        decreases containers@.len() - i,
    {
        let ghost before = all_tokens(containers@.take(i as int));
        assert(containers@.take(i + 1).drop_last() =~= containers@.take(i as int));
        let values = containers[i].caddy_values();
        let mut j: usize = 0;
        assert(before + tokens_of_values(texts(values@).take(0)) =~= before);
        while j < values.len()
            invariant
                j <= values@.len(),
                registry.wf(),
                registry@.hostname == old(registry)@.hostname,
                registry@.url == old(registry)@.url,
                (registry@.public, registry@.private)
                    == harvested(before + tokens_of_values(texts(values@).take(j as int))),
            decreases values@.len() - j,
        {
            let ghost mid = before + tokens_of_values(texts(values@).take(j as int));
            assert(texts(values@).take(j + 1).drop_last() =~= texts(values@).take(j as int));
            let addresses = parse_address(values[j].as_str());
            let mut k: usize = 0;
            assert(mid + texts(addresses@).take(0) =~= mid);
            while k < addresses.len()
                invariant
                    k <= addresses@.len(),
                    registry.wf(),
                    registry@.hostname == old(registry)@.hostname,
                    registry@.url == old(registry)@.url,
                    (registry@.public, registry@.private) == harvested(mid + texts(addresses@).take(k as int)),
                decreases addresses@.len() - k,
            {
                process_address(registry, addresses[k].as_str());
                assert((mid + texts(addresses@).take(k + 1)).drop_last() =~= mid + texts(addresses@).take(k as int));
                k = k + 1;
            }
            assert(texts(addresses@).take(k as int) =~= texts(addresses@));
            assert(mid + tokens(values@[j as int]@) =~= before + tokens_of_values(texts(values@).take(j + 1)));
            j = j + 1;
        }
        assert(texts(values@).take(j as int) =~= texts(values@));
        i = i + 1;
    }
    assert(containers@.take(i as int) =~= containers@);
}

/// The lists that any sequence of addresses yields hold each name at most once,
/// and no name in both.
pub proof fn lemma_harvested_disjoint(addresses: Seq<Seq<char>>)
    ensures
        harvested(addresses).0.no_duplicates(),
        harvested(addresses).1.no_duplicates(),
        forall|x: Seq<char>| #[trigger] harvested(addresses).0.contains(x) ==> !harvested(addresses).1.contains(x),
    decreases addresses.len(),
{
    if addresses.len() > 0 {
        let p = addresses.drop_last();
        lemma_harvested_disjoint(p);
        let st = harvested(p);
        match classify(addresses.last()) {
            Some((true, n)) => {
                lemma_dedup_contents(st.0.push(n));
                st.0.lemma_push_to_set_commute(n);
                lemma_without_contents(st.1, n);
                assert forall|x: Seq<char>| #[trigger] harvested(addresses).0.contains(x) implies !harvested(addresses).1.contains(x) by {
                    assert(harvested(addresses).0.to_set().contains(x));
                    if harvested(addresses).1.contains(x) {
                        assert(harvested(addresses).1.to_set().contains(x));
                        assert(st.1.to_set().contains(x));
                    }
                }
            },
            Some((false, n)) => {
                lemma_dedup_contents(st.1.push(n));
                st.1.lemma_push_to_set_commute(n);
                lemma_without_contents(st.0, n);
                assert forall|x: Seq<char>| #[trigger] harvested(addresses).0.contains(x) implies !harvested(addresses).1.contains(x) by {
                    assert(harvested(addresses).0.to_set().contains(x));
                    assert(st.0.to_set().contains(x));
                    if harvested(addresses).1.contains(x) {
                        assert(harvested(addresses).1.to_set().contains(x));
                    }
                }
            },
            None => {},
        }
    }
}

/// Right after a harvest, no service is both public and private.
pub proof fn lemma_harvest_disjoint(registry: RegistryModel, containers: Seq<ContainerLabels>)
    ensures
        forall|x: Seq<char>| #[trigger] after_harvest(registry, containers).public.contains(x)
            ==> !after_harvest(registry, containers).private.contains(x),
{
    lemma_harvested_disjoint(all_tokens(containers));
}

} // verus!
