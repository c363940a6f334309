//! DNS resolution: which names to resolve for a query, in which order, and
//! what to answer once the host resolver has spoken.
use vstd::prelude::*;

use crate::labels::{PRIVATE_SERVICE_TLD, PUBLIC_SERVICE_TLD, carries_at, has_at};
use crate::registry::{Registry, RegistryModel};

verus! {

/// Time to live, in seconds, of the records that the resolution cascade synthesizes.
pub const RECORD_TTL: u32 = 0;

pub open spec fn ends_with(s: Seq<char>, suffix: Seq<char>) -> bool {
    s.len() >= suffix.len() && has_at(s, s.len() - suffix.len(), suffix)
}

/// `s` without `suffix`, where it ends with it.
pub open spec fn strip_suffix(s: Seq<char>, suffix: Seq<char>) -> Seq<char> {
    if ends_with(s, suffix) { s.take(s.len() - suffix.len()) } else { s }
}

/// The service that a query name asks for: the name without its final dot, then
/// without one `.public` or else one `.private` ending.
pub open spec fn service_key_of(name: Seq<char>) -> Seq<char> {
    let n = strip_suffix(name, "."@);
    let public = "."@ + PUBLIC_SERVICE_TLD@;
    if ends_with(n, public) {
        strip_suffix(n, public)
    } else {
        strip_suffix(n, "."@ + PRIVATE_SERVICE_TLD@)
    }
}

/// The hostname of the first peer that lists `key` among its public services.
pub open spec fn peer_hit(peers: Seq<Registry>, key: Seq<char>) -> Option<Seq<char>>
    decreases peers.len(),
{
    if peers.len() == 0 {
        None
    } else if peers[0]@.public.contains(key) {
        Some(peers[0]@.hostname)
    } else {
        peer_hit(peers.drop_first(), key)
    }
}

/// The names to hand the host resolver for the query `query`, in order: the
/// node's own hostname where it offers the service (publicly or privately), the
/// hostname of the first peer that offers it publicly, and the query itself.
pub open spec fn lookup_plan(own: RegistryModel, peers: Seq<Registry>, query: Seq<char>) -> Seq<Seq<char>> {
    let key = service_key_of(query);
    let mine = if own.public.contains(key) || own.private.contains(key) {
        seq![own.hostname]
    } else {
        Seq::empty()
    };
    let theirs = match peer_hit(peers, key) {
        Some(h) => seq![h],
        None => Seq::empty(),
    };
    mine + theirs + seq![query]
}

/// The first address among the outcomes of the lookups made so far.
pub open spec fn first_found(outcomes: Seq<Option<[u8; 4]>>) -> Option<[u8; 4]>
    decreases outcomes.len(),
{
    if outcomes.len() == 0 {
        None
    } else {
        match outcomes[0] {
            Some(a) => Some(a),
            None => first_found(outcomes.drop_first()),
        }
    }
}

/// An `A` record: an IPv4 address and a time to live.
#[derive(Clone, Copy, Debug)]
pub struct ARecord {
    pub address: [u8; 4],
    pub ttl: u32,
}

/// What to do next on a query.
#[derive(Debug)]
pub enum DnsAction {
    /// Hand this name to the host resolver, then report its IPv4 address, if any.
    Resolve(String),
    /// Reply with this record.
    Answer(ARecord),
    /// Reply that the name does not exist.
    NxDomain,
}

/// The service key of a query name: without its final dot, then without one
/// `.public` or else one `.private` ending.
pub fn service_key(name: &str) -> (r: String)
    ensures
        r@ == service_key_of(name@),
{
    let n = name.unicode_len();
    let m: usize = if n >= 1 && carries_at(name, n - 1, ".") { n - 1 } else { n };
    proof {
        assert(("."@).len() == 1) by { reveal_strlit("."); }
        assert(strip_suffix(name@, "."@) =~= name@.take(m as int));
    }
    let trimmed = name.substring_char(0, m);
    let public = String::from_str(".").concat(PUBLIC_SERVICE_TLD);
    let private = String::from_str(".").concat(PRIVATE_SERVICE_TLD);
    let p = public.as_str().unicode_len();
    if m >= p && carries_at(trimmed, m - p, public.as_str()) {
        return String::from_str(trimmed.substring_char(0, m - p));
    }
    let q = private.as_str().unicode_len();
    if m >= q && carries_at(trimmed, m - q, private.as_str()) {
        return String::from_str(trimmed.substring_char(0, m - q));
    }
    String::from_str(trimmed)
}

/// The names to resolve for `query`, in the order in which they are tried.
pub fn lookup_order(self_registry: &Registry, registries: &Vec<Registry>, query: &str) -> (r: Vec<String>)
    ensures
        r.deep_view() == lookup_plan(self_registry@, registries@, query@),
{
    let key = service_key(query);
    let mut plan: Vec<String> = Vec::new();
    if self_registry.has_public_service(key.as_str()) || self_registry.has_private_service(key.as_str()) {
        plan.push(self_registry.hostname().clone());
    }
    let ghost mine = plan.deep_view();
    let mut i: usize = 0;
    assert(registries@.skip(0) =~= registries@);
    while i < registries.len() && !registries[i].has_public_service(key.as_str())
        invariant
            i <= registries@.len(),
            peer_hit(registries@, key@) == peer_hit(registries@.skip(i as int), key@),
        decreases registries@.len() - i,
    {
        assert(registries@.skip(i as int).drop_first() =~= registries@.skip(i + 1));
        i = i + 1;
    }
    if i < registries.len() {
        assert(registries@.skip(i as int)[0] == registries@[i as int]);
        plan.push(registries[i].hostname().clone());
    } else {
        assert(registries@.skip(i as int) =~= Seq::<Registry>::empty());
    }
    plan.push(String::from_str(query));
    assert(plan.deep_view() =~= lookup_plan(self_registry@, registries@, query@));
    plan
}

/// The step of the resolution cascade after the lookups whose outcomes are
/// `outcomes`, made on the first names of `plan`: answer with the first address
/// found; else resolve the next name; else reply that the name does not exist.
pub fn next_action(plan: &Vec<String>, outcomes: &Vec<Option<[u8; 4]>>) -> (r: DnsAction)
    ensures
        match first_found(outcomes@) {
            Some(a) => r == DnsAction::Answer(ARecord { address: a, ttl: RECORD_TTL }),
            None => if outcomes@.len() < plan@.len() {
                r matches DnsAction::Resolve(n) && n@ == plan@[outcomes@.len() as int]@
            } else {
                r matches DnsAction::NxDomain
            },
        },
{
    let mut i: usize = 0;
    assert(outcomes@.skip(0) =~= outcomes@);
    while i < outcomes.len()
        invariant
            i <= outcomes@.len(),
            first_found(outcomes@) == first_found(outcomes@.skip(i as int)),
        decreases outcomes@.len() - i,
    {
        assert(outcomes@.skip(i as int).drop_first() =~= outcomes@.skip(i + 1));
        if let Some(a) = outcomes[i] {
            return DnsAction::Answer(ARecord { address: a, ttl: RECORD_TTL });
        }
        i = i + 1;
    }
    assert(outcomes@.skip(i as int) =~= Seq::<Option<[u8; 4]>>::empty());
    if outcomes.len() < plan.len() {
        DnsAction::Resolve(plan[outcomes.len()].clone())
    } else {
        DnsAction::NxDomain
    }
}

/// Where the node itself offers the service that a query asks for, its own
/// hostname is the first name resolved, ahead of every peer.
pub proof fn lemma_self_precedes_peers(own: RegistryModel, peers: Seq<Registry>, query: Seq<char>)
    requires
        own.public.contains(service_key_of(query)) || own.private.contains(service_key_of(query)),
    ensures
        lookup_plan(own, peers, query)[0] == own.hostname,
{
}

/// `svc.public.`, `svc.private.` and `svc.` all ask for the service `svc`,
/// where `svc` itself does not end in `.public` or `.private`.
pub proof fn lemma_tld_stripping(svc: Seq<char>)
    requires
        !ends_with(svc, "."@ + PUBLIC_SERVICE_TLD@),
        !ends_with(svc, "."@ + PRIVATE_SERVICE_TLD@),
    ensures
        service_key_of(svc + "."@ + PUBLIC_SERVICE_TLD@ + "."@) == svc,
        service_key_of(svc + "."@ + PRIVATE_SERVICE_TLD@ + "."@) == svc,
        service_key_of(svc + "."@) == svc,
{
    let dot = "."@;
    let public = dot + PUBLIC_SERVICE_TLD@;
    let private = dot + PRIVATE_SERVICE_TLD@;
    lemma_strip_appended(svc + public, dot);
    lemma_strip_appended(svc + private, dot);
    lemma_strip_appended(svc, dot);
    assert(svc + "."@ + PUBLIC_SERVICE_TLD@ =~= svc + public);
    assert(svc + "."@ + PRIVATE_SERVICE_TLD@ =~= svc + private);
    lemma_strip_appended(svc, public);
    lemma_strip_appended(svc, private);
    proof_public_not_private(svc);
}

/// `s` followed by `t` ends with `t`, and stripping `t` gives `s` back.
proof fn lemma_strip_appended(s: Seq<char>, t: Seq<char>)
    ensures
        ends_with(s + t, t),
        strip_suffix(s + t, t) == s,
{
    assert((s + t).subrange(s.len() as int, (s + t).len() as int) =~= t);
    assert((s + t).take(s.len() as int) =~= s);
}

/// No name that ends in `.private` ends in `.public`.
proof fn proof_public_not_private(svc: Seq<char>)
    ensures
        !ends_with(svc + "."@ + PRIVATE_SERVICE_TLD@, "."@ + PUBLIC_SERVICE_TLD@),
{
    reveal_strlit(".");
    reveal_strlit("public");
    reveal_strlit("private");
    let n = svc + "."@ + PRIVATE_SERVICE_TLD@;
    let p = "."@ + PUBLIC_SERVICE_TLD@;
    if ends_with(n, p) {
        assert(n[n.len() - 1] == 'e');
        assert(p[p.len() - 1] == 'c');
        assert(n.subrange(n.len() - p.len(), n.len() as int)[p.len() - 1] == n[n.len() - 1]);
    }
}

/// No peer in `peers` lists `key`: then no peer is hit.
proof fn lemma_no_peer_hit(peers: Seq<Registry>, key: Seq<char>)
    requires
        forall|i: int| 0 <= i < peers.len() ==> !(#[trigger] peers[i]@.public.contains(key)),
    ensures
        peer_hit(peers, key) is None,
    decreases peers.len(),
{
    if peers.len() > 0 {
        assert(!peers[0]@.public.contains(key));
        assert forall|i: int| 0 <= i < peers.drop_first().len() implies !(#[trigger] peers.drop_first()[i]@.public.contains(key)) by {
            assert(peers.drop_first()[i] == peers[i + 1]);
        }
        lemma_no_peer_hit(peers.drop_first(), key);
    }
}

/// A query for a service that no registry offers goes to the host resolver
/// under its own name alone; when that lookup finds nothing, no address is
/// found at all and the cascade replies that the name does not exist.
pub proof fn lemma_unknown_falls_through(own: RegistryModel, peers: Seq<Registry>, query: Seq<char>)
    requires
        !own.public.contains(service_key_of(query)),
        !own.private.contains(service_key_of(query)),
        forall|i: int| 0 <= i < peers.len() ==> !(#[trigger] peers[i]@.public.contains(service_key_of(query))),
    ensures
        lookup_plan(own, peers, query) == seq![query],
        first_found(seq![None::<[u8; 4]>]) is None,
        seq![None::<[u8; 4]>].len() == lookup_plan(own, peers, query).len(),
{
    lemma_no_peer_hit(peers, service_key_of(query));
    assert(lookup_plan(own, peers, query) =~= seq![query]);
    let none = seq![None::<[u8; 4]>];
    assert(none.drop_first() =~= Seq::<Option<[u8; 4]>>::empty());
    assert(first_found(none.drop_first()) is None);
    assert(none[0] is None);
}

} // verus!
