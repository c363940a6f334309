//! The registry API between nodes: what each request answers and how it
//! changes the list of peers, and what a pull from a peer changes.
use vstd::prelude::*;

use crate::bindings::{decode_string_list, encode_string_list, json_of_string_list, json_string_list};
use crate::registry::{Registry, RegistryModel, dedup, lemma_dedup_contents, registry_of_url, texts};

verus! {

/// The path under which a node lists its own public services.
pub const SELF_SERVICES_PATH: &'static str = "/api/self/services";

/// The models of a list of registries.
pub open spec fn views(s: Seq<Registry>) -> Seq<RegistryModel> {
    s.map_values(|r: Registry| r@)
}

/// Every registry of the list is well formed.
pub open spec fn all_wf(s: Seq<Registry>) -> bool {
    forall|i: int| 0 <= i < s.len() ==> (#[trigger] s[i]).wf()
}

/// No two peers share a hostname.
pub open spec fn distinct_hostnames(peers: Seq<RegistryModel>) -> bool {
    forall|i: int, j: int| 0 <= i < j < peers.len() ==> (#[trigger] peers[i]).hostname != (#[trigger] peers[j]).hostname
}

/// The index of the first peer whose hostname is `h`.
pub open spec fn find_peer(peers: Seq<RegistryModel>, h: Seq<char>) -> Option<int>
    decreases peers.len(),
{
    if peers.len() == 0 {
        None
    } else if peers[0].hostname == h {
        Some(0)
    } else {
        match find_peer(peers.drop_first(), h) {
            Some(i) => Some(i + 1),
            None => None,
        }
    }
}

/// What a PUT of a peer's services answers.
#[derive(Clone, Copy, Debug, PartialEq, Eq, Structural)]
pub enum PutOutcome {
    Success,
    InvalidServices,
    InvalidRegistry,
}

impl PutOutcome {
    /// The body of the reply.
    pub fn as_str(&self) -> (r: &'static str)
        ensures
            *self == PutOutcome::Success ==> r@ == "Success"@,
            *self == PutOutcome::InvalidServices ==> r@ == "Invalid services"@,
            *self == PutOutcome::InvalidRegistry ==> r@ == "Invalid registry"@,
    {
        match self {
            PutOutcome::Success => "Success",
            PutOutcome::InvalidServices => "Invalid services",
            PutOutcome::InvalidRegistry => "Invalid registry",
        }
    }
}

/// The body that a GET of the services of the peer `h` answers.
pub open spec fn services_reply(peers: Seq<RegistryModel>, h: Seq<char>) -> Seq<char> {
    match find_peer(peers, h) {
        Some(i) => json_of_string_list(peers[i].public),
        None => "null"@,
    }
}

/// The peers, and the answer, after a PUT of the body `body` as the services of
/// the peer `h`. A known peer takes the listed services; an unknown `h` is read
/// as the URL of a peer, which joins with no services unless a peer with its
/// hostname is there already.
pub open spec fn put_effect(peers: Seq<RegistryModel>, h: Seq<char>, body: Seq<char>) -> (Seq<RegistryModel>, PutOutcome) {
    match find_peer(peers, h) {
        Some(i) => match json_string_list(body) {
            Some(l) => (peers.update(i, RegistryModel { public: dedup(l), ..peers[i] }), PutOutcome::Success),
            None => (peers, PutOutcome::InvalidServices),
        },
        None => match registry_of_url(h) {
            Ok(m) => match find_peer(peers, m.hostname) {
                Some(_) => (peers, PutOutcome::Success),
                None => (peers.push(m), PutOutcome::Success),
            },
            Err(_) => (peers, PutOutcome::InvalidRegistry),
        },
    }
}

/// The peers after a pull from peer `i` answered `body`, or `None` where the
/// body is no list of services.
pub open spec fn pulled(peers: Seq<RegistryModel>, i: int, body: Seq<char>) -> Option<Seq<RegistryModel>> {
    match json_string_list(body) {
        Some(l) => Some(peers.update(i, RegistryModel { public: dedup(l), ..peers[i] })),
        None => None,
    }
}

proof fn lemma_find_peer(peers: Seq<RegistryModel>, h: Seq<char>, i: int)
    requires
        0 <= i <= peers.len(),
        forall|j: int| 0 <= j < i ==> (#[trigger] peers[j]).hostname != h,
    ensures
        i < peers.len() && peers[i].hostname == h ==> find_peer(peers, h) == Some(i),
        i == peers.len() ==> find_peer(peers, h) is None,
    decreases i,
{
    if i > 0 {
        assert forall|j: int| 0 <= j < i - 1 implies (#[trigger] peers.drop_first()[j]).hostname != h by {
            assert(peers.drop_first()[j] == peers[j + 1]);
        }
        assert(peers[0].hostname != h);
        lemma_find_peer(peers.drop_first(), h, i - 1);
    }
}

/// The index of the first peer whose hostname is `hostname`.
fn position_of(registries: &Vec<Registry>, hostname: &str) -> (r: Option<usize>)
    ensures
        match r {
            Some(i) => find_peer(views(registries@), hostname@) == Some(i as int) && i < registries@.len(),
            None => find_peer(views(registries@), hostname@) is None,
        },
{
    let target = String::from_str(hostname);
    let mut i: usize = 0;
    while i < registries.len()
        invariant
            i <= registries@.len(),
            target@ == hostname@,
            forall|j: int| 0 <= j < i ==> (#[trigger] views(registries@)[j]).hostname != hostname@,
        decreases registries@.len() - i,
    {
        if registries[i].hostname().eq(&target) {
            proof { lemma_find_peer(views(registries@), hostname@, i as int); }
            return Some(i);
        }
        i = i + 1;
    }
    proof { lemma_find_peer(views(registries@), hostname@, i as int); }
    None
}

/// Replaces the public services of peer `i` by `services`.
fn flush_peer(registries: &mut Vec<Registry>, i: usize, services: Vec<String>)
    requires
        i < old(registries)@.len(),
        all_wf(old(registries)@),
    ensures
        all_wf(final(registries)@),
        views(final(registries)@) == views(old(registries)@).update(
            i as int,
            RegistryModel { public: dedup(texts(services@)), ..old(registries)@[i as int]@ },
        ),
{
    let mut r = registries.remove(i);
    assert(r == old(registries)@[i as int]);
    r.flush_public_services(services);
    registries.insert(i, r);
    assert(views(registries@) =~= views(old(registries)@).update(
        i as int,
        RegistryModel { public: dedup(texts(services@)), ..old(registries)@[i as int]@ },
    ));
    assert forall|j: int| 0 <= j < registries@.len() implies (#[trigger] registries@[j]).wf() by {
        if j != i {
            assert(registries@[j] == old(registries)@[j]);
        }
    }
}

/// The body of `GET /api/self/services`, and of each push to a peer: the JSON
/// array of the node's public services.
pub fn get_self_services(self_registry: &Registry) -> (r: String)
    ensures
        r@ == json_of_string_list(self_registry@.public),
{
    encode_string_list(self_registry.public_services())
}

/// The body of `GET /api/<hostname>/services`: the JSON array of the public
/// services of the first peer with that hostname, or `null` if there is none.
pub fn get_registry_services(registries: &Vec<Registry>, hostname: &str) -> (r: String)
    ensures
        r@ == services_reply(views(registries@), hostname@),
{
    match position_of(registries, hostname) {
        Some(i) => encode_string_list(registries[i].public_services()),
        None => String::from_str("null"),
    }
}

/// `PUT /api/<hostname>/services` with body `services`: a known peer takes the
/// listed services; an unknown hostname is read as the URL of a new peer.
pub fn put_registry_services(registries: &mut Vec<Registry>, hostname: &str, services: &str) -> (r: PutOutcome)
    requires
        all_wf(old(registries)@),
    ensures
        all_wf(final(registries)@),
        views(final(registries)@) == put_effect(views(old(registries)@), hostname@, services@).0,
        r == put_effect(views(old(registries)@), hostname@, services@).1,
        distinct_hostnames(views(old(registries)@)) ==> distinct_hostnames(views(final(registries)@)),
{
    match position_of(registries, hostname) {
        Some(i) => match decode_string_list(services) {
            Some(list) => {
                flush_peer(registries, i, list);
                assert(forall|j: int| 0 <= j < registries@.len() ==> (#[trigger] views(registries@)[j]).hostname == views(old(registries)@)[j].hostname);
                PutOutcome::Success
            },
            None => PutOutcome::InvalidServices,
        },
        None => match Registry::from_str(hostname) {
            Ok(registry) => {
                if position_of(registries, registry.hostname().as_str()).is_some() {
                    return PutOutcome::Success;
                }
                proof { lemma_find_peer_none(views(registries@), registry@.hostname); }
                registries.push(registry);
                assert(views(registries@) =~= views(old(registries)@).push(registries@.last()@));
                assert forall|j: int| 0 <= j < registries@.len() implies (#[trigger] registries@[j]).wf() by {
                    if j < old(registries)@.len() {
                        assert(registries@[j] == old(registries)@[j]);
                    }
                }
                PutOutcome::Success
            },
            Err(_) => PutOutcome::InvalidRegistry,
        },
    }
}

/// Takes the answer `body` of a pull from peer `index`: where it is a JSON array
/// of strings, they become the peer's public services and the result is `true`;
/// else nothing changes and the result is `false`.
pub fn apply_pulled_services(registries: &mut Vec<Registry>, index: usize, body: &str) -> (r: bool)
    requires
        index < old(registries)@.len(),
        all_wf(old(registries)@),
    ensures
        all_wf(final(registries)@),
        r == pulled(views(old(registries)@), index as int, body@) is Some,
        r ==> Some(views(final(registries)@)) == pulled(views(old(registries)@), index as int, body@),
        !r ==> views(final(registries)@) == views(old(registries)@),
{
    match decode_string_list(body) {
        Some(list) => {
            flush_peer(registries, index, list);
            true
        },
        None => false,
    }
}

/// The path under which the node `self_registry` pushes its services to a peer:
/// `/api/<hostname>/services`.
pub fn push_path(self_registry: &Registry) -> (r: String)
    ensures
        r@ == "/api/"@ + self_registry@.hostname + "/services"@,
{
    String::from_str("/api/").concat(self_registry.hostname().as_str()).concat("/services")
}

/// Pulling twice from a peer whose answer did not change leaves the peers as
/// the first pull left them.
pub proof fn lemma_pull_idempotent(peers: Seq<RegistryModel>, i: int, body: Seq<char>)
    requires
        0 <= i < peers.len(),
        pulled(peers, i, body) is Some,
    ensures
        pulled(pulled(peers, i, body)->0, i, body) == pulled(peers, i, body),
{
    let once = pulled(peers, i, body)->0;
    assert(once.update(i, RegistryModel { public: dedup(json_string_list(body)->0), ..once[i] }) =~= once);
}

/// After a node takes a push of the services `l` from its peer `h`, a GET of the
/// services of `h` answers exactly those services: each once, in order.
pub proof fn lemma_push_then_get(peers: Seq<RegistryModel>, h: Seq<char>, body: Seq<char>, l: Seq<Seq<char>>)
    requires
        find_peer(peers, h) is Some,
        json_string_list(body) == Some(l),
    ensures
        put_effect(peers, h, body).1 == PutOutcome::Success,
        services_reply(put_effect(peers, h, body).0, h) == json_of_string_list(dedup(l)),
        dedup(l).to_set() == l.to_set(),
{
    let after = put_effect(peers, h, body).0;
    lemma_find_peer_index(peers, h);
    lemma_find_peer_same_hostnames(peers, after, h);
    lemma_dedup_contents(l);
}

/// Where no peer has the hostname `h`, `find_peer` finds none.
proof fn lemma_find_peer_none(peers: Seq<RegistryModel>, h: Seq<char>)
    requires
        find_peer(peers, h) is None,
    ensures
        forall|j: int| 0 <= j < peers.len() ==> (#[trigger] peers[j]).hostname != h,
    decreases peers.len(),
{
    if peers.len() > 0 {
        lemma_find_peer_none(peers.drop_first(), h);
        assert forall|j: int| 0 <= j < peers.len() implies (#[trigger] peers[j]).hostname != h by {
            if j > 0 {
                assert(peers[j] == peers.drop_first()[j - 1]);
            }
        }
    }
}

proof fn lemma_find_peer_index(peers: Seq<RegistryModel>, h: Seq<char>)
    ensures
        find_peer(peers, h) matches Some(i) ==> 0 <= i < peers.len(),
    decreases peers.len(),
{
    if peers.len() > 0 {
        lemma_find_peer_index(peers.drop_first(), h);
    }
}

/// `find_peer` reads the hostnames alone.
proof fn lemma_find_peer_same_hostnames(a: Seq<RegistryModel>, b: Seq<RegistryModel>, h: Seq<char>)
    requires
        a.len() == b.len(),
        forall|j: int| 0 <= j < a.len() ==> (#[trigger] a[j]).hostname == b[j].hostname,
    ensures
        find_peer(a, h) == find_peer(b, h),
    decreases a.len(),
{
    if a.len() > 0 {
        assert forall|j: int| 0 <= j < a.drop_first().len() implies (#[trigger] a.drop_first()[j]).hostname == b.drop_first()[j].hostname by {
            assert(a.drop_first()[j] == a[j + 1]);
            assert(b.drop_first()[j] == b[j + 1]);
        }
        assert(a[0].hostname == b[0].hostname);
        lemma_find_peer_same_hostnames(a.drop_first(), b.drop_first(), h);
    }
}

} // verus!
