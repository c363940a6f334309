use vstd::prelude::*;

use crate::bindings::{dns_name_text, parse_dns_name, parse_url, url_parse};

verus! {

/// The texts that a sequence of strings holds, in order.
pub open spec fn texts(v: Seq<String>) -> Seq<Seq<char>> {
    v.map_values(|s: String| s@)
}

/// `s` with each item kept only at its first place.
pub open spec fn dedup(s: Seq<Seq<char>>) -> Seq<Seq<char>>
    decreases s.len(),
{
    if s.len() == 0 {
        s
    } else {
        let d = dedup(s.drop_last());
        if d.contains(s.last()) {
            d
        } else {
            d.push(s.last())
        }
    }
}

/// `s` without the item `x`.
pub open spec fn without(s: Seq<Seq<char>>, x: Seq<char>) -> Seq<Seq<char>>
    decreases s.len(),
{
    if s.len() == 0 {
        s
    } else {
        let w = without(s.drop_last(), x);
        if s.last() == x {
            w
        } else {
            w.push(s.last())
        }
    }
}

pub proof fn lemma_dedup_contents(s: Seq<Seq<char>>)
    ensures
        dedup(s).no_duplicates(),
        dedup(s).to_set() == s.to_set(),
    decreases s.len(),
{
    if s.len() > 0 {
        lemma_dedup_contents(s.drop_last());
        let d = dedup(s.drop_last());
        assert(s =~= s.drop_last().push(s.last()));
        if !d.contains(s.last()) {
            assert(d.push(s.last()).to_set() =~= d.to_set().insert(s.last())) by {
                d.lemma_push_to_set_commute(s.last());
            }
        }
        s.drop_last().lemma_push_to_set_commute(s.last());
        assert(s.drop_last().to_set().contains(s.last()) ==> d.to_set().contains(s.last()));
        assert(d.contains(s.last()) ==> d.to_set().insert(s.last()) =~= d.to_set());
    } else {
        assert(s.to_set() =~= Set::<Seq<char>>::empty());
        assert(dedup(s).to_set() =~= Set::<Seq<char>>::empty());
    }
}

pub proof fn lemma_without_contents(s: Seq<Seq<char>>, x: Seq<char>)
    requires
        s.no_duplicates(),
    ensures
        without(s, x).no_duplicates(),
        without(s, x).to_set() == s.to_set().remove(x),
    decreases s.len(),
{
    if s.len() > 0 {
        let p = s.drop_last();
        assert(p.no_duplicates());
        lemma_without_contents(p, x);
        let w = without(p, x);
        assert(s =~= p.push(s.last()));
        p.lemma_push_to_set_commute(s.last());
        assert(!p.contains(s.last()));
        if s.last() != x {
            w.lemma_push_to_set_commute(s.last());
            assert(!p.to_set().contains(s.last()));
            assert(!w.to_set().contains(s.last()));
            assert(!w.contains(s.last()));
            assert(w.push(s.last()).to_set() =~= s.to_set().remove(x));
        } else {
            assert(w.to_set() =~= s.to_set().remove(x));
        }
    } else {
        assert(s.to_set().remove(x) =~= Set::<Seq<char>>::empty());
        assert(without(s, x).to_set() =~= Set::<Seq<char>>::empty());
    }
}

/// What a registry is, as plain values. Each list of services holds a name at
/// most once; its order is the order in which the names came.
pub struct RegistryModel {
    pub hostname: Seq<char>,
    pub url: Seq<char>,
    pub public: Seq<Seq<char>>,
    pub private: Seq<Seq<char>>,
}

/// One node of the federation: its identity (hostname and base URL), fixed at
/// construction, and the services it is known to expose.
#[derive(Clone)]
pub struct Registry {
    hostname: String,
    url: String,
    public_services: Vec<String>,
    private_services: Vec<String>,
}

/// Why a URL does not name a registry.
#[derive(Clone, Copy, Debug, PartialEq, Eq, Structural)]
pub enum RegistryError {
    InvalidUrl,
    MissingHost,
    InvalidHostname,
}

/// The registry that `Registry::from_str` makes of the text `s`.
pub open spec fn registry_of_url(s: Seq<char>) -> Result<RegistryModel, RegistryError> {
    match url_parse(s) {
        None => Err(RegistryError::InvalidUrl),
        Some((url, None)) => Err(RegistryError::MissingHost),
        Some((url, Some(host))) => match dns_name_text(host) {
            None => Err(RegistryError::InvalidHostname),
            Some(name) => Ok(RegistryModel { hostname: name, url, public: Seq::empty(), private: Seq::empty() }),
        },
    }
}

impl View for Registry {
    type V = RegistryModel;

    closed spec fn view(&self) -> RegistryModel {
        RegistryModel {
            hostname: self.hostname@,
            url: self.url@,
            public: texts(self.public_services@),
            private: texts(self.private_services@),
        }
    }
}

/// Whether `v` holds `name`, by string equality.
fn holds(v: &Vec<String>, name: &str) -> (r: bool)
    ensures
        r == texts(v@).contains(name@),
{
    let target = String::from_str(name);
    let mut i: usize = 0;
    while i < v.len()
        invariant
            0 <= i <= v@.len(),
            target@ == name@,
            forall|k: int| 0 <= k < i ==> v@[k]@ != name@,
        decreases v@.len() - i,
    {
        if v[i].eq(&target) {
            proof {
                assert(texts(v@)[i as int] == name@);
            }
            return true;
        }
        i = i + 1;
    }
    proof {
        if texts(v@).contains(name@) {
            let k = texts(v@).index_of(name@);
        }
    }
    false
}

/// The items of `v`, each kept at its first place.
fn deduplicated(v: Vec<String>) -> (r: Vec<String>)
    ensures
        texts(r@) == dedup(texts(v@)),
{
    let mut r: Vec<String> = Vec::new();
    let mut i: usize = 0;
    while i < v.len()
        invariant
            0 <= i <= v@.len(),
            texts(r@) == dedup(texts(v@).subrange(0, i as int)),
        decreases v@.len() - i,
    {
        let s = v[i].clone();
        proof {
            assert(texts(v@).subrange(0, i + 1).drop_last() =~= texts(v@).subrange(0, i as int));
        }
        if !holds(&r, s.as_str()) {
            r.push(s);
            assert(texts(r@) =~= dedup(texts(v@).subrange(0, i + 1)));
        }
        i = i + 1;
    }
    assert(texts(v@).subrange(0, v@.len() as int) =~= texts(v@));
    r
}

/// `v` without the item `name`.
fn removed(v: &Vec<String>, name: &str) -> (r: Vec<String>)
    ensures
        texts(r@) == without(texts(v@), name@),
{
    let target = String::from_str(name);
    let mut r: Vec<String> = Vec::new();
    let mut i: usize = 0;
    while i < v.len()
        invariant
            0 <= i <= v@.len(),
            target@ == name@,
            texts(r@) == without(texts(v@).subrange(0, i as int), name@),
        decreases v@.len() - i,
    {
        proof {
            assert(texts(v@).subrange(0, i + 1).drop_last() =~= texts(v@).subrange(0, i as int));
        }
        if !v[i].eq(&target) {
            r.push(v[i].clone());
            assert(texts(r@) =~= without(texts(v@).subrange(0, i + 1), name@));
        }
        i = i + 1;
    }
    assert(texts(v@).subrange(0, v@.len() as int) =~= texts(v@));
    r
}

impl Registry {
    /// Each list of services holds a name at most once.
    pub closed spec fn wf(&self) -> bool {
        texts(self.public_services@).no_duplicates() && texts(self.private_services@).no_duplicates()
    }

    pub fn new(hostname: String, url: String) -> (r: Registry)
        ensures
            r.wf(),
            r@ == (RegistryModel { hostname: hostname@, url: url@, public: Seq::empty(), private: Seq::empty() }),
    {
        let r = Registry { hostname, url, public_services: Vec::new(), private_services: Vec::new() };
        assert(r@.public =~= Seq::<Seq<char>>::empty());
        assert(r@.private =~= Seq::<Seq<char>>::empty());
        r
    }

    /// The registry of the node that `s`, a URL, points at: the hostname is the
    /// URL's host read as a domain name; both lists of services are empty.
    pub fn from_str(s: &str) -> (r: Result<Registry, RegistryError>)
        ensures
            match r {
                Ok(reg) => reg.wf() && registry_of_url(s@) == Ok::<RegistryModel, RegistryError>(reg@),
                Err(e) => registry_of_url(s@) == Err::<RegistryModel, RegistryError>(e),
            },
    {
        match parse_url(s) {
            None => Err(RegistryError::InvalidUrl),
            Some((url, None)) => Err(RegistryError::MissingHost),
            Some((url, Some(host))) => match parse_dns_name(host.as_str()) {
                None => Err(RegistryError::InvalidHostname),
                Some(name) => Ok(Registry::new(name, url)),
            },
        }
    }

    /// A registry from its stored form: `hostname` must parse as a domain name
    /// and `url` as a URL; both are kept in their normal text form. No services.
    pub fn from_parts(hostname: &str, url: &str) -> (r: Result<Registry, RegistryError>)
        ensures
            match r {
                Ok(reg) => reg.wf() && dns_name_text(hostname@) == Some(reg@.hostname) && (url_parse(url@) matches Some(
                    p,
                ) && p.0 == reg@.url) && reg@.public.len() == 0 && reg@.private.len() == 0,
                Err(e) => (dns_name_text(hostname@) is None && e == RegistryError::InvalidHostname) || (dns_name_text(
                    hostname@,
                ) is Some && url_parse(url@) is None && e == RegistryError::InvalidUrl),
            },
    {
        let name = match parse_dns_name(hostname) {
            None => return Err(RegistryError::InvalidHostname),
            Some(n) => n,
        };
        match parse_url(url) {
            None => Err(RegistryError::InvalidUrl),
            Some((serialized, _)) => Ok(Registry::new(name, serialized)),
        }
    }

    pub fn hostname(&self) -> (r: &String)
        ensures
            r@ == self@.hostname,
    {
        &self.hostname
    }

    pub fn url(&self) -> (r: &String)
        ensures
            r@ == self@.url,
    {
        &self.url
    }

    pub fn public_services(&self) -> (r: &Vec<String>)
        ensures
            texts(r@) == self@.public,
    {
        &self.public_services
    }

    pub fn private_services(&self) -> (r: &Vec<String>)
        ensures
            texts(r@) == self@.private,
    {
        &self.private_services
    }

    pub fn has_public_service(&self, service: &str) -> (r: bool)
        ensures
            r == self@.public.contains(service@),
    {
        holds(&self.public_services, service)
    }

    pub fn has_private_service(&self, service: &str) -> (r: bool)
        ensures
            r == self@.private.contains(service@),
    {
        holds(&self.private_services, service)
    }

    /// Adds `service` to the public services, at the end unless it is there already.
    pub fn add_public_service(&mut self, service: String)
        requires
            old(self).wf(),
        ensures
            final(self).wf(),
            final(self)@ == (RegistryModel { public: dedup(old(self)@.public.push(service@)), ..old(self)@ }),
    {
        proof { lemma_dedup_of_list_push(self.public_services@, service@); }
        if !holds(&self.public_services, service.as_str()) {
            self.public_services.push(service);
            assert(texts(self.public_services@) =~= texts(old(self).public_services@).push(service@));
        }
    }

    /// Adds `service` to the private services, at the end unless it is there already.
    pub fn add_private_service(&mut self, service: String)
        requires
            old(self).wf(),
        ensures
            final(self).wf(),
            final(self)@ == (RegistryModel { private: dedup(old(self)@.private.push(service@)), ..old(self)@ }),
    {
        proof { lemma_dedup_of_list_push(self.private_services@, service@); }
        if !holds(&self.private_services, service.as_str()) {
            self.private_services.push(service);
            assert(texts(self.private_services@) =~= texts(old(self).private_services@).push(service@));
        }
    }

    pub fn clear_public_services(&mut self)
        requires
            old(self).wf(),
        ensures
            final(self).wf(),
            final(self)@ == (RegistryModel { public: Seq::empty(), ..old(self)@ }),
    {
        self.public_services = Vec::new();
        assert(texts(self.public_services@) =~= Seq::<Seq<char>>::empty());
    }

    pub fn clear_private_services(&mut self)
        requires
            old(self).wf(),
        ensures
            final(self).wf(),
            final(self)@ == (RegistryModel { private: Seq::empty(), ..old(self)@ }),
    {
        self.private_services = Vec::new();
        assert(texts(self.private_services@) =~= Seq::<Seq<char>>::empty());
    }

    /// Takes `service` out of the public services.
    pub fn remove_public_service(&mut self, service: &str)
        requires
            old(self).wf(),
        ensures
            final(self).wf(),
            final(self)@ == (RegistryModel { public: without(old(self)@.public, service@), ..old(self)@ }),
    {
        proof { lemma_without_contents(texts(self.public_services@), service@); }
        self.public_services = removed(&self.public_services, service);
    }

    /// Takes `service` out of the private services.
    pub fn remove_private_service(&mut self, service: &str)
        requires
            old(self).wf(),
        ensures
            final(self).wf(),
            final(self)@ == (RegistryModel { private: without(old(self)@.private, service@), ..old(self)@ }),
    {
        proof { lemma_without_contents(texts(self.private_services@), service@); }
        self.private_services = removed(&self.private_services, service);
    }

    /// Replaces the public services by `services`, each kept once, in order.
    pub fn flush_public_services(&mut self, services: Vec<String>)
        requires
            old(self).wf(),
        ensures
            final(self).wf(),
            final(self)@ == (RegistryModel { public: dedup(texts(services@)), ..old(self)@ }),
    {
        proof { lemma_dedup_contents(texts(services@)); }
        self.public_services = deduplicated(services);
    }
}

/// Where `v` holds no item twice, `dedup` of `v` and one more item is `v`,
/// with the item at the end unless `v` holds it.
proof fn lemma_dedup_of_list_push(v: Seq<String>, x: Seq<char>)
    requires
        texts(v).no_duplicates(),
    ensures
        dedup(texts(v).push(x)) == if texts(v).contains(x) { texts(v) } else { texts(v).push(x) },
{
    lemma_dedup_of_distinct(texts(v));
    assert(texts(v).push(x).drop_last() =~= texts(v));
}

/// `dedup` leaves a sequence without repeated items as it is.
pub proof fn lemma_dedup_of_distinct(s: Seq<Seq<char>>)
    requires
        s.no_duplicates(),
    ensures
        dedup(s) == s,
    decreases s.len(),
{
    if s.len() > 0 {
        let p = s.drop_last();
        assert(p.no_duplicates());
        lemma_dedup_of_distinct(p);
        assert(!p.contains(s.last()));
        assert(p.push(s.last()) =~= s);
    }
}

} // verus!
