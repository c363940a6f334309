//! The node's configuration, as read from the environment, and its validation.
use vstd::prelude::*;

use crate::bindings::{parse_dns_name, parse_url, dns_name_text, url_parse};
use crate::labels::{split_on, words};
use crate::registry::{Registry, RegistryError, RegistryModel, registry_of_url, texts};
use crate::api::{all_wf, views};

verus! {

pub const SERVER_LISTEN_ENV: &'static str = "DNS_SERVER_LISTEN";
pub const DEFAULT_SERVER_LISTEN: &'static str = "0.0.0.0:53";
pub const REGISTRY_LISTEN_ENV: &'static str = "SERVICE_REGISTRY_LISTEN";
pub const DEFAULT_REGISTRY_LISTEN: &'static str = "0.0.0.0:3000";
pub const REGISTRY_HOSTNAME_ENV: &'static str = "SELF_HOSTNAME";
pub const REGISTRY_URLS_ENV: &'static str = "REGISTRY_URLS";

/// The message for a variable `key` whose value `value` does not parse.
pub fn create_error_msg(key: &str, value: &str) -> (r: String)
    ensures
        r@ == "Failed to parse environment variable `"@ + key@ + "` with value `"@ + value@ + "`."@,
{
    String::from_str("Failed to parse environment variable `").concat(key).concat("` with value `").concat(value).concat(
        "`.",
    )
}

/// A configuration error, as plain values.
pub enum EnvErrorModel {
    NotFound(Seq<char>),
    Invalid(Seq<char>, Seq<char>),
    InvalidUrl(Seq<char>),
    Registry(Seq<char>, RegistryError),
}

/// Why the configuration is refused.
#[derive(Debug)]
pub enum EnvError {
    /// A required variable is not set.
    NotFound(String),
    /// A variable (first) holds a value (second) that does not parse.
    Invalid(String, String),
    /// The node's own URL, made of its listen address, does not parse.
    InvalidUrl(String),
    /// A peer URL does not name a registry.
    Registry(String, RegistryError),
}

impl View for EnvError {
    type V = EnvErrorModel;

    open spec fn view(&self) -> EnvErrorModel {
        match self {
            EnvError::NotFound(k) => EnvErrorModel::NotFound(k@),
            EnvError::Invalid(k, v) => EnvErrorModel::Invalid(k@, v@),
            EnvError::InvalidUrl(u) => EnvErrorModel::InvalidUrl(u@),
            EnvError::Registry(u, e) => EnvErrorModel::Registry(u@, *e),
        }
    }
}

impl EnvError {
    /// A message for the error, to report at startup.
    pub fn message(&self) -> (r: String)
        ensures
            self matches EnvError::Invalid(k, v) ==> r@ == "Failed to parse environment variable `"@ + k@
                + "` with value `"@ + v@ + "`."@,
            self matches EnvError::NotFound(k) ==> r@ == "Environment variable `"@ + k@ + "` not found."@,
            self matches EnvError::InvalidUrl(u) ==> r@ == "Failed to parse URL `"@ + u@ + "`."@,
            self matches EnvError::Registry(u, RegistryError::InvalidUrl) ==> r@ == "Failed to parse URL `"@ + u@
                + "`."@,
            self matches EnvError::Registry(u, RegistryError::MissingHost) ==> r@ == "No hostname found in URL `"@
                + u@ + "`."@,
            self matches EnvError::Registry(u, RegistryError::InvalidHostname) ==> r@
                == "Failed to parse hostname in URL `"@ + u@ + "`."@,
    {
        match self {
            EnvError::NotFound(k) => String::from_str("Environment variable `").concat(k.as_str()).concat(
                "` not found.",
            ),
            EnvError::Invalid(k, v) => create_error_msg(k.as_str(), v.as_str()),
            EnvError::InvalidUrl(u) => String::from_str("Failed to parse URL `").concat(u.as_str()).concat("`."),
            EnvError::Registry(u, e) => match e {
                RegistryError::InvalidUrl => String::from_str("Failed to parse URL `").concat(u.as_str()).concat(
                    "`.",
                ),
                RegistryError::MissingHost => String::from_str("No hostname found in URL `").concat(
                    u.as_str(),
                ).concat("`."),
                RegistryError::InvalidHostname => String::from_str("Failed to parse hostname in URL `").concat(
                    u.as_str(),
                ).concat("`."),
            },
        }
    }
}

/// A listen address setting: its value (the default where the variable is not
/// set) and, where that value parses as a socket address, the text of the address.
pub struct ListenSetting {
    pub value: String,
    pub address: Option<String>,
}

/// The node's configuration, as read from the environment.
pub struct Env {
    pub server_listen: ListenSetting,
    pub registry_listen: ListenSetting,
    pub self_hostname: Option<String>,
    pub registry_urls: Option<String>,
}

/// The value of a variable, or `default` where it is not set.
pub fn setting_or_default(value: Option<String>, default: &str) -> (r: String)
    ensures
        value matches Some(v) ==> r@ == v@,
        value is None ==> r@ == default@,
{
    match value {
        Some(v) => v,
        None => String::from_str(default),
    }
}

pub open spec fn listen_of(s: ListenSetting, key: Seq<char>) -> Result<Seq<char>, EnvErrorModel> {
    match s.address {
        Some(a) => Ok(a@),
        None => Err(EnvErrorModel::Invalid(key, s.value@)),
    }
}

pub open spec fn self_registry_of(env: Env) -> Result<RegistryModel, EnvErrorModel> {
    match env.self_hostname {
        None => Err(EnvErrorModel::NotFound(REGISTRY_HOSTNAME_ENV@)),
        Some(h) => match dns_name_text(h@) {
            None => Err(EnvErrorModel::Invalid(REGISTRY_HOSTNAME_ENV@, h@)),
            Some(name) => match listen_of(env.registry_listen, REGISTRY_LISTEN_ENV@) {
                Err(e) => Err(e),
                Ok(addr) => match url_parse("http://"@ + addr) {
                    None => Err(EnvErrorModel::InvalidUrl("http://"@ + addr)),
                    Some((url, _)) => Ok(
                        RegistryModel { hostname: name, url, public: Seq::empty(), private: Seq::empty() },
                    ),
                },
            },
        },
    }
}

/// The registries that a list of URLs names, or the first URL that names none.
pub open spec fn registries_of(urls: Seq<Seq<char>>) -> Result<Seq<RegistryModel>, EnvErrorModel>
    decreases urls.len(),
{
    if urls.len() == 0 {
        Ok(Seq::empty())
    } else {
        match registries_of(urls.drop_last()) {
            Err(e) => Err(e),
            Ok(p) => match registry_of_url(urls.last()) {
                Ok(m) => Ok(p.push(m)),
                Err(e) => Err(EnvErrorModel::Registry(urls.last(), e)),
            },
        }
    }
}

pub open spec fn peers_of(env: Env) -> Result<Seq<RegistryModel>, EnvErrorModel> {
    match env.registry_urls {
        None => Err(EnvErrorModel::NotFound(REGISTRY_URLS_ENV@)),
        Some(u) => registries_of(words(u@)),
    }
}

/// The first error of the configuration, in the order: DNS listen address,
/// registry listen address, own registry, peers.
pub open spec fn validation_of(env: Env) -> Result<(), EnvErrorModel> {
    match listen_of(env.server_listen, SERVER_LISTEN_ENV@) {
        Err(e) => Err(e),
        Ok(_) => match listen_of(env.registry_listen, REGISTRY_LISTEN_ENV@) {
            Err(e) => Err(e),
            Ok(_) => match self_registry_of(env) {
                Err(e) => Err(e),
                Ok(_) => match peers_of(env) {
                    Err(e) => Err(e),
                    Ok(_) => Ok(()),
                },
            },
        },
    }
}

proof fn lemma_registries_of_error_stays(urls: Seq<Seq<char>>, i: int)
    requires
        0 <= i <= urls.len(),
        registries_of(urls.take(i)) is Err,
    ensures
        registries_of(urls) == registries_of(urls.take(i)),
    decreases urls.len() - i,
{
    if i < urls.len() {
        assert(urls.take(i + 1).drop_last() =~= urls.take(i));
        lemma_registries_of_error_stays(urls, i + 1);
    } else {
        assert(urls.take(i) =~= urls);
    }
}

fn listen(s: &ListenSetting, key: &str) -> (r: Result<String, EnvError>)
    ensures
        match r {
            Ok(a) => listen_of(*s, key@) == Ok::<Seq<char>, EnvErrorModel>(a@),
            Err(e) => listen_of(*s, key@) == Err::<Seq<char>, EnvErrorModel>(e@),
        },
{
    match &s.address {
        Some(a) => Ok(a.clone()),
        None => Err(EnvError::Invalid(String::from_str(key), s.value.clone())),
    }
}

impl Env {
    /// The text of the address that the DNS server listens on.
    pub fn server_listen(&self) -> (r: Result<String, EnvError>)
        ensures
            match r {
                Ok(a) => listen_of(self.server_listen, SERVER_LISTEN_ENV@) == Ok::<Seq<char>, EnvErrorModel>(a@),
                Err(e) => listen_of(self.server_listen, SERVER_LISTEN_ENV@) == Err::<Seq<char>, EnvErrorModel>(e@),
            },
    {
        listen(&self.server_listen, SERVER_LISTEN_ENV)
    }

    /// The text of the address that the registry API listens on.
    pub fn registry_listen(&self) -> (r: Result<String, EnvError>)
        ensures
            match r {
                Ok(a) => listen_of(self.registry_listen, REGISTRY_LISTEN_ENV@) == Ok::<Seq<char>, EnvErrorModel>(a@),
                Err(e) => listen_of(self.registry_listen, REGISTRY_LISTEN_ENV@) == Err::<Seq<char>, EnvErrorModel>(e@),
            },
    {
        listen(&self.registry_listen, REGISTRY_LISTEN_ENV)
    }

    /// The node's own registry: its hostname, and the URL `http://<registry listen
    /// address>`; no services yet.
    pub fn self_registry(&self) -> (r: Result<Registry, EnvError>)
        ensures
            match r {
                Ok(reg) => reg.wf() && self_registry_of(*self) == Ok::<RegistryModel, EnvErrorModel>(reg@),
                Err(e) => self_registry_of(*self) == Err::<RegistryModel, EnvErrorModel>(e@),
            },
    {
        let h = match &self.self_hostname {
            None => return Err(EnvError::NotFound(String::from_str(REGISTRY_HOSTNAME_ENV))),
            Some(h) => h,
        };
        let name = match parse_dns_name(h.as_str()) {
            None => return Err(EnvError::Invalid(String::from_str(REGISTRY_HOSTNAME_ENV), h.clone())),
            Some(n) => n,
        };
        let addr = match self.registry_listen() {
            Err(e) => return Err(e),
            Ok(a) => a,
        };
        let text = String::from_str("http://").concat(addr.as_str());
        match parse_url(text.as_str()) {
            None => Err(EnvError::InvalidUrl(text)),
            Some((url, _)) => Ok(Registry::new(name, url)),
        }
    }

    /// The peers that `REGISTRY_URLS` lists, separated by whitespace, in order.
    pub fn registries(&self) -> (r: Result<Vec<Registry>, EnvError>)
        ensures
            match r {
                Ok(v) => all_wf(v@) && peers_of(*self) == Ok::<Seq<RegistryModel>, EnvErrorModel>(views(v@)),
                Err(e) => peers_of(*self) == Err::<Seq<RegistryModel>, EnvErrorModel>(e@),
            },
    {
        let urls = match &self.registry_urls {
            None => return Err(EnvError::NotFound(String::from_str(REGISTRY_URLS_ENV))),
            Some(u) => u,
        };
        let pieces = split_on(urls.as_str(), false);
        let ghost all = texts(pieces@);
        let mut list: Vec<Registry> = Vec::new();
        let mut i: usize = 0;
        assert(peers_of(*self) == registries_of(all));
        assert(views(list@) =~= Seq::<RegistryModel>::empty());
        assert(all.take(0) =~= Seq::<Seq<char>>::empty());
        while i < pieces.len()
            invariant
                i <= pieces@.len(),
                all == texts(pieces@),
                all == words(urls@),
                peers_of(*self) == registries_of(all),
                all_wf(list@),
                registries_of(all.take(i as int)) == Ok::<Seq<RegistryModel>, EnvErrorModel>(views(list@)),
            decreases pieces@.len() - i,
        {
            assert(all.take(i + 1).drop_last() =~= all.take(i as int));
            assert(all.take(i + 1).last() == pieces@[i as int]@);
            match Registry::from_str(pieces[i].as_str()) {
                Ok(reg) => {
                    let ghost before = list@;
                    list.push(reg);
                    assert(views(list@) =~= views(before).push(reg@));
                    assert forall|j: int| 0 <= j < list@.len() implies (#[trigger] list@[j]).wf() by {
                        if j < before.len() {
                            assert(list@[j] == before[j]);
                        }
                    }
                },
                Err(e) => {
                    proof { lemma_registries_of_error_stays(all, i + 1); }
                    let bad = pieces[i].clone();
                    assert(registries_of(all.take(i + 1)) == Err::<Seq<RegistryModel>, EnvErrorModel>(
                        EnvErrorModel::Registry(bad@, e),
                    ));
                    return Err(EnvError::Registry(bad, e));
                },
            }
            i = i + 1;
        }
        assert(all.take(i as int) =~= all);
        Ok(list)
    }

    /// Checks the whole configuration; the error is the first one found.
    pub fn validate(&self) -> (r: Result<(), EnvError>)
        ensures
            match r {
                Ok(_) => validation_of(*self) == Ok::<(), EnvErrorModel>(()),
                Err(e) => validation_of(*self) == Err::<(), EnvErrorModel>(e@),
            },
    {
        match self.server_listen() {
            Err(e) => return Err(e),
            Ok(_) => {},
        }
        match self.registry_listen() {
            Err(e) => return Err(e),
            Ok(_) => {},
        }
        match self.self_registry() {
            Err(e) => return Err(e),
            Ok(_) => {},
        }
        match self.registries() {
            Err(e) => Err(e),
            Ok(_) => Ok(()),
        }
    }
}

} // verus!
