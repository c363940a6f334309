//! The calls that the library makes into other crates, each with the contract
//! that the library relies on.
use vstd::prelude::*;

use crate::registry::texts;

verus! {

/// The text that an optional string holds.
pub open spec fn opt_text(o: Option<String>) -> Option<Seq<char>> {
    match o {
        Some(s) => Some(s@),
        None => None,
    }
}

/// The URL that `s` parses to: its serialization and its host, if it has one.
pub uninterp spec fn url_parse(s: Seq<char>) -> Option<(Seq<char>, Option<Seq<char>>)>;

/// Relies on `url::Url::parse` (re-exported as `reqwest::Url`), read back through
/// `Url::as_str` and `Url::host_str`: the serialization and the host of the URL
/// parsed from `s`, or `None` where `s` is no valid absolute URL. The result
/// depends on `s` alone.
#[verifier::external_body]
pub(crate) fn parse_url(s: &str) -> (r: Option<(String, Option<String>)>)
    ensures
        match r {
            Some(p) => url_parse(s@) == Some((p.0@, opt_text(p.1))),
            None => url_parse(s@) is None,
        },
{
    reqwest::Url::parse(s).ok().map(|u| (u.as_str().to_string(), u.host_str().map(|h| h.to_string())))
}

/// The text form of the domain name that `s` parses to.
pub uninterp spec fn dns_name_text(s: Seq<char>) -> Option<Seq<char>>;

/// Relies on `FromStr` of hickory's `Name`, read back through its `Display`:
/// the text form of the domain name parsed from `s`, or `None` where `s` is no
/// valid domain name. The result depends on `s` alone.
#[verifier::external_body]
pub(crate) fn parse_dns_name(s: &str) -> (r: Option<String>)
    ensures
        opt_text(r) == dns_name_text(s@),
{
    s.parse::<hickory_server::proto::rr::Name>().ok().map(|n| n.to_string())
}

/// The list of strings that the JSON text `s` holds, if it is an array of strings.
pub uninterp spec fn json_string_list(s: Seq<char>) -> Option<Seq<Seq<char>>>;

/// Relies on `serde_json::from_str` into a `Vec<String>`: the strings of the JSON
/// array `s`, in order, or `None` where `s` is not a JSON array of strings.
#[verifier::external_body]
pub(crate) fn decode_string_list(s: &str) -> (r: Option<Vec<String>>)
    ensures
        match r {
            Some(v) => json_string_list(s@) == Some(texts(v@)),
            None => json_string_list(s@) is None,
        },
{
    serde_json::from_str::<Vec<String>>(s).ok()
}

/// The JSON text of an array of strings.
pub uninterp spec fn json_of_string_list(items: Seq<Seq<char>>) -> Seq<char>;

/// Relies on `serde_json::to_string` of a `Vec<String>`, which does not fail on
/// a sequence of strings: the JSON array of `items`, in order.
#[verifier::external_body]
pub(crate) fn encode_string_list(items: &Vec<String>) -> (r: String)
    ensures
        r@ == json_of_string_list(texts(items@)),
{
    match serde_json::to_string(items) {
        Ok(s) => s,
        Err(_) => String::new(),
    }
}

} // verus!
