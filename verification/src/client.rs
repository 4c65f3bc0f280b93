//! What the crawler asks of an instance over HTTP: the addresses it
//! requests, which instance API it uses for which software, and what it
//! makes of the instance's robots.txt.
use vstd::prelude::*;

use crate::text::str_eq;
use vstd::utf8::encode_utf8;

verus! {

broadcast use vstd::string::group_string_axioms;

/// What `url::Url::parse` makes of `input`: `None` when it refuses the
/// text, else the URL's scheme and its host as text (`Url::host_str`).
pub uninterp spec fn spec_parse_url(input: Seq<char>) -> Option<(Seq<char>, Option<Seq<char>>)>;

/// The parts of a parsed URL, as character sequences.
pub open spec fn url_parts_view(r: Option<(String, Option<String>)>) -> Option<
    (Seq<char>, Option<Seq<char>>),
> {
    match r {
        None => None,
        Some((scheme, host)) => Some(
            (
                scheme@,
                match host {
                    None => None,
                    Some(h) => Some(h@),
                },
            ),
        ),
    }
}

/// Calls `reqwest::Url::parse` (the `url` crate's `Url::parse`) and reads
/// the scheme and `host_str` of the result. The contract names the outcome
/// with `spec_parse_url` and states nothing more of it: the URL standard
/// that the parser follows is not restated here.
#[verifier::external_body]
fn parse_url(input: &str) -> (r: Option<(String, Option<String>)>)
    ensures
        url_parts_view(r) == spec_parse_url(input@),
{
    match reqwest::Url::parse(input) {
        Ok(url) => Some((url.scheme().to_string(), url.host_str().map(|h| h.to_string()))),
        Err(_) => None,
    }
}

/// Whether `url` is accepted by the URL parser.
pub fn url_is_valid(url: &str) -> (r: bool)
    ensures
        r == spec_parse_url(url@) is Some,
{
    parse_url(url).is_some()
}

/// `https://` followed by `instance` and `path`.
pub open spec fn https_url(instance: Seq<char>, path: Seq<char>) -> Seq<char> {
    "https://"@ + instance + path
}

fn https_url_for(instance: &str, path: &str) -> (r: String)
    ensures
        r@ == https_url(instance@, path@),
{
    "https://".to_owned().concat(instance).concat(path)
}

/// Where an instance publishes its nodeinfo links.
pub fn well_known_url(instance: &str) -> (r: String)
    ensures
        r@ == https_url(instance@, "/.well-known/nodeinfo"@),
{
    https_url_for(instance, "/.well-known/nodeinfo")
}

/// Where an instance lists the instances it knows.
pub fn peers_url(instance: &str) -> (r: String)
    ensures
        r@ == https_url(instance@, "/api/v1/instance/peers"@),
{
    https_url_for(instance, "/api/v1/instance/peers")
}

/// The instance APIs the crawler reads descriptive data from.
#[derive(PartialEq, Eq, Structural, Clone, Copy)]
pub enum InstanceApi {
    /// `GET /api/v2/instance`, served by Mastodon, Pixelfed and Pleroma.
    Mastodonish,
    /// `GET /api/v3/site`.
    Lemmy,
    /// `GET /api/v1/config/about`.
    Peertube,
    /// `POST /api/meta` with the body `{"detail": false}`.
    Misskey,
}

/// The API used for a software name, as nodeinfo reports it.
pub open spec fn api_for_software_spec(software: Seq<char>) -> Option<InstanceApi> {
    if software == "mastodon"@ || software == "pixelfed"@ || software == "pleroma"@ {
        Some(InstanceApi::Mastodonish)
    } else if software == "lemmy"@ {
        Some(InstanceApi::Lemmy)
    } else if software == "peertube"@ {
        Some(InstanceApi::Peertube)
    } else if software == "misskey"@ {
        Some(InstanceApi::Misskey)
    } else {
        None
    }
}

/// The API the crawler reads an instance's descriptive data from, given the
/// software name the instance reports; `None` for software it knows no API
/// of.
pub fn api_for_software(software: &str) -> (r: Option<InstanceApi>)
    ensures
        r == api_for_software_spec(software@),
{
    if str_eq(software, "mastodon") || str_eq(software, "pixelfed") || str_eq(software, "pleroma") {
        Some(InstanceApi::Mastodonish)
    } else if str_eq(software, "lemmy") {
        Some(InstanceApi::Lemmy)
    } else if str_eq(software, "peertube") {
        Some(InstanceApi::Peertube)
    } else if str_eq(software, "misskey") {
        Some(InstanceApi::Misskey)
    } else {
        None
    }
}

/// The path of an instance API.
pub open spec fn api_path(api: InstanceApi) -> Seq<char> {
    match api {
        InstanceApi::Mastodonish => "/api/v2/instance"@,
        InstanceApi::Lemmy => "/api/v3/site"@,
        InstanceApi::Peertube => "/api/v1/config/about"@,
        InstanceApi::Misskey => "/api/meta"@,
    }
}

impl InstanceApi {
    /// Where the API is served on `instance`.
    pub fn url(&self, instance: &str) -> (r: String)
        ensures
            r@ == https_url(instance@, api_path(*self)),
    {
        match self {
            InstanceApi::Mastodonish => https_url_for(instance, "/api/v2/instance"),
            InstanceApi::Lemmy => https_url_for(instance, "/api/v3/site"),
            InstanceApi::Peertube => https_url_for(instance, "/api/v1/config/about"),
            InstanceApi::Misskey => https_url_for(instance, "/api/meta"),
        }
    }

    /// Whether the API is asked with `POST` (with the body
    /// `{"detail": false}`) rather than `GET`.
    pub fn is_post(&self) -> (r: bool)
        ensures
            r == (*self == InstanceApi::Misskey),
    {
        match self {
            InstanceApi::Misskey => true,
            _ => false,
        }
    }
}

/// The address of the robots.txt file that governs `instance`: the scheme
/// and host of the parsed `https://{instance}`, then `/robots.txt`; an
/// absent host gives an empty one.
pub open spec fn robots_txt_url_spec(instance: Seq<char>) -> Option<Seq<char>> {
    match spec_parse_url("https://"@ + instance) {
        None => None,
        Some((scheme, host)) => Some(
            scheme + "://"@ + match host {
                Some(h) => h,
                None => Seq::empty(),
            } + "/robots.txt"@,
        ),
    }
}

/// Where the robots.txt file of `instance` is; `None` when
/// `https://{instance}` is not a URL.
pub fn robots_txt_url(instance: &str) -> (r: Option<String>)
    ensures
        r is Some <==> robots_txt_url_spec(instance@) is Some,
        r matches Some(u) ==> Some(u@) == robots_txt_url_spec(instance@),
{
    let base = "https://".to_owned().concat(instance);
    match parse_url(base.as_str()) {
        None => None,
        Some((scheme, host)) => {
            let host_text = match host {
                Some(h) => h,
                None => String::new(),
            };
            Some(scheme.concat("://").concat(host_text.as_str()).concat("/robots.txt"))
        },
    }
}

/// What `robotxt::Robots::from_bytes(txt, user_agent).is_relative_allowed(path)`
/// answers.
pub uninterp spec fn spec_robots_allows(txt: Seq<u8>, user_agent: Seq<char>, path: Seq<char>) -> bool;

/// Parses a robots.txt file with `robotxt::Robots::from_bytes` for
/// `user_agent` and asks `Robots::is_relative_allowed` about `path`. The
/// answer is named by `spec_robots_allows`; the one further claim is the
/// crate's: an empty file holds no rule, and a path that no rule matches is
/// allowed.
#[verifier::external_body]
fn robots_allows(txt: &[u8], user_agent: &str, path: &str) -> (r: bool)
    ensures
        r == spec_robots_allows(txt@, user_agent@, path@),
        txt@.len() == 0 ==> r,
{
    robotxt::Robots::from_bytes(txt, user_agent).is_relative_allowed(path)
}

/// The path whose crawling robots.txt must allow.
pub open spec fn nodeinfo_path() -> Seq<char> {
    "/.well-known/nodeinfo"@
}

/// An HTTP status in the success class 200-299.
pub open spec fn is_success_status(status: u16) -> bool {
    200 <= status <= 299
}

/// Whether the crawler may go on with an instance, from the answer to its
/// request for robots.txt: an answer outside the success class allows
/// crawling; a successful one allows it when its body allows
/// `/.well-known/nodeinfo` to `user_agent`.
pub open spec fn robots_permit_spec(status: u16, body: Seq<u8>, user_agent: Seq<char>) -> bool {
    !is_success_status(status) || spec_robots_allows(body, user_agent, nodeinfo_path())
}

/// Whether robots.txt lets the crawler go on, given the status of the
/// answer and its body (empty when the body could not be read).
pub fn robots_permit(status: u16, body: &str, user_agent: &str) -> (r: bool)
    ensures
        r == robots_permit_spec(status, encode_utf8(body@), user_agent@),
        !(200 <= status <= 299) ==> r,
        200 <= status <= 299 ==> r == spec_robots_allows(
            encode_utf8(body@),
            user_agent@,
            "/.well-known/nodeinfo"@,
        ),
        body@.len() == 0 ==> r,
{
    proof {
        if body@.len() == 0 {
            assert(encode_utf8(body@) =~= Seq::<u8>::empty());
        }
    }
    if 200 <= status && status <= 299 {
        robots_allows(body.as_bytes(), user_agent, "/.well-known/nodeinfo")
    } else {
        true
    }
}

/// For a successful answer, the decision is robotxt's verdict on
/// `/.well-known/nodeinfo` for the crawler's own user agent, read from the
/// body as it came; any other answer allows crawling.
pub proof fn lemma_robots_permit_is_verdict_for_agent(status: u16, body: Seq<u8>, user_agent: Seq<char>)
    ensures
        200 <= status <= 299 ==> robots_permit_spec(status, body, user_agent) == spec_robots_allows(
            body,
            user_agent,
            "/.well-known/nodeinfo"@,
        ),
        !(200 <= status <= 299) ==> robots_permit_spec(status, body, user_agent),
{
}

/// Two user agents with different robotxt verdicts get different
/// decisions on the same successful answer: the decision depends on the
/// agent it is asked for.
pub proof fn lemma_robots_permit_follows_agent(status: u16, body: Seq<u8>, a: Seq<char>, b: Seq<char>)
    requires
        200 <= status <= 299,
        spec_robots_allows(body, a, "/.well-known/nodeinfo"@) != spec_robots_allows(
            body,
            b,
            "/.well-known/nodeinfo"@,
        ),
    ensures
        robots_permit_spec(status, body, a) != robots_permit_spec(status, body, b),
{
}

} // verus!
