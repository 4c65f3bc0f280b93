//! The data the crawler reads from instances and the results it records.
use vstd::prelude::*;
use vstd::std_specs::convert::FromSpec;

verus! {

broadcast use vstd::string::group_string_axioms;

/// The `/.well-known/nodeinfo` document of an instance.
pub struct WellKnown {
    pub links: Vec<WellKnownElement>,
}

/// One link of the well-known document: the schema it follows and where
/// the nodeinfo document is.
pub struct WellKnownElement {
    pub rel: String,
    pub href: String,
}

/// The parts of a nodeinfo document that the crawler records.
pub struct Nodeinfo {
    pub software: Software,
    pub open_registrations: bool,
    pub usage: Usage,
    pub protocols: Vec<String>,
}

pub struct Software {
    pub name: String,
    pub version: String,
}

pub struct Usage {
    pub local_posts: Option<i32>,
    pub local_comments: Option<i32>,
    pub users: UsersUsage,
}

pub struct UsersUsage {
    pub total: Option<i32>,
    pub active_halfyear: Option<i32>,
    pub active_month: Option<i32>,
}

/// The state of an instance as the crawler records it.
pub enum InstanceStatus {
    ACTIVE,
    DEAD,
    DOWN,
    ROBOTTXT,
    MISMATCHED,
}

/// The name under which a status is stored.
pub open spec fn status_name(status: InstanceStatus) -> Seq<char> {
    match status {
        InstanceStatus::ACTIVE => "ACTIVE"@,
        InstanceStatus::DEAD => "DEAD"@,
        InstanceStatus::DOWN => "DOWN"@,
        InstanceStatus::ROBOTTXT => "ROBOTTXT"@,
        InstanceStatus::MISMATCHED => "MISMATCHED"@,
    }
}

impl InstanceStatus {
    /// The name under which the status is stored: the variant's name.
    pub fn as_str(&self) -> (r: &'static str)
        ensures
            r@ == status_name(*self),
    {
        match self {
            Self::ACTIVE => "ACTIVE",
            Self::DEAD => "DEAD",
            Self::DOWN => "DOWN",
            Self::ROBOTTXT => "ROBOTTXT",
            Self::MISMATCHED => "MISMATCHED",
        }
    }
}

/// Two different statuses are stored under different names, so a stored
/// name tells the status back.
pub proof fn lemma_status_names_distinct(a: InstanceStatus, b: InstanceStatus)
    requires
        a != b,
    ensures
        status_name(a) != status_name(b),
{
    reveal_strlit("ACTIVE");
    reveal_strlit("DEAD");
    reveal_strlit("DOWN");
    reveal_strlit("ROBOTTXT");
    reveal_strlit("MISMATCHED");
    if status_name(a) == status_name(b) {
        assert(status_name(a).len() == status_name(b).len());
        assert(status_name(a)[1] == status_name(b)[1]);
    }
}

/// Why crawling an instance did not succeed.
pub enum CrawlerError {
    /// robots.txt forbids crawling the named instance.
    RobotsForbidden(String),
    /// A request failed or timed out.
    NetworkError(String),
    /// The nodeinfo links are missing or malformed.
    InvalidMetadata,
    /// The instance answers under another host name, the one named.
    Mismatched(String),
}

/// The message that describes an error.
pub open spec fn error_message(e: CrawlerError) -> Seq<char> {
    match e {
        CrawlerError::RobotsForbidden(s) => "Robots.txt forbids crawling for "@ + s@,
        CrawlerError::NetworkError(s) => "Network error or timeout: "@ + s@,
        CrawlerError::InvalidMetadata => "Invalid NodeInfo format or missing links"@,
        CrawlerError::Mismatched(_) => "Mismatched url, redirects or nodeinfo url doesnt match"@,
    }
}

impl CrawlerError {
    /// The message that describes the error.
    pub fn message(&self) -> (r: String)
        ensures
            r@ == error_message(*self),
    {
        match self {
            CrawlerError::RobotsForbidden(s) => "Robots.txt forbids crawling for ".to_owned().concat(
                s.as_str(),
            ),
            CrawlerError::NetworkError(s) => "Network error or timeout: ".to_owned().concat(
                s.as_str(),
            ),
            CrawlerError::InvalidMetadata => "Invalid NodeInfo format or missing links".to_owned(),
            CrawlerError::Mismatched(_) => {
                "Mismatched url, redirects or nodeinfo url doesnt match".to_owned()
            },
        }
    }
}

/// Descriptive data about an instance, gathered from its own API.
pub struct InstanceInfo {
    pub title: Option<String>,
    pub description: Option<String>,
    pub email: Option<String>,
    pub thumbnail: Option<String>,
    pub source_url: Option<String>,
    pub icon: Option<String>,
}

/// The answer of `/api/v2/instance` on Mastodon-like servers.
pub struct MastodonV2Response {
    pub title: Option<String>,
    pub description: Option<String>,
    pub contact: ContactMastodon,
    pub source_url: Option<String>,
    pub thumbnail: ThumbnailMastodon,
}

pub struct ContactMastodon {
    pub email: Option<String>,
}

pub struct ThumbnailMastodon {
    pub url: Option<String>,
}

impl From<MastodonV2Response> for InstanceInfo {
    fn from(m: MastodonV2Response) -> (r: Self)
        ensures
            r.title == m.title,
            r.description == m.description,
            r.email == m.contact.email,
            r.thumbnail == m.thumbnail.url,
            r.source_url == m.source_url,
            r.icon is None,
    {
        Self {
            title: m.title,
            description: m.description,
            email: m.contact.email,
            thumbnail: m.thumbnail.url,
            source_url: m.source_url,
            icon: None,
        }
    }
}

impl vstd::std_specs::convert::FromSpecImpl<MastodonV2Response> for InstanceInfo {
    open spec fn obeys_from_spec() -> bool {
        true
    }

    open spec fn from_spec(m: MastodonV2Response) -> Self {
        InstanceInfo {
            title: m.title,
            description: m.description,
            email: m.contact.email,
            thumbnail: m.thumbnail.url,
            source_url: m.source_url,
            icon: None,
        }
    }
}

/// The answer of `/api/v3/site` on Lemmy servers.
pub struct LemmyInfoResponse {
    pub site_view: LemmySiteView,
}

pub struct LemmySiteView {
    pub site: LemmySite,
}

pub struct LemmySite {
    pub name: Option<String>,
    pub description: Option<String>,
}

impl From<LemmyInfoResponse> for InstanceInfo {
    fn from(m: LemmyInfoResponse) -> (r: Self)
        ensures
            r.title == m.site_view.site.name,
            r.description == m.site_view.site.description,
            r.email is None,
            r.thumbnail is None,
            r.source_url is None,
            r.icon is None,
    {
        Self {
            title: m.site_view.site.name,
            description: m.site_view.site.description,
            email: None,
            thumbnail: None,
            source_url: None,
            icon: None,
        }
    }
}

impl vstd::std_specs::convert::FromSpecImpl<LemmyInfoResponse> for InstanceInfo {
    open spec fn obeys_from_spec() -> bool {
        true
    }

    open spec fn from_spec(m: LemmyInfoResponse) -> Self {
        InstanceInfo {
            title: m.site_view.site.name,
            description: m.site_view.site.description,
            email: None,
            thumbnail: None,
            source_url: None,
            icon: None,
        }
    }
}

/// The answer of `/api/v1/config/about` on PeerTube servers.
pub struct PeertubeInfoResponse {
    pub instance: PeertubeInstance,
}

pub struct PeertubeInstance {
    pub name: Option<String>,
    pub description: Option<String>,
}

impl From<PeertubeInfoResponse> for InstanceInfo {
    fn from(m: PeertubeInfoResponse) -> (r: Self)
        ensures
            r.title == m.instance.name,
            r.description == m.instance.description,
            r.email is None,
            r.thumbnail is None,
            r.source_url is None,
            r.icon is None,
    {
        Self {
            title: m.instance.name,
            description: m.instance.description,
            email: None,
            thumbnail: None,
            source_url: None,
            icon: None,
        }
    }
}

impl vstd::std_specs::convert::FromSpecImpl<PeertubeInfoResponse> for InstanceInfo {
    open spec fn obeys_from_spec() -> bool {
        true
    }

    open spec fn from_spec(m: PeertubeInfoResponse) -> Self {
        InstanceInfo {
            title: m.instance.name,
            description: m.instance.description,
            email: None,
            thumbnail: None,
            source_url: None,
            icon: None,
        }
    }
}

/// The answer of `/api/meta` on Misskey servers.
pub struct MisskeyInfoResponse {
    pub name: Option<String>,
    pub description: Option<String>,
    pub repository_url: Option<String>,
    pub background_image_url: Option<String>,
    pub icon_url: Option<String>,
}

impl From<MisskeyInfoResponse> for InstanceInfo {
    fn from(m: MisskeyInfoResponse) -> (r: Self)
        ensures
            r.title == m.name,
            r.description == m.description,
            r.email is None,
            r.thumbnail == m.background_image_url,
            r.source_url == m.repository_url,
            r.icon == m.icon_url,
    {
        Self {
            title: m.name,
            description: m.description,
            email: None,
            thumbnail: m.background_image_url,
            source_url: m.repository_url,
            icon: m.icon_url,
        }
    }
}

impl vstd::std_specs::convert::FromSpecImpl<MisskeyInfoResponse> for InstanceInfo {
    open spec fn obeys_from_spec() -> bool {
        true
    }

    open spec fn from_spec(m: MisskeyInfoResponse) -> Self {
        InstanceInfo {
            title: m.name,
            description: m.description,
            email: None,
            thumbnail: m.background_image_url,
            source_url: m.repository_url,
            icon: m.icon_url,
        }
    }
}

/// Mastodon's answer keeps its title, description, contact address,
/// thumbnail and source address; it has no icon.
pub proof fn lemma_mastodon_info_fields(m: MastodonV2Response)
    ensures
        ({
            let i = <InstanceInfo as FromSpec<MastodonV2Response>>::from_spec(m);
            &&& i.title == m.title
            &&& i.description == m.description
            &&& i.email == m.contact.email
            &&& i.thumbnail == m.thumbnail.url
            &&& i.source_url == m.source_url
            &&& i.icon is None
        }),
{
}

/// A Lemmy site keeps its name as title and its description; nothing else
/// is known.
pub proof fn lemma_lemmy_info_fields(m: LemmyInfoResponse)
    ensures
        ({
            let i = <InstanceInfo as FromSpec<LemmyInfoResponse>>::from_spec(m);
            &&& i.title == m.site_view.site.name
            &&& i.description == m.site_view.site.description
            &&& i.email is None
            &&& i.thumbnail is None
            &&& i.source_url is None
            &&& i.icon is None
        }),
{
}

/// A PeerTube instance keeps its name as title and its description;
/// nothing else is known.
pub proof fn lemma_peertube_info_fields(m: PeertubeInfoResponse)
    ensures
        ({
            let i = <InstanceInfo as FromSpec<PeertubeInfoResponse>>::from_spec(m);
            &&& i.title == m.instance.name
            &&& i.description == m.instance.description
            &&& i.email is None
            &&& i.thumbnail is None
            &&& i.source_url is None
            &&& i.icon is None
        }),
{
}

/// A Misskey instance keeps its name, description, background image as
/// thumbnail, repository as source address and icon; no contact address.
pub proof fn lemma_misskey_info_fields(m: MisskeyInfoResponse)
    ensures
        ({
            let i = <InstanceInfo as FromSpec<MisskeyInfoResponse>>::from_spec(m);
            &&& i.title == m.name
            &&& i.description == m.description
            &&& i.email is None
            &&& i.thumbnail == m.background_image_url
            &&& i.source_url == m.repository_url
            &&& i.icon == m.icon_url
        }),
{
}

} // verus!
