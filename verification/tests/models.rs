use fedi_crawler::models::ContactMastodon;
use fedi_crawler::models::CrawlerError;
use fedi_crawler::models::InstanceInfo;
use fedi_crawler::models::InstanceStatus;
use fedi_crawler::models::LemmyInfoResponse;
use fedi_crawler::models::LemmySite;
use fedi_crawler::models::LemmySiteView;
use fedi_crawler::models::MastodonV2Response;
use fedi_crawler::models::MisskeyInfoResponse;
use fedi_crawler::models::Nodeinfo;
use fedi_crawler::models::PeertubeInfoResponse;
use fedi_crawler::models::PeertubeInstance;
use fedi_crawler::models::Software;
use fedi_crawler::models::ThumbnailMastodon;
use fedi_crawler::models::Usage;
use fedi_crawler::models::UsersUsage;
use fedi_crawler::text::str_eq;
use fedi_crawler::text::strip_prefix;
use fedi_crawler::text::take_chars;
use fedi_crawler::text::trim;
use fedi_crawler::worker::instance_record;
use fedi_crawler::worker::truncate_description;

fn s(x: &str) -> Option<String> {
    Some(x.to_string())
}

#[test]
fn status_names() {
    assert_eq!(InstanceStatus::ACTIVE.as_str(), "ACTIVE");
    assert_eq!(InstanceStatus::DEAD.as_str(), "DEAD");
    assert_eq!(InstanceStatus::DOWN.as_str(), "DOWN");
    assert_eq!(InstanceStatus::ROBOTTXT.as_str(), "ROBOTTXT");
    assert_eq!(InstanceStatus::MISMATCHED.as_str(), "MISMATCHED");
}

#[test]
fn error_messages() {
    assert_eq!(
        CrawlerError::RobotsForbidden("a.b".to_string()).message(),
        "Robots.txt forbids crawling for a.b"
    );
    assert_eq!(
        CrawlerError::NetworkError("timeout".to_string()).message(),
        "Network error or timeout: timeout"
    );
    assert_eq!(CrawlerError::InvalidMetadata.message(), "Invalid NodeInfo format or missing links");
    assert_eq!(
        CrawlerError::Mismatched("c.d".to_string()).message(),
        "Mismatched url, redirects or nodeinfo url doesnt match"
    );
}

#[test]
fn mastodon_info() {
    let m = MastodonV2Response {
        title: s("Mastodon"),
        description: s("desc"),
        contact: ContactMastodon { email: s("admin@a.b") },
        source_url: s("https://github.com/mastodon/mastodon"),
        thumbnail: ThumbnailMastodon { url: s("https://a.b/t.png") },
    };
    let i = InstanceInfo::from(m);
    assert_eq!(i.title, s("Mastodon"));
    assert_eq!(i.description, s("desc"));
    assert_eq!(i.email, s("admin@a.b"));
    assert_eq!(i.thumbnail, s("https://a.b/t.png"));
    assert_eq!(i.source_url, s("https://github.com/mastodon/mastodon"));
    assert_eq!(i.icon, None);
}

#[test]
fn lemmy_info() {
    let m = LemmyInfoResponse {
        site_view: LemmySiteView { site: LemmySite { name: s("Lemmy"), description: None } },
    };
    let i = InstanceInfo::from(m);
    assert_eq!(i.title, s("Lemmy"));
    assert_eq!(i.description, None);
    assert_eq!(i.email, None);
    assert_eq!(i.thumbnail, None);
    assert_eq!(i.source_url, None);
    assert_eq!(i.icon, None);
}

#[test]
fn peertube_info() {
    let m = PeertubeInfoResponse {
        instance: PeertubeInstance { name: s("Tube"), description: s("videos") },
    };
    let i = InstanceInfo::from(m);
    assert_eq!(i.title, s("Tube"));
    assert_eq!(i.description, s("videos"));
    assert_eq!(i.icon, None);
}

#[test]
fn misskey_info() {
    let m = MisskeyInfoResponse {
        name: s("Key"),
        description: s("notes"),
        repository_url: s("https://repo"),
        background_image_url: s("https://bg"),
        icon_url: s("https://icon"),
    };
    let i = InstanceInfo::from(m);
    assert_eq!(i.title, s("Key"));
    assert_eq!(i.description, s("notes"));
    assert_eq!(i.email, None);
    assert_eq!(i.thumbnail, s("https://bg"));
    assert_eq!(i.source_url, s("https://repo"));
    assert_eq!(i.icon, s("https://icon"));
}

#[test]
fn description_is_cut_to_255_characters() {
    let short = "é".repeat(200);
    assert_eq!(truncate_description(&short), short);
    let exact = "é".repeat(255);
    assert_eq!(truncate_description(&exact), exact);
    let long = "é".repeat(300);
    assert_eq!(truncate_description(&long), "é".repeat(255));
    let ascii = "x".repeat(256);
    assert_eq!(truncate_description(&ascii).len(), 255);
}

fn nodeinfo() -> Nodeinfo {
    Nodeinfo {
        software: Software { name: "mastodon".to_string(), version: "4.2.0".to_string() },
        open_registrations: true,
        usage: Usage {
            local_posts: Some(10),
            local_comments: None,
            users: UsersUsage { total: Some(5), active_halfyear: Some(4), active_month: Some(3) },
        },
        protocols: vec!["activitypub".to_string()],
    }
}

#[test]
fn record_of_a_crawl() {
    let info = InstanceInfo {
        title: s("T"),
        description: Some("d".repeat(400)),
        email: s("e"),
        thumbnail: None,
        source_url: s("src"),
        icon: s("icon"),
    };
    let r = instance_record("a.b".to_string(), nodeinfo(), Some(info));
    assert_eq!(r.domain, "a.b");
    assert_eq!(r.software, "mastodon");
    assert_eq!(r.software_version, "4.2.0");
    assert!(r.open_registration);
    assert_eq!(r.total_users, Some(5));
    assert_eq!(r.active_users_month, Some(3));
    assert_eq!(r.active_users_halfyear, Some(4));
    assert_eq!(r.local_posts, Some(10));
    assert_eq!(r.local_comments, None);
    assert_eq!(r.status.as_str(), "ACTIVE");
    assert_eq!(r.title, s("T"));
    assert_eq!(r.description, Some("d".repeat(255)));
    assert_eq!(r.email, s("e"));
    assert_eq!(r.thumbnail, None);
    assert_eq!(r.source_url, s("src"));
    assert_eq!(r.protocols, vec!["activitypub".to_string()]);

    let bare = instance_record("a.b".to_string(), nodeinfo(), None);
    assert_eq!(bare.title, None);
    assert_eq!(bare.description, None);
}

#[test]
fn text_helpers() {
    assert!(str_eq("abc", "abc"));
    assert!(!str_eq("abc", "abd"));
    assert!(!str_eq("abc", "ab"));
    assert_eq!(strip_prefix("prefix-rest", "prefix-"), s("rest"));
    assert_eq!(strip_prefix("pre", "prefix"), None);
    assert_eq!(strip_prefix("xprefix", "prefix"), None);
    assert_eq!(trim("\t  a b \u{3000}\n"), "a b");
    assert_eq!(trim("   "), "");
    assert_eq!(trim(""), "");
    assert_eq!(take_chars("héllo", 2), "hé");
    assert_eq!(take_chars("hé", 5), "hé");
}
