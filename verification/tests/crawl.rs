use fedi_crawler::client::api_for_software;
use fedi_crawler::client::peers_url;
use fedi_crawler::client::robots_permit;
use fedi_crawler::client::robots_txt_url;
use fedi_crawler::client::url_is_valid;
use fedi_crawler::client::well_known_url;
use fedi_crawler::client::InstanceApi;
use fedi_crawler::models::CrawlerError;
use fedi_crawler::models::WellKnown;
use fedi_crawler::models::WellKnownElement;
use fedi_crawler::worker::after_robots_check;
use fedi_crawler::worker::backoff_days;
use fedi_crawler::worker::check_final_host;
use fedi_crawler::worker::checked_nodeinfo_url;
use fedi_crawler::worker::nodeinfo_candidates;
use fedi_crawler::worker::plan_after_error;
use fedi_crawler::worker::plan_after_failure;
use fedi_crawler::worker::requeue_after_save;
use fedi_crawler::worker::stats_key;
use fedi_crawler::worker::ErrorPlan;
use fedi_crawler::worker::DAY_SECS;

const UA: &str = "fedi-crawler";

#[test]
fn request_addresses() {
    assert_eq!(well_known_url("mastodon.social"), "https://mastodon.social/.well-known/nodeinfo");
    assert_eq!(peers_url("mastodon.social"), "https://mastodon.social/api/v1/instance/peers");
    assert_eq!(InstanceApi::Mastodonish.url("a.b"), "https://a.b/api/v2/instance");
    assert_eq!(InstanceApi::Lemmy.url("a.b"), "https://a.b/api/v3/site");
    assert_eq!(InstanceApi::Peertube.url("a.b"), "https://a.b/api/v1/config/about");
    assert_eq!(InstanceApi::Misskey.url("a.b"), "https://a.b/api/meta");
    assert!(InstanceApi::Misskey.is_post());
    assert!(!InstanceApi::Lemmy.is_post());
}

#[test]
fn software_to_api() {
    assert!(api_for_software("mastodon") == Some(InstanceApi::Mastodonish));
    assert!(api_for_software("pixelfed") == Some(InstanceApi::Mastodonish));
    assert!(api_for_software("pleroma") == Some(InstanceApi::Mastodonish));
    assert!(api_for_software("lemmy") == Some(InstanceApi::Lemmy));
    assert!(api_for_software("peertube") == Some(InstanceApi::Peertube));
    assert!(api_for_software("misskey") == Some(InstanceApi::Misskey));
    assert!(api_for_software("gotosocial").is_none());
    assert!(api_for_software("Mastodon").is_none());
    assert!(api_for_software("").is_none());
}

#[test]
fn robots_address() {
    assert_eq!(robots_txt_url("mastodon.social"), Some("https://mastodon.social/robots.txt".to_string()));
    // The URL parser lower-cases the host.
    assert_eq!(robots_txt_url("Mastodon.Social"), Some("https://mastodon.social/robots.txt".to_string()));
    assert_eq!(robots_txt_url("exa mple.com"), None);
}

#[test]
fn url_validity() {
    assert!(url_is_valid("https://mastodon.social/nodeinfo/2.0"));
    assert!(!url_is_valid("not a url"));
    assert!(!url_is_valid("/nodeinfo/2.0"));
}

#[test]
fn robots_answers() {
    let deny_all = "User-agent: *\nDisallow: /\n";
    let deny_other = "User-agent: *\nDisallow: /private\n";
    assert!(!robots_permit(200, deny_all, UA));
    assert!(robots_permit(200, deny_other, UA));
    assert!(robots_permit(200, "", UA));
    assert!(robots_permit(404, deny_all, UA));
    assert!(robots_permit(500, deny_all, UA));
    assert!(robots_permit(301, deny_all, UA));
    assert!(!robots_permit(299, deny_all, UA));
}

#[test]
fn robots_check_outcomes() {
    assert!(after_robots_check(Some(true), "a.b").is_ok());
    match after_robots_check(Some(false), "a.b") {
        Err(CrawlerError::RobotsForbidden(name)) => assert_eq!(name, "a.b"),
        _ => panic!("expected RobotsForbidden"),
    }
    match after_robots_check(None, "a.b") {
        Err(CrawlerError::NetworkError(msg)) => assert_eq!(msg, "Failed to fetch"),
        _ => panic!("expected NetworkError"),
    }
}

#[test]
fn final_host_must_match() {
    assert!(check_final_host("a.b".to_string(), "a.b").is_ok());
    match check_final_host("c.d".to_string(), "a.b") {
        Err(CrawlerError::Mismatched(host)) => assert_eq!(host, "c.d"),
        _ => panic!("expected Mismatched"),
    }
}

#[test]
fn nodeinfo_address_must_parse() {
    match checked_nodeinfo_url("https://a.b/nodeinfo/2.0".to_string()) {
        Ok(u) => assert_eq!(u, "https://a.b/nodeinfo/2.0"),
        Err(_) => panic!("expected Ok"),
    }
    assert!(matches!(checked_nodeinfo_url("nope".to_string()), Err(CrawlerError::InvalidMetadata)));
}

fn link(rel: &str, href: &str) -> WellKnownElement {
    WellKnownElement { rel: rel.to_string(), href: href.to_string() }
}

#[test]
fn nodeinfo_links() {
    let wk = WellKnown {
        links: vec![
            link("http://nodeinfo.diaspora.software/ns/schema/2.0", " https://a.b/nodeinfo/2.0 \n"),
            link("https://www.w3.org/ns/activitystreams#Application", "https://a.b/actor"),
            link("http://nodeinfo.diaspora.software/ns/schema/2.1", "https://a.b/nodeinfo/2.1"),
        ],
    };
    let c = nodeinfo_candidates(&wk);
    assert_eq!(
        c,
        vec![
            ("2.0".to_string(), "https://a.b/nodeinfo/2.0".to_string()),
            ("2.1".to_string(), "https://a.b/nodeinfo/2.1".to_string()),
        ]
    );
    let empty = WellKnown { links: vec![] };
    assert!(nodeinfo_candidates(&empty).is_empty());
}

#[test]
fn backoff_doubles_up_to_thirty_days() {
    let days: Vec<i64> = (1..=8).map(backoff_days).collect();
    assert_eq!(days, vec![1, 2, 4, 8, 16, 30, 30, 30]);
    assert_eq!(backoff_days(63), 30);
}

#[test]
fn failure_plans() {
    let now = 1_700_000_000;
    let (at, status) = plan_after_failure(1, now);
    assert_eq!(at, now + DAY_SECS);
    assert_eq!(status.as_str(), "DOWN");
    let (at, status) = plan_after_failure(2, now);
    assert_eq!(at, now + 2 * DAY_SECS);
    assert_eq!(status.as_str(), "DOWN");
    let (at, status) = plan_after_failure(3, now);
    assert_eq!(at, now + 4 * DAY_SECS);
    assert_eq!(status.as_str(), "DEAD");
    let (at, _) = plan_after_failure(10, now);
    assert_eq!(at, now + 30 * DAY_SECS);
}

#[test]
fn error_plans() {
    let now = 1_700_000_000;
    match plan_after_error(CrawlerError::RobotsForbidden("a.b".to_string()), now) {
        ErrorPlan::RecordStatus { status, run_at } => {
            assert_eq!(status.as_str(), "ROBOTTXT");
            assert_eq!(run_at, now + 30 * 86400);
        }
        _ => panic!("expected RecordStatus"),
    }
    match plan_after_error(CrawlerError::Mismatched("Other.Host".to_string()), now) {
        ErrorPlan::RecordMismatch { points_to, run_at, queue } => {
            assert_eq!(points_to, "Other.Host");
            assert_eq!(run_at, now + 30 * 86400);
            assert_eq!(queue, Some("other.host".to_string()));
        }
        _ => panic!("expected RecordMismatch"),
    }
    match plan_after_error(CrawlerError::Mismatched("nodot".to_string()), now) {
        ErrorPlan::RecordMismatch { queue, .. } => assert_eq!(queue, None),
        _ => panic!("expected RecordMismatch"),
    }
    assert!(matches!(
        plan_after_error(CrawlerError::NetworkError("x".to_string()), now),
        ErrorPlan::CountFailure
    ));
    assert!(matches!(plan_after_error(CrawlerError::InvalidMetadata, now), ErrorPlan::CountFailure));
}

#[test]
fn requeue_only_saved_instances() {
    assert_eq!(requeue_after_save(true, 100, 604800), Some(604900));
    assert_eq!(requeue_after_save(false, 100, 604800), None);
}

#[test]
fn failure_counter_key() {
    assert_eq!(stats_key("mastodon.social"), "stats:mastodon.social");
}
