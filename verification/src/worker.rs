//! The decisions of the crawl worker: which nodeinfo links to follow,
//! which crawl step stops an instance and why, when an instance is crawled
//! again, and the row that records it.
use vstd::prelude::*;

use crate::client::spec_parse_url;
use crate::client::url_is_valid;
use crate::models::CrawlerError;
use crate::models::InstanceInfo;
use crate::models::InstanceStatus;
use crate::models::Nodeinfo;
use crate::models::WellKnown;
use crate::models::WellKnownElement;
use crate::peers::lowered;
use crate::peers::normalize_peer;
use crate::domain_filter::is_valid_domain;
use crate::text::str_eq;
use crate::text::strip_prefix;
use crate::text::strip_prefix_spec;
use crate::text::take_chars;
use crate::text::take_chars_spec;
use crate::text::trim;
use crate::text::trim_spec;

verus! {

broadcast use vstd::string::group_string_axioms;

/// Seconds in a day.
pub const DAY_SECS: i64 = 86400;

/// After a successful crawl, the instance is crawled again a week later.
pub const RECRAWL_DELAY_SECS: i64 = 604800;

/// Days before an instance that forbids crawling, or answers under another
/// name, is looked at again.
pub const BLOCKED_RETRY_DAYS: i64 = 30;

/// The longest wait, in days, after repeated failures.
pub const MAX_BACKOFF_DAYS: i64 = 30;

/// The longest description that is stored, in characters.
pub const MAX_DESCRIPTION_CHARS: usize = 255;

/// The start of the `rel` of a nodeinfo link; the rest is the schema
/// version.
pub open spec fn nodeinfo_base_rel() -> Seq<char> {
    "http://nodeinfo.diaspora.software/ns/schema/"@
}

/// What a link offers: the version text after the nodeinfo schema prefix
/// and the trimmed address, when its `rel` starts with the prefix.
pub open spec fn nodeinfo_candidate(link: WellKnownElement) -> Option<(Seq<char>, Seq<char>)> {
    match strip_prefix_spec(link.rel@, nodeinfo_base_rel()) {
        Some(version) => Some((version, trim_spec(link.href@))),
        None => None,
    }
}

pub open spec fn nodeinfo_candidate_fn() -> spec_fn(WellKnownElement) -> Option<(Seq<char>, Seq<char>)> {
    |link: WellKnownElement| nodeinfo_candidate(link)
}

/// The candidates as character sequences.
pub open spec fn candidates_view(v: Seq<(String, String)>) -> Seq<(Seq<char>, Seq<char>)> {
    v.map_values(|p: (String, String)| (p.0@, p.1@))
}

/// The nodeinfo links of a well-known document that follow the nodeinfo
/// schema, in order, each as its version text and its trimmed address.
/// Which version is the latest is decided on the versions read as numbers.
pub fn nodeinfo_candidates(well_known: &WellKnown) -> (r: Vec<(String, String)>)
    ensures
        candidates_view(r@) == well_known.links@.filter_map(nodeinfo_candidate_fn()),
{
    let links = &well_known.links;
    let n = links.len();
    let mut out: Vec<(String, String)> = Vec::new();
    let mut i: usize = 0;
    proof {
        assert(links@.take(0) =~= Seq::<WellKnownElement>::empty());
        assert(candidates_view(out@) =~= Seq::<(Seq<char>, Seq<char>)>::empty());
    }
    while i < n
        invariant
            0 <= i <= n,
            n == links@.len(),
            links == well_known.links,
            candidates_view(out@) == links@.take(i as int).filter_map(nodeinfo_candidate_fn()),
        decreases n - i,
    {
        let link = &links[i];
        let version = strip_prefix(link.rel.as_str(), "http://nodeinfo.diaspora.software/ns/schema/");
        proof {
            assert(links@.take(i + 1).drop_last() =~= links@.take(i as int));
            assert(links@.take(i + 1).last() == links@[i as int]);
        }
        match version {
            Some(v) => {
                let href = trim(link.href.as_str());
                let ghost before = out@;
                out.push((v, href));
                proof {
                    assert(candidates_view(out@) =~= candidates_view(before) + seq![
                        (out@.last().0@, out@.last().1@),
                    ]);
                }
            },
            None => {},
        }
        i = i + 1;
    }
    proof {
        assert(links@.take(n as int) =~= links@);
    }
    out
}

/// Whether the crawl goes on after the robots.txt check: `Some(true)` when
/// robots.txt allows it, `Some(false)` when it forbids it, `None` when the
/// check itself failed.
pub fn after_robots_check(allowed: Option<bool>, instance: &str) -> (r: Result<(), CrawlerError>)
    ensures
        allowed == Some(true) ==> r is Ok,
        allowed == Some(false) ==> (r matches Err(CrawlerError::RobotsForbidden(name))
            && name@ == instance@),
        allowed is None ==> (r matches Err(CrawlerError::NetworkError(msg)) && msg@
            == "Failed to fetch"@),
{
    match allowed {
        Some(true) => Ok(()),
        Some(false) => Err(CrawlerError::RobotsForbidden(instance.to_owned())),
        None => Err(CrawlerError::NetworkError("Failed to fetch".to_owned())),
    }
}

/// Whether the crawl goes on after the well-known document was fetched:
/// the host that finally answered must be the instance itself.
pub fn check_final_host(final_host: String, instance: &str) -> (r: Result<(), CrawlerError>)
    ensures
        r is Ok <==> final_host@ == instance@,
        final_host@ != instance@ ==> (r matches Err(CrawlerError::Mismatched(host)) && host@
            == final_host@),
{
    if str_eq(final_host.as_str(), instance) {
        Ok(())
    } else {
        Err(CrawlerError::Mismatched(final_host))
    }
}

/// The nodeinfo address to fetch, when the URL parser accepts it.
pub fn checked_nodeinfo_url(href: String) -> (r: Result<String, CrawlerError>)
    ensures
        spec_parse_url(href@) is Some ==> (r matches Ok(u) && u@ == href@),
        spec_parse_url(href@) is None ==> (r matches Err(CrawlerError::InvalidMetadata)),
{
    if url_is_valid(href.as_str()) {
        Ok(href)
    } else {
        Err(CrawlerError::InvalidMetadata)
    }
}

/// `2` to the power `e`.
pub open spec fn two_to(e: nat) -> int
    decreases e,
{
    if e == 0 {
        1
    } else {
        2 * two_to((e - 1) as nat)
    }
}

pub proof fn lemma_two_to_monotone(a: nat, b: nat)
    requires
        a <= b,
    ensures
        1 <= two_to(a) <= two_to(b),
    decreases b,
{
    if b > 0 {
        if a < b {
            lemma_two_to_monotone(a, (b - 1) as nat);
        } else {
            lemma_two_to_monotone((a - 1) as nat, (b - 1) as nat);
        }
    }
}

/// Days to wait after the `fail_count`-th failure in a row: twice as long
/// after each failure, from one day, and never more than thirty.
pub open spec fn backoff_days_spec(fail_count: int) -> int {
    let d = two_to((fail_count - 1) as nat);
    if d < MAX_BACKOFF_DAYS {
        d
    } else {
        MAX_BACKOFF_DAYS as int
    }
}

/// Days to wait after the `fail_count`-th failure in a row. The count
/// starts at 1; from 64 on, the doubling would overflow.
pub fn backoff_days(fail_count: i32) -> (r: i64)
    requires
        1 <= fail_count <= 63,
    ensures
        r == backoff_days_spec(fail_count as int),
{
    let e: i32 = fail_count - 1;
    let mut days: i64 = 1;
    let mut k: i32 = 0;
    while k < e && days < 32
        invariant
            0 <= k <= e,
            e == fail_count - 1,
            0 <= e <= 62,
            days == two_to(k as nat),
            1 <= days < 64,
        decreases e - k,
    {
        days = days * 2;
        k = k + 1;
    }
    proof {
        lemma_two_to_monotone(k as nat, e as nat);
    }
    if days < MAX_BACKOFF_DAYS {
        days
    } else {
        MAX_BACKOFF_DAYS
    }
}

/// The days of waiting stay between one and thirty.
pub proof fn lemma_backoff_bounds(fail_count: int)
    requires
        1 <= fail_count,
    ensures
        1 <= backoff_days_spec(fail_count) <= MAX_BACKOFF_DAYS,
{
    lemma_two_to_monotone(0, (fail_count - 1) as nat);
}

/// More failures in a row never shorten the wait.
pub proof fn lemma_backoff_monotone(a: int, b: int)
    requires
        1 <= a <= b,
    ensures
        backoff_days_spec(a) <= backoff_days_spec(b),
{
    lemma_two_to_monotone((a - 1) as nat, (b - 1) as nat);
}

/// From the sixth failure in a row on, the wait is the longest one.
pub proof fn lemma_backoff_saturates(fail_count: int)
    requires
        6 <= fail_count,
    ensures
        backoff_days_spec(fail_count) == MAX_BACKOFF_DAYS,
{
    reveal_with_fuel(two_to, 6);
    lemma_two_to_monotone(5, (fail_count - 1) as nat);
}

/// The status recorded after the `fail_count`-th failure in a row: down
/// for the first two, dead from the third on.
pub open spec fn failure_status_spec(fail_count: int) -> InstanceStatus {
    if fail_count <= 2 {
        InstanceStatus::DOWN
    } else {
        InstanceStatus::DEAD
    }
}

/// The first two failures in a row record an instance as down; every
/// failure from the third on records it as dead.
pub proof fn lemma_failure_status(fail_count: int)
    requires
        1 <= fail_count,
    ensures
        fail_count <= 2 ==> failure_status_spec(fail_count) == InstanceStatus::DOWN,
        fail_count >= 3 ==> failure_status_spec(fail_count) == InstanceStatus::DEAD,
{
}

/// Once an instance is recorded as dead, further failures keep it dead:
/// the status never goes back from dead to down as the count grows.
pub proof fn lemma_failure_status_never_recovers(a: int, b: int)
    requires
        1 <= a <= b,
        failure_status_spec(a) == InstanceStatus::DEAD,
    ensures
        failure_status_spec(b) == InstanceStatus::DEAD,
{
}

/// What follows the `fail_count`-th failure in a row at time `now`: when
/// to crawl again, and the status to record.
pub fn plan_after_failure(fail_count: i32, now: i64) -> (r: (i64, InstanceStatus))
    requires
        1 <= fail_count <= 63,
        now + MAX_BACKOFF_DAYS * DAY_SECS <= i64::MAX,
    ensures
        r.0 == now + backoff_days_spec(fail_count as int) * DAY_SECS,
        now + DAY_SECS <= r.0 <= now + MAX_BACKOFF_DAYS * DAY_SECS,
        r.1 == failure_status_spec(fail_count as int),
        fail_count <= 2 ==> r.1 == InstanceStatus::DOWN,
        fail_count >= 3 ==> r.1 == InstanceStatus::DEAD,
{
    let days = backoff_days(fail_count);
    proof {
        lemma_backoff_bounds(fail_count as int);
    }
    let status = if fail_count <= 2 {
        InstanceStatus::DOWN
    } else {
        InstanceStatus::DEAD
    };
    (now + days * DAY_SECS, status)
}

/// What the worker does after a crawl ended in an error other than a
/// failure to be counted.
pub enum ErrorPlan {
    /// robots.txt forbids crawling: record the status and look again at
    /// `run_at`.
    RecordStatus { status: InstanceStatus, run_at: i64 },
    /// The instance answers as `points_to`: record that, look again at
    /// `run_at`, and queue `queue`, the name it points to, when that is a
    /// valid host name.
    RecordMismatch { points_to: String, run_at: i64, queue: Option<String> },
    /// Count the failure; see [`plan_after_failure`].
    CountFailure,
}

/// What the worker does after the crawl of an instance failed with `err`
/// at time `now`.
pub fn plan_after_error(err: CrawlerError, now: i64) -> (r: ErrorPlan)
    requires
        now + BLOCKED_RETRY_DAYS * DAY_SECS <= i64::MAX,
    ensures
        match err {
            CrawlerError::RobotsForbidden(_) => match r {
                ErrorPlan::RecordStatus { status, run_at } => {
                    &&& status == InstanceStatus::ROBOTTXT
                    &&& run_at == now + BLOCKED_RETRY_DAYS * DAY_SECS
                },
                _ => false,
            },
            CrawlerError::Mismatched(target) => match r {
                ErrorPlan::RecordMismatch { points_to, run_at, queue } => {
                    &&& points_to@ == target@
                    &&& run_at == now + BLOCKED_RETRY_DAYS * DAY_SECS
                    &&& (queue is Some <==> is_valid_domain(lowered(target@)))
                    &&& (queue matches Some(q) ==> q@ == lowered(target@))
                },
                _ => false,
            },
            _ => r == ErrorPlan::CountFailure,
        },
{
    match err {
        CrawlerError::RobotsForbidden(_) => ErrorPlan::RecordStatus {
            status: InstanceStatus::ROBOTTXT,
            run_at: now + BLOCKED_RETRY_DAYS * DAY_SECS,
        },
        CrawlerError::Mismatched(target) => {
            let queue = normalize_peer(target.as_str());
            ErrorPlan::RecordMismatch {
                points_to: target,
                run_at: now + BLOCKED_RETRY_DAYS * DAY_SECS,
                queue,
            }
        },
        _ => ErrorPlan::CountFailure,
    }
}

/// When a crawled instance is crawled again: `delay` seconds after `now`
/// when its data was saved, never when the instance is blocked and the
/// save was refused.
pub fn requeue_after_save(saved: bool, now: i64, delay: i64) -> (r: Option<i64>)
    requires
        i64::MIN <= now + delay <= i64::MAX,
    ensures
        saved ==> r == Some((now + delay) as i64),
        !saved ==> r is None,
{
    if saved {
        Some(now + delay)
    } else {
        None
    }
}

/// An optional string as an optional character sequence.
pub open spec fn opt_view(o: Option<String>) -> Option<Seq<char>> {
    match o {
        Some(s) => Some(s@),
        None => None,
    }
}

/// The description that is stored: at most its first 255 characters.
pub open spec fn stored_description(d: Seq<char>) -> Seq<char> {
    take_chars_spec(d, MAX_DESCRIPTION_CHARS as nat)
}

/// The stored description is the start of the description: its first
/// 255 characters, or all of it when it is shorter, in their order.
pub proof fn lemma_stored_description_is_prefix(d: Seq<char>)
    ensures
        stored_description(d).len() == if d.len() <= 255 {
            d.len() as int
        } else {
            255
        },
        forall|i: int| 0 <= i < stored_description(d).len() ==> #[trigger] stored_description(d)[i] == d[i],
        d.len() <= 255 ==> stored_description(d) == d,
{
}

/// A description cut to the length that is stored.
pub fn truncate_description(desc: &str) -> (r: &str)
    ensures
        r@ == stored_description(desc@),
        r@.len() == if desc@.len() <= 255 {
            desc@.len() as int
        } else {
            255
        },
        forall|i: int| 0 <= i < r@.len() ==> r@[i] == desc@[i],
{
    proof {
        lemma_stored_description_is_prefix(desc@);
    }
    take_chars(desc, MAX_DESCRIPTION_CHARS)
}

/// The row that records a crawled instance.
pub struct InstanceRecord {
    pub domain: String,
    pub software: String,
    pub software_version: String,
    pub open_registration: bool,
    pub total_users: Option<i32>,
    pub active_users_month: Option<i32>,
    pub active_users_halfyear: Option<i32>,
    pub local_posts: Option<i32>,
    pub local_comments: Option<i32>,
    pub status: InstanceStatus,
    pub title: Option<String>,
    pub description: Option<String>,
    pub email: Option<String>,
    pub thumbnail: Option<String>,
    pub source_url: Option<String>,
    pub protocols: Vec<String>,
}

/// One field of the instance's descriptive data, absent with the data.
pub open spec fn info_field(info: Option<InstanceInfo>, f: spec_fn(InstanceInfo) -> Option<String>) -> Option<Seq<char>> {
    match info {
        Some(i) => opt_view(f(i)),
        None => None,
    }
}

fn cut_description(d: Option<String>) -> (r: Option<String>)
    ensures
        match d {
            Some(s) => r matches Some(t) && t@ == stored_description(s@),
            None => r is None,
        },
{
    match d {
        Some(s) => Some(truncate_description(s.as_str()).to_owned()),
        None => None,
    }
}

/// The row recorded for `instance` after a successful crawl: the nodeinfo
/// data, the status `ACTIVE`, and the descriptive data when there is some,
/// its description cut to 255 characters.
pub fn instance_record(instance: String, nodeinfo: Nodeinfo, info: Option<InstanceInfo>) -> (r: InstanceRecord)
    ensures
        r.domain == instance,
        r.software == nodeinfo.software.name,
        r.software_version == nodeinfo.software.version,
        r.open_registration == nodeinfo.open_registrations,
        r.total_users == nodeinfo.usage.users.total,
        r.active_users_month == nodeinfo.usage.users.active_month,
        r.active_users_halfyear == nodeinfo.usage.users.active_halfyear,
        r.local_posts == nodeinfo.usage.local_posts,
        r.local_comments == nodeinfo.usage.local_comments,
        r.status == InstanceStatus::ACTIVE,
        r.protocols == nodeinfo.protocols,
        opt_view(r.title) == info_field(info, |i: InstanceInfo| i.title),
        opt_view(r.email) == info_field(info, |i: InstanceInfo| i.email),
        opt_view(r.thumbnail) == info_field(info, |i: InstanceInfo| i.thumbnail),
        opt_view(r.source_url) == info_field(info, |i: InstanceInfo| i.source_url),
        opt_view(r.description) == match info {
            Some(i) => match i.description {
                Some(d) => Some(stored_description(d@)),
                None => None,
            },
            None => None,
        },
{
    let (title, description, email, thumbnail, source_url) = match info {
        Some(i) => (i.title, cut_description(i.description), i.email, i.thumbnail, i.source_url),
        None => (None, None, None, None, None),
    };
    InstanceRecord {
        domain: instance,
        software: nodeinfo.software.name,
        software_version: nodeinfo.software.version,
        open_registration: nodeinfo.open_registrations,
        total_users: nodeinfo.usage.users.total,
        active_users_month: nodeinfo.usage.users.active_month,
        active_users_halfyear: nodeinfo.usage.users.active_halfyear,
        local_posts: nodeinfo.usage.local_posts,
        local_comments: nodeinfo.usage.local_comments,
        status: InstanceStatus::ACTIVE,
        title,
        description,
        email,
        thumbnail,
        source_url,
        protocols: nodeinfo.protocols,
    }
}

/// The key under which the failure count of `domain` is kept.
pub fn stats_key(domain: &str) -> (r: String)
    ensures
        r@ == "stats:"@ + domain@,
{
    "stats:".to_owned().concat(domain)
}

} // verus!
