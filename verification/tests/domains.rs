use fedi_crawler::domain_filter::is_valid;
use fedi_crawler::peers::batch_peers;
use fedi_crawler::peers::normalize_peer;

#[test]
fn accepts_ordinary_host_names() {
    assert!(is_valid("mastodon.social"));
    assert!(is_valid("pixelfed.social"));
    assert!(is_valid("a.b"));
    assert!(is_valid("sub-domain.example.co.uk"));
    assert!(is_valid("123.example"));
    assert!(is_valid("Mastodon.Social"));
}

#[test]
fn rejects_single_label() {
    assert!(!is_valid("localhost"));
    assert!(!is_valid(""));
}

#[test]
fn rejects_empty_labels() {
    assert!(!is_valid(".com"));
    assert!(!is_valid("example."));
    assert!(!is_valid("a..b"));
    assert!(!is_valid("."));
}

#[test]
fn rejects_hyphen_at_label_edges() {
    assert!(!is_valid("-example.com"));
    assert!(!is_valid("example-.com"));
    assert!(!is_valid("example.-com"));
    assert!(is_valid("ex-ample.com"));
}

#[test]
fn rejects_characters_outside_labels() {
    assert!(!is_valid("ex_ample.com"));
    assert!(!is_valid("exa mple.com"));
    assert!(!is_valid("exämple.com"));
    assert!(!is_valid("example.com/path"));
    assert!(!is_valid("example.com:443"));
}

#[test]
fn rejects_blocked_marker() {
    assert!(!is_valid("activitypub-troll.cf"));
    assert!(!is_valid("x.activitypub-troll.example"));
    assert!(is_valid("activitypub-trol.example"));
    // The marker is matched as written, upper case included.
    assert!(is_valid("ActivityPub-Troll.example"));
}

#[test]
fn label_length_limit() {
    let ok = format!("{}.com", "a".repeat(63));
    let long = format!("{}.com", "a".repeat(64));
    assert!(is_valid(&ok));
    assert!(!is_valid(&long));
}

#[test]
fn total_length_limit() {
    // 4 labels of 61 characters and 3 dots: 247, plus ".abcde" = 253.
    let base = vec!["a".repeat(61); 4].join(".");
    let at_limit = format!("{}.abcde", base);
    assert_eq!(at_limit.len(), 253);
    assert!(is_valid(&at_limit));
    let over = format!("{}.abcdef", base);
    assert_eq!(over.len(), 254);
    assert!(!is_valid(&over));
}

#[test]
fn normalize_lowercases_and_validates() {
    assert_eq!(normalize_peer("Mastodon.SOCIAL"), Some("mastodon.social".to_string()));
    assert_eq!(normalize_peer("mastodon.social"), Some("mastodon.social".to_string()));
    assert_eq!(normalize_peer("not a domain"), None);
    assert_eq!(normalize_peer("localhost"), None);
}

#[test]
fn normalize_twice_is_normalize_once() {
    let once = normalize_peer("Fosstodon.ORG").unwrap();
    assert_eq!(normalize_peer(&once), Some(once.clone()));
}

#[test]
fn batches_follow_chunks_of_one_hundred() {
    let mut peers = Vec::new();
    for i in 0..250 {
        peers.push(format!("Host{}.Example", i));
    }
    let batches = batch_peers(&peers);
    assert_eq!(batches.len(), 3);
    assert_eq!(batches[0].len(), 100);
    assert_eq!(batches[1].len(), 100);
    assert_eq!(batches[2].len(), 50);
    assert_eq!(batches[0][0], "host0.example");
    assert_eq!(batches[2][49], "host249.example");
}

#[test]
fn batches_drop_invalid_names_and_empty_chunks() {
    let mut peers = Vec::new();
    for i in 0..100 {
        peers.push(format!("bad host {}", i));
    }
    peers.push("ok.example".to_string());
    peers.push("nodot".to_string());
    peers.push("Also.OK".to_string());
    let batches = batch_peers(&peers);
    assert_eq!(batches, vec![vec!["ok.example".to_string(), "also.ok".to_string()]]);
}

#[test]
fn batches_of_nothing() {
    let peers: Vec<String> = Vec::new();
    assert!(batch_peers(&peers).is_empty());
}

#[test]
fn flattened_batches_are_the_accepted_names_in_order() {
    let peers: Vec<String> = (0..230)
        .map(|i| if i % 3 == 0 { format!("x{}", i) } else { format!("X{}.Net", i) })
        .collect();
    let flat: Vec<String> = batch_peers(&peers).into_iter().flatten().collect();
    let expected: Vec<String> = peers
        .iter()
        .map(|p| p.to_lowercase())
        .filter(|p| is_valid(p))
        .collect();
    assert_eq!(flat, expected);
}
