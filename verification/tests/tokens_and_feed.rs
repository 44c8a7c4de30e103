use catalog_search::errors::SearchError;
use catalog_search::feed::{
    feed_channel, feed_entry, select_version_updates, SyncCrateFeed, VersionUpdate,
    FEED_NUM_ITEMS,
};
use catalog_search::seek::{decode, encode, SeekPayload};
use catalog_search::sort::SortKey;

fn b(s: &str) -> Vec<u8> {
    s.as_bytes().to_vec()
}

fn roundtrip(p: SeekPayload, k: SortKey) {
    let token = encode(&p);
    assert!(token.iter().all(|c| c.is_ascii_alphanumeric()));
    let back = decode(&token, k).unwrap();
    assert_eq!(back, p);
}

#[test]
fn seek_token_roundtrips() {
    roundtrip(SeekPayload::Name { id: 42 }, SortKey::Name);
    roundtrip(SeekPayload::New { created_at: -5, id: 7 }, SortKey::New);
    roundtrip(
        SeekPayload::RecentUpdates { updated_at: 1_700_000_000_000_000, id: i64::MAX },
        SortKey::RecentUpdates,
    );
    roundtrip(
        SeekPayload::RecentDownloads { recent_downloads: None, id: i64::MIN },
        SortKey::RecentDownloads,
    );
    roundtrip(
        SeekPayload::RecentDownloads { recent_downloads: Some(12), id: 3 },
        SortKey::RecentDownloads,
    );
    roundtrip(SeekPayload::Downloads { downloads: 0, id: 0 }, SortKey::Downloads);
    roundtrip(SeekPayload::Query { exact: true, id: 9 }, SortKey::Query);
    roundtrip(SeekPayload::Query { exact: false, id: 9 }, SortKey::Query);
    roundtrip(SeekPayload::Relevance { exact: true, rank: -1, id: 1 }, SortKey::Relevance);
}

#[test]
fn seek_token_rejects_other_orderings() {
    let token = encode(&SeekPayload::Downloads { downloads: 10, id: 4 });
    assert!(decode(&token, SortKey::Downloads).is_ok());
    for k in [
        SortKey::Name,
        SortKey::New,
        SortKey::RecentUpdates,
        SortKey::RecentDownloads,
        SortKey::Query,
        SortKey::Relevance,
    ] {
        assert!(matches!(decode(&token, k), Err(SearchError::BadSeekToken)));
    }
}

#[test]
fn seek_token_rejects_malformed_input() {
    assert!(matches!(decode(&b(""), SortKey::Name), Err(SearchError::BadSeekToken)));
    assert!(matches!(decode(&b("n123"), SortKey::Name), Err(SearchError::BadSeekToken)));
    assert!(matches!(
        decode(&b("nZZZZZZZZZZZZZZZZ"), SortKey::Name),
        Err(SearchError::BadSeekToken)
    ));
    let mut long = encode(&SeekPayload::Name { id: 1 });
    long.push(b'0');
    assert!(matches!(decode(&long, SortKey::Name), Err(SearchError::BadSeekToken)));
}

fn update(version: &str, time: i64) -> VersionUpdate {
    VersionUpdate { version: b(version), time }
}

const NOW: i64 = 1_700_000_000_000_000;
const HOUR: i64 = 3_600_000_000;
const DAY: i64 = 24 * HOUR;

#[test]
fn test_load_version_updates() {
    let threshold = NOW - DAY;

    let updates = select_version_updates(&vec![], threshold);
    assert_eq!(updates.len(), 0);

    // fewer than FEED_NUM_ITEMS versions: all are returned
    let old = vec![
        update("1.2.0", NOW - 90 * DAY),
        update("1.1.0", NOW - 100 * DAY),
        update("1.0.1", NOW - 110 * DAY),
        update("1.0.0", NOW - 123 * DAY),
    ];
    let updates = select_version_updates(&old, threshold);
    assert_eq!(updates.len(), 4);
    assert_eq!(updates[0].version, b("1.2.0"));
    assert_eq!(updates[3].version, b("1.0.0"));

    // more than FEED_NUM_ITEMS old versions: only the most recent ones
    let mut many = Vec::new();
    for i in (1..=10i64).rev() {
        many.push(update(&format!("1.2.{i}"), NOW - 90 * DAY + i * HOUR));
    }
    many.extend(old.iter().map(|u| update(
        std::str::from_utf8(&u.version).unwrap(),
        u.time,
    )));
    let updates = select_version_updates(&many, threshold);
    assert_eq!(updates.len(), FEED_NUM_ITEMS);
    assert_eq!(updates[0].version, b("1.2.10"));

    // more than FEED_NUM_ITEMS versions younger than the threshold: all
    // of them are returned
    let mut fresh = Vec::new();
    for i in (1..=20i64).rev() {
        fresh.push(update(&format!("1.3.{i}"), NOW - 30 * 60_000_000 + i * 1_000_000));
    }
    fresh.extend(many.iter().map(|u| update(
        std::str::from_utf8(&u.version).unwrap(),
        u.time,
    )));
    let updates = select_version_updates(&fresh, threshold);
    assert_eq!(updates.len(), FEED_NUM_ITEMS + 10);
    assert_eq!(updates[0].version, b("1.3.20"));
}

#[test]
fn feed_entry_strings() {
    let entry = feed_entry(&b("serde"), &b("1.0.0"), &b("crates.io"), 1_662_921_288_000_000);
    assert_eq!(entry.title, b("New crate version published: serde v1.0.0"));
    assert_eq!(entry.link, b("https://crates.io/crates/serde/1.0.0"));
    assert_eq!(entry.guid, entry.link);
    assert_eq!(entry.pub_date, b("Sun, 11 Sep 2022 18:34:48 +0000"));
}

#[test]
fn feed_channel_strings() {
    let channel = feed_channel(&b("serde"), &b("crates.io"));
    assert_eq!(channel.title, b("crates.io: serde releases"));
    assert_eq!(channel.link, b("https://crates.io/crates/serde"));
    assert_eq!(
        channel.description,
        b("Recent releases of the serde crate on the crates.io package registry")
    );
}

#[test]
fn sync_crate_feed_names_its_crate() {
    let job = SyncCrateFeed::new(b("serde"));
    assert_eq!(job.name(), &b("serde"));
}
