//! Shares and their registry.

use fileshare::folder::{EntryKind, WalkEntry};
use fileshare::shares::{
    expiry_at, expiry_from_now, human_size, plan_share, plan_share_with_choice, prune_orphan_zips,
    refusal_message, CachedFile, NewShare, PathKind, ShareKind, SharePlan, ShareRegistry,
    SharedItem, StoredItem,
};
use fileshare::time::{format_eta, is_minutes_fit, now, plus_minutes, Timestamp, MAX_SECS};
use std::path::PathBuf;

fn at(secs: i64) -> Timestamp {
    Timestamp { secs, nanos: 0 }
}

fn item(id: &str, kind: ShareKind, added: i64) -> SharedItem {
    SharedItem {
        id: id.to_string(),
        name: format!("{}.txt", id),
        kind,
        size: 1536,
        path: PathBuf::from(format!("/files/{}", id)),
        checksum: "sum".to_string(),
        added_at: at(added),
        download_count: 0,
        download_limit: None,
        expires_at: None,
    }
}

fn registry() -> ShareRegistry {
    ShareRegistry::new(PathBuf::from("/cache"), PathBuf::from("/index.json"))
}

fn new_share(name: &str) -> NewShare {
    NewShare {
        name: name.to_string(),
        kind: ShareKind::File,
        size: 3,
        path: PathBuf::from("/files/x"),
        checksum: "c".to_string(),
        download_limit: Some(2),
        expires_at: None,
    }
}

fn ids(items: &[SharedItem]) -> Vec<String> {
    items.iter().map(|i| i.id.clone()).collect()
}

/// The size in readable units, calculated with floating-point numbers.
fn float_size(size: u64) -> String {
    let units = ["B", "KB", "MB", "GB", "TB"];
    let mut s = size as f64;
    let mut unit = 0;
    while s >= 1024.0 && unit < units.len() - 1 {
        s /= 1024.0;
        unit += 1;
    }
    if unit == 0 {
        format!("{} B", size)
    } else {
        format!("{:.1} {}", s, units[unit])
    }
}

#[test]
fn sizes_are_readable() {
    assert_eq!(human_size(0), "0 B");
    assert_eq!(human_size(1023), "1023 B");
    assert_eq!(human_size(1024), "1.0 KB");
    assert_eq!(human_size(1280), "1.2 KB");
    assert_eq!(human_size(1_048_576), "1.0 MB");
    assert_eq!(human_size(149_212_365), "142.3 MB");
    assert_eq!(human_size(u64::MAX), "16777216.0 TB");
}

#[test]
fn sizes_agree_with_floating_point() {
    let mut n: u64 = 1;
    for step in 0..20_000u64 {
        n = n.wrapping_mul(6_364_136_223_846_793_005).wrapping_add(1_442_695_040_888_963_407);
        let size = n >> (step % 64);
        assert_eq!(human_size(size), float_size(size), "{}", size);
    }
    for k in 0..4_000u64 {
        for size in [k * 128, k * 131_072 + 51_200, (1 << 53) + k, (1 << 60) + 63 * k, u64::MAX - k] {
            assert_eq!(human_size(size), float_size(size), "{}", size);
        }
    }
}

#[test]
fn shares_run_out_and_reach_their_limit() {
    let mut i = item("a", ShareKind::File, 0);
    assert!(i.is_available());
    assert!(i.expiry_countdown().is_none());
    i.expires_at = Some(at(100));
    assert!(!i.is_expired_at(&at(100)));
    assert!(i.is_expired_at(&Timestamp { secs: 100, nanos: 1 }));
    assert!(i.is_expired());
    assert!(!i.is_available());
    assert_eq!(i.expiry_countdown(), Some("expired".to_string()));
    i.expires_at = Some(at(MAX_SECS));
    assert!(!i.is_expired());
    i.download_limit = Some(1);
    assert!(!i.is_limit_reached());
    i.download_count = 1;
    assert!(i.is_limit_reached());
    assert!(!i.is_available());
    assert_eq!(i.size_human(), "1.5 KB");
}

#[test]
fn countdowns_in_words() {
    let mut i = item("a", ShareKind::File, 0);
    i.expires_at = Some(at(10_000));
    let left = |now: i64| i.expiry_countdown_at(&at(now)).unwrap();
    assert_eq!(left(10_000), "expired");
    assert_eq!(left(10_500), "expired");
    assert_eq!(left(9_999), "expires in 1s");
    assert_eq!(left(10_000 - 272), "expires in 4m 32s");
    assert_eq!(left(10_000 - 3_660), "expires in 1h 1m");
}

#[test]
fn expiry_is_counted_in_minutes() {
    assert_eq!(expiry_at(&at(100), Some(30)), Some(at(1_900)));
    assert_eq!(expiry_at(&at(100), None), None);
    assert!(is_minutes_fit(&at(0), 30));
    assert!(!is_minutes_fit(&at(0), i64::MAX as u64));
    assert_eq!(plus_minutes(&at(100), u64::MAX), at(40));
    assert_eq!(expiry_from_now(None), Some(None));
    assert_eq!(expiry_from_now(Some(i64::MAX as u64)), None);
    let soon = expiry_from_now(Some(10)).unwrap().unwrap();
    assert!(soon.seconds_since(&now()) > 500);
}

#[test]
fn registry_finds_what_was_added() {
    let mut r = registry();
    assert!(r.get("a").is_none());
    r.insert(item("a", ShareKind::File, 1));
    r.insert(item("b", ShareKind::File, 3));
    r.insert(item("c", ShareKind::File, 2));
    assert_eq!(r.get("a").unwrap().name, "a.txt");
    assert_eq!(ids(&r.list()), ["b", "c", "a"]);
    let removed = r.remove("b").unwrap();
    assert_eq!(removed.id, "b");
    assert!(r.get("b").is_none());
    assert!(r.remove("b").is_none());
    assert_eq!(ids(&r.list()), ["c", "a"]);
    assert_eq!(r.zip_cache_dir(), &PathBuf::from("/cache"));
    assert_eq!(r.index_path(), &PathBuf::from("/index.json"));
}

#[test]
fn same_id_replaces() {
    let mut r = registry();
    r.insert(item("a", ShareKind::File, 1));
    let mut other = item("a", ShareKind::Folder, 2);
    other.name = "other".to_string();
    r.insert(other);
    assert_eq!(r.list().len(), 1);
    assert_eq!(r.get("a").unwrap().name, "other");
}

#[test]
fn adding_gives_a_random_id() {
    let mut r = registry();
    let a = r.add(new_share("x"));
    let b = r.add(new_share("y"));
    assert_eq!(a.id.len(), 8);
    assert!(a.id.chars().all(|c| c.is_ascii_alphanumeric() || c == '_' || c == '-'));
    assert_ne!(a.id, b.id);
    assert_eq!(a.download_count, 0);
    assert_eq!(a.download_limit, Some(2));
    assert!(a.added_at.secs > 1_600_000_000);
    assert_eq!(r.get(&a.id).unwrap().name, "x");
    let c = r.add_at(new_share("z"), "fixed".to_string(), &at(5));
    assert_eq!(c.added_at, at(5));
    assert_eq!(r.get("fixed").unwrap().name, "z");
}

#[test]
fn index_is_written_only_when_it_changed() {
    let mut r = registry();
    assert!(r.flush_if_dirty().is_none());
    r.add_at(new_share("z"), "id".to_string(), &at(5));
    assert_eq!(r.flush_if_dirty().unwrap().len(), 1);
    assert!(r.flush_if_dirty().is_none());
    r.increment_downloads("id");
    assert_eq!(r.flush_if_dirty().unwrap()[0].download_count, 1);
    r.increment_downloads("unknown");
    assert!(r.flush_if_dirty().is_some());
    assert!(r.is_countable("id"));
    r.remove("id");
    assert_eq!(r.flush_if_dirty().unwrap().len(), 0);
}

#[test]
fn download_limits_count_down() {
    let mut r = registry();
    r.add_at(new_share("z"), "id".to_string(), &at(5));
    assert_eq!(r.list_available_at(&at(6)).len(), 1);
    r.increment_downloads("id");
    assert_eq!(r.list_available().len(), 1);
    r.increment_downloads("id");
    assert_eq!(r.list_available_at(&at(6)).len(), 0);
    assert_eq!(r.list().len(), 1);
}

#[test]
fn pruning_keeps_the_available() {
    let mut r = registry();
    r.insert(item("live", ShareKind::File, 1));
    let mut old = item("old", ShareKind::ZippedFolder, 2);
    old.expires_at = Some(at(10));
    r.insert(old);
    let mut folder = item("folder", ShareKind::Folder, 3);
    folder.expires_at = Some(at(10));
    r.insert(folder);
    assert!(r.prune_expired_at(&at(10)).is_empty());
    assert!(r.flush_if_dirty().is_none());
    let gone = r.prune_expired_at(&at(11));
    assert_eq!(gone, vec![PathBuf::from("/files/old")]);
    assert_eq!(ids(&r.list()), ["live"]);
    assert!(r.flush_if_dirty().is_some());
    assert!(r.prune_expired_at(&at(11)).is_empty());
    assert!(r.prune_expired().is_empty());
    assert!(r.flush_if_dirty().is_none());
}

#[test]
fn restoring_drops_what_is_gone() {
    let mut r = registry();
    let mut limit = item("limit", ShareKind::File, 1);
    limit.download_limit = Some(0);
    let stored = vec![
        StoredItem { item: item("zip", ShareKind::ZippedFolder, 1), exists: true },
        StoredItem { item: item("missing", ShareKind::ZippedFolder, 2), exists: false },
        StoredItem { item: limit, exists: true },
        StoredItem { item: item("file", ShareKind::File, 3), exists: true },
    ];
    let restored = r.restore_at(stored, &at(50));
    assert_eq!(restored.count, 2);
    assert_eq!(restored.archives, vec![PathBuf::from("/files/zip")]);
    assert_eq!(ids(&r.list()), ["file", "zip"]);
    let again = r.restore_from_index(vec![StoredItem {
        item: item("more", ShareKind::File, 4),
        exists: true,
    }]);
    assert_eq!(again.count, 1);
    assert_eq!(r.list().len(), 3);
}

#[test]
fn only_orphaned_archives_are_deleted() {
    let file = |name: &str, ext: Option<&str>, offered: bool| CachedFile {
        path: PathBuf::from(name),
        extension: ext.map(|e| e.to_string()),
        offered,
    };
    let files = vec![
        file("a.zip", Some("zip"), false),
        file("b.zip", Some("zip"), true),
        file("c.txt", Some("txt"), false),
        file("d", None, false),
    ];
    assert_eq!(prune_orphan_zips(&files), vec![PathBuf::from("a.zip")]);
}

#[test]
fn plans_for_paths() {
    let entries: Vec<WalkEntry> = (0..21)
        .map(|i| WalkEntry {
            kind: EntryKind::File,
            depth: 1,
            size: Some(2),
            rel_path: Some(format!("f{}", i)),
            parent_rel_path: Some(format!("d/f{}", i)),
            full_path: format!("/d/f{}", i),
        })
        .collect();
    assert!(matches!(plan_share(PathKind::File, "f", &entries), SharePlan::File));
    assert!(matches!(plan_share(PathKind::Other, "f", &entries), SharePlan::Refused));
    match plan_share(PathKind::Directory, "d", &entries) {
        SharePlan::Archive { file_name, files } => {
            assert_eq!(file_name, "d.zip");
            assert_eq!(files, 21);
        }
        other => panic!("{:?}", other),
    }
    match plan_share_with_choice(PathKind::Directory, "d", &entries, false) {
        SharePlan::Folder { size, checksum } => {
            assert_eq!(size, 42);
            assert!(checksum.starts_with("dir:"));
            assert_eq!(checksum.len(), 20);
        }
        other => panic!("{:?}", other),
    }
    assert_eq!(
        refusal_message(&PathBuf::from("/dev/null")),
        "Path is neither a file nor a directory: \"/dev/null\""
    );
}

#[test]
fn remaining_time_in_words() {
    assert_eq!(format_eta(0), "0 s");
    assert_eq!(format_eta(59), "59 s");
    assert_eq!(format_eta(61), "1 m 1 s");
    assert_eq!(format_eta(3_661), "1 h 1 m 1 s");
}

#[test]
fn available_shares_stand_in_the_order_of_the_list() {
    let mut r = registry();
    for (id, added) in [("a", 5), ("b", 9), ("c", 5), ("d", 5), ("e", 7)] {
        let mut share = item(id, ShareKind::File, added);
        if id == "c" {
            share.expires_at = Some(at(10));
        }
        r.insert(share);
    }
    assert_eq!(ids(&r.list()), ["b", "e", "a", "c", "d"]);
    assert_eq!(ids(&r.list_available_at(&at(11))), ["b", "e", "a", "d"]);
    r.remove("a");
    assert_eq!(ids(&r.list()), ["b", "e", "c", "d"]);
}
