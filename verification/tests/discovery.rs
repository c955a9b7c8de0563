//! Peers and their announcements.

use fileshare::discovery::{
    accept_service, build_props, checked_instance_name, endpoint, network_host,
    sanitise_instance_name, service_fullname, Peer, PeerRegistry, ResolvedService,
};
use fileshare::time::Timestamp;

fn at(secs: i64) -> Timestamp {
    Timestamp { secs, nanos: 0 }
}

fn service() -> ResolvedService {
    ResolvedService {
        port: 7777,
        hostname: "other.local.".to_string(),
        fullname: "alice._fileshare._tcp.local.".to_string(),
        app: Some("fileshare".to_string()),
        username: Some("alice".to_string()),
        share_count: Some("3".to_string()),
        addr: Some("192.168.1.5".to_string()),
    }
}

#[test]
fn peers_have_a_url() {
    let peer = Peer {
        username: "alice".to_string(),
        addr: "192.168.1.5".to_string(),
        port: 7777,
        share_count: 3,
        last_seen: at(100),
        manual: false,
    };
    assert_eq!(peer.http_base(), "https://192.168.1.5:7777");
    assert_eq!(endpoint("::1", 80), "::1:80");
    assert!(!peer.is_stale_at(&at(115)));
    assert!(peer.is_stale_at(&at(116)));
    assert!(peer.is_stale());
}

#[test]
fn manual_peers_stay() {
    let mut r = PeerRegistry::new();
    r.add_manual_at("10.0.0.1".to_string(), 7777, &at(0));
    r.upsert_at("10.0.0.2".to_string(), 7777, "bob".to_string(), 1, &at(0));
    r.prune_stale_at(&at(1_000));
    let peers = r.list();
    assert_eq!(peers.len(), 1);
    assert!(peers[0].manual);
    assert_eq!(peers[0].username, "10.0.0.1:7777");
    r.upsert_at("10.0.0.1".to_string(), 7777, "carol".to_string(), 4, &at(5));
    let peers = r.list();
    assert_eq!(peers.len(), 1);
    assert!(peers[0].manual);
    assert_eq!(peers[0].username, "carol");
    assert_eq!(peers[0].share_count, 4);
    r.prune_stale();
    assert_eq!(r.list().len(), 1);
    r.remove_manual("10.0.0.1", 7777);
    assert!(r.list().is_empty());
}

#[test]
fn announced_peers_are_seen_now() {
    let mut r = PeerRegistry::new();
    r.upsert("10.0.0.2".to_string(), 7777, "bob".to_string(), 1);
    r.upsert("10.0.0.2".to_string(), 7778, "bob".to_string(), 1);
    r.add_manual("10.0.0.3".to_string(), 1);
    r.prune_stale();
    assert_eq!(r.list().len(), 3);
    assert!(!r.list()[0].is_stale());
}

#[test]
fn services_are_filtered() {
    let seen = accept_service(service(), 7777, "me.local.").unwrap();
    assert_eq!(seen.addr, "192.168.1.5");
    assert_eq!(seen.port, 7777);
    assert_eq!(seen.username, "alice");
    assert_eq!(seen.share_count, 3);
    // The host's own announcement
    assert!(accept_service(service(), 7777, "other.local.").is_none());
    assert!(accept_service(service(), 7778, "other.local.").is_some());
    // Another program, or none that says so
    let mut s = service();
    s.app = Some("else".to_string());
    assert!(accept_service(s, 1, "me.local.").is_none());
    let mut s = service();
    s.app = None;
    assert!(accept_service(s, 1, "me.local.").is_none());
    // Nothing but an address
    let mut s = service();
    s.username = None;
    s.share_count = Some("many".to_string());
    let seen = accept_service(s, 1, "me.local.").unwrap();
    assert_eq!(seen.username, "alice._fileshare._tcp.local.");
    assert_eq!(seen.share_count, 0);
    let mut s = service();
    s.addr = None;
    assert!(accept_service(s, 1, "me.local.").is_none());
}

#[test]
fn announcements_are_understood() {
    let props = build_props("alice", 12);
    let get = |k: &str| props.iter().find(|p| p.0 == k).map(|p| p.1.clone());
    assert_eq!(get("version"), Some("1".to_string()));
    let mut s = service();
    s.app = get("app");
    s.username = get("username");
    s.share_count = get("share_count");
    let seen = accept_service(s, 1, "me.local.").unwrap();
    assert_eq!(seen.username, "alice");
    assert_eq!(seen.share_count, 12);
}

#[test]
fn names_of_services() {
    assert_eq!(sanitise_instance_name("Tim's PC-1"), "Tim_s_PC-1");
    assert_eq!(sanitise_instance_name("jürgen"), "jürgen");
    let long = "a".repeat(100);
    assert_eq!(sanitise_instance_name(&long).len(), 63);
    assert_eq!(checked_instance_name("ok"), Some("ok".to_string()));
    let odd = format!("{}é", "a".repeat(62));
    assert_eq!(checked_instance_name(&odd), None);
    let even = format!("{}éz", "a".repeat(61));
    assert_eq!(checked_instance_name(&even), Some(format!("{}é", "a".repeat(61))));
    assert_eq!(service_fullname("alice"), "alice._fileshare._tcp.local.");
    assert_eq!(network_host(Some("pc".to_string())), "pc.local.");
    assert_eq!(network_host(None), "localhost.local.");
}
