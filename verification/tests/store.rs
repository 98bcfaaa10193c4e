use ip_pool::ip_cache::{
    cache_key, ip_field, ip_lookup, is_valid_ip, is_valid_port, live_key_at, live_key_fields,
    live_key_pattern, live_set_key, proxy_url, random_live_key, storage_plan, total_count,
    IpLookup, KeyScan, KeySearch, SearchStep,
};
use ip_pool::glob::glob_match;
use ip_pool::model::IpDetail;

fn detail(ip: &str, port: &str, protocol: &str, level: &str) -> IpDetail {
    IpDetail {
        ip: ip.to_string(),
        port: port.to_string(),
        protocol_type: protocol.to_string(),
        level: level.to_string(),
        region: "中国 广东 深圳".to_string(),
        crawling_time: 1718000000000,
        live_time: 0,
        is_live: true,
        verify_count: 0,
        die_verify_count: 0,
    }
}

#[test]
fn ip_addresses_are_dotted_quads() {
    assert!(is_valid_ip("123.45.67.89"));
    assert!(is_valid_ip("0.0.0.0"));
    assert!(is_valid_ip("255.255.255.255"));
    assert!(is_valid_ip("+1.02.3.4"));
    assert!(!is_valid_ip("256.1.1.1"));
    assert!(!is_valid_ip("1.2.3"));
    assert!(!is_valid_ip("1.2.3.4.5"));
    assert!(!is_valid_ip("1..3.4"));
    assert!(!is_valid_ip(" 1.2.3.4"));
    assert!(!is_valid_ip(""));
}

#[test]
fn ports_are_one_to_65535() {
    assert!(is_valid_port("8080"));
    assert!(is_valid_port("1"));
    assert!(is_valid_port("65535"));
    assert!(!is_valid_port("0"));
    assert!(!is_valid_port("65536"));
    assert!(!is_valid_port("80a"));
    assert!(!is_valid_port(""));
}

#[test]
fn redis_keys_follow_the_data_model() {
    assert_eq!(cache_key("http", "1"), "ip_cache::http::1");
    assert_eq!(live_set_key("socks5", "3"), "ip_live::socks5::3");
    assert_eq!(ip_field("123.45.67.89", "8080"), "123.45.67.89:8080");
    assert_eq!(live_key_pattern(Some("http")), "ip_live::http::*");
    assert_eq!(live_key_pattern(None), "ip_live::*");
    assert_eq!(
        live_key_fields("ip_live::https::2"),
        Some(("https".to_string(), "2".to_string()))
    );
    assert_eq!(live_key_fields("ip_live::https"), None);
    assert_eq!(
        live_key_fields("ip_live::a::b::c"),
        Some(("a".to_string(), "b".to_string()))
    );
    // a key read back gives what it was made of
    for (p, l) in [("http", "1"), ("https", "5"), ("socks4", ""), ("", "2")] {
        assert_eq!(
            live_key_fields(&live_set_key(p, l)),
            Some((p.to_string(), l.to_string()))
        );
    }
}

#[test]
fn lookups_by_request() {
    match ip_lookup(Some("http"), Some("1")) {
        IpLookup::Direct { set_key, protocol_type, level } => {
            assert_eq!(set_key, "ip_live::http::1");
            assert_eq!(protocol_type, "http");
            assert_eq!(level, "1");
        }
        IpLookup::Scan { .. } => panic!("expected a direct lookup"),
    }
    match ip_lookup(Some("http"), None) {
        IpLookup::Scan { pattern } => assert_eq!(pattern, "ip_live::http::*"),
        IpLookup::Direct { .. } => panic!("expected a scan"),
    }
    match ip_lookup(None, Some("1")) {
        IpLookup::Scan { pattern } => assert_eq!(pattern, "ip_live::*"),
        IpLookup::Direct { .. } => panic!("expected a scan"),
    }
}

#[test]
fn random_keys_come_from_the_list() {
    let keys = vec!["ip_live::http::1".to_string(), "ip_live::socks5::2".to_string()];
    for _ in 0..20 {
        let (k, p, l) = random_live_key(&keys).unwrap();
        assert!(keys.contains(&k));
        assert_eq!(live_set_key(&p, &l), k);
    }
    assert!(random_live_key(&Vec::new()).is_none());
    assert!(random_live_key(&vec!["broken".to_string()]).is_none());
    assert_eq!(
        live_key_at(&keys, 1),
        Some(("ip_live::socks5::2".to_string(), "socks5".to_string(), "2".to_string()))
    );
}

#[test]
fn proxy_urls_by_protocol() {
    assert_eq!(proxy_url(&detail("1.2.3.4", "80", "http", "1")).unwrap(), "http://1.2.3.4:80");
    assert_eq!(proxy_url(&detail("1.2.3.4", "80", "https", "1")).unwrap(), "https://1.2.3.4:80");
    assert_eq!(proxy_url(&detail("1.2.3.4", "80", "socks4", "1")).unwrap(), "socks4://1.2.3.4:80");
    assert_eq!(proxy_url(&detail("1.2.3.4", "80", "socks5", "1")).unwrap(), "socks5://1.2.3.4:80");
    assert_eq!(proxy_url(&detail("1.2.3.4", "80", "socks", "1")).unwrap(), "socks5://1.2.3.4:80");
    assert_eq!(proxy_url(&detail("1.2.3.4", "80", "ftp", "1")).unwrap(), "http://1.2.3.4:80");
    assert!(proxy_url(&detail("", "80", "http", "1")).is_none());
    assert!(proxy_url(&detail("1.2.3.4", "", "http", "1")).is_none());
    assert!(proxy_url(&detail("1.2.3.400", "80", "http", "1")).is_none());
    assert!(proxy_url(&detail("1.2.3.4", "0", "http", "1")).is_none());
}

#[test]
fn storage_follows_liveness() {
    let d = detail("1.2.3.4", "80", "http", "1");
    let plan = storage_plan(&d);
    assert_eq!(plan.cache_key, "ip_cache::http::1");
    assert_eq!(plan.field, "1.2.3.4:80");
    assert_eq!(plan.live_key, "ip_live::http::1");
    assert!(plan.in_live_set);
    let dead = d.died();
    let plan2 = storage_plan(&dead);
    assert_eq!(plan2.cache_key, plan.cache_key);
    assert_eq!(plan2.field, plan.field);
    assert_eq!(plan2.live_key, plan.live_key);
    assert!(!plan2.in_live_set);
}

#[test]
fn counts_add_up() {
    assert_eq!(total_count(&vec![]), 0);
    assert_eq!(total_count(&vec![3, 0, 7]), 10);
}

#[test]
fn scans_run_until_cursor_zero() {
    let mut scan = KeyScan::new();
    assert_eq!(scan.cursor, "0");
    assert!(!scan.finished);
    scan.step(Some((
        Some("17".to_string()),
        Some(vec![Some("ip_cache::http::1".to_string()), None, Some("ip_cache::https::2".to_string())]),
    )));
    assert_eq!(scan.cursor, "17");
    assert!(!scan.finished);
    assert_eq!(scan.keys, vec!["ip_cache::http::1", "ip_cache::https::2"]);
    scan.step(Some((None, None)));
    assert_eq!(scan.cursor, "17");
    assert!(!scan.finished);
    scan.step(Some((Some("0".to_string()), Some(vec![Some("k".to_string())]))));
    assert!(scan.finished);
    assert_eq!(scan.keys.len(), 3);

    let mut bad = KeyScan::new();
    bad.step(None);
    assert!(bad.finished);
    assert!(bad.keys.is_empty());
}

#[test]
fn live_keys_match_their_patterns() {
    for (p, l) in [("http", "1"), ("socks5", "5"), ("https", ""), ("a:b", "2")] {
        let key = live_set_key(p, l);
        assert!(glob_match(&live_key_pattern(None), &key));
        assert!(glob_match(&live_key_pattern(Some(p)), &key));
    }
    assert!(!glob_match(&live_key_pattern(Some("http")), &live_set_key("https", "1")));
}

#[test]
fn searches_pick_once_per_key_then_give_up() {
    let keys = vec!["ip_live::http::1".to_string(), "ip_live::https::3".to_string()];
    let mut search = KeySearch::new(&keys);
    assert_eq!(search.attempts_left, 2);
    for _ in 0..2 {
        match search.next_candidate(&keys) {
            SearchStep::Try { key, protocol_type, level } => {
                assert!(keys.contains(&key));
                assert_eq!(live_set_key(&protocol_type, &level), key);
            }
            _ => panic!("every key names a live set"),
        }
    }
    assert!(matches!(search.next_candidate(&keys), SearchStep::Exhausted));
    assert_eq!(search.attempts_left, 0);

    let broken = vec!["broken".to_string()];
    let mut search = KeySearch::new(&broken);
    assert!(matches!(search.next_candidate(&broken), SearchStep::Skip));
    assert!(matches!(search.next_candidate(&broken), SearchStep::Exhausted));

    let mut search = KeySearch::new(&Vec::new());
    assert!(matches!(search.next_candidate(&Vec::new()), SearchStep::Exhausted));
}
