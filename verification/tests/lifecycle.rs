use ip_pool::model::IpDetail;
use ip_pool::task::{verify_outcome, TaskCycle, VerifyAction, MAX_FAILED_CHECKS, RECRAWL_ROUNDS};
use ip_pool::{now_millis, LiveKeyCache, Resp};

fn detail() -> IpDetail {
    IpDetail {
        ip: "123.45.67.89".to_string(),
        port: "8080".to_string(),
        protocol_type: "http".to_string(),
        level: "1".to_string(),
        region: "中国 广东 深圳".to_string(),
        crawling_time: 1718000000000,
        live_time: 600000,
        is_live: true,
        verify_count: 3,
        die_verify_count: 0,
    }
}

#[test]
fn live_and_died_update_the_counters() {
    let d = detail().died();
    assert!(!d.is_live);
    assert_eq!(d.die_verify_count, 1);
    assert_eq!(d.live_time, 0);
    assert_eq!(d.verify_count, 3);
    let d = d.died();
    assert_eq!(d.die_verify_count, 2);
    let d = d.live();
    assert!(d.is_live);
    assert_eq!(d.verify_count, 4);
    assert_eq!(d.live_time, 600000);
    assert_eq!(d.die_verify_count, 0);
    assert_eq!(d.ip, "123.45.67.89");
    assert_eq!(d.region, "中国 广东 深圳");
}

#[test]
fn proxies_are_removed_after_ten_failures_in_a_row() {
    let mut d = detail();
    for n in 1..=MAX_FAILED_CHECKS {
        d = match verify_outcome(d, false) {
            VerifyAction::Store(x) => x,
            VerifyAction::Remove(_) => panic!("removed too early"),
        };
        assert_eq!(d.die_verify_count, n);
        assert!(!d.is_live);
    }
    match verify_outcome(d, false) {
        VerifyAction::Remove(x) => assert_eq!(x.die_verify_count, MAX_FAILED_CHECKS),
        VerifyAction::Store(_) => panic!("kept too long"),
    }
    let mut d = detail();
    d.die_verify_count = 9;
    match verify_outcome(d, true) {
        VerifyAction::Store(x) => {
            assert!(x.is_live);
            assert_eq!(x.die_verify_count, 0);
            assert_eq!(x.verify_count, 4);
            assert_eq!(x.live_time, 1_200_000);
        }
        VerifyAction::Remove(_) => panic!("a live proxy is kept"),
    }
}

#[test]
fn crawls_are_due_every_72_rounds_or_when_empty() {
    let mut cycle = TaskCycle::new();
    assert!(cycle.begin_round(100));
    cycle.end_round();
    let mut crawls = 0;
    for _ in 1..RECRAWL_ROUNDS {
        if cycle.begin_round(100) {
            crawls += 1;
        }
        cycle.end_round();
    }
    assert_eq!(crawls, 0);
    assert!(cycle.begin_round(100));
    cycle.end_round();
    assert!(!cycle.begin_round(5));
    assert!(cycle.begin_round(0));
}

#[test]
fn cache_serves_fresh_keys_only() {
    let mut cache = LiveKeyCache::new(60);
    assert!(cache.cached_keys(0, "ip_live::*").is_none());
    let keys = vec![
        "ip_live::http::1".to_string(),
        "ip_live::socks5::2".to_string(),
        "ip_live::http::1".to_string(),
    ];
    let back = cache.refresh(keys.clone(), 1_000);
    assert_eq!(back, keys);
    assert_eq!(
        cache.cached_keys(30_000, "ip_live::http::*").unwrap(),
        vec!["ip_live::http::1"]
    );
    assert_eq!(cache.cached_keys(60_999, "ip_live::*").unwrap().len(), 2);
    assert!(cache.cached_keys(61_000, "ip_live::*").is_none());
    // a clock read before the refresh counts as no time elapsed
    assert!(cache.cached_keys(0, "ip_live::*").is_some());
    cache.refresh(Vec::new(), 2_000);
    assert!(cache.cached_keys(2_000, "ip_live::*").is_none());
}

#[test]
fn responses() {
    let ok: Resp<usize> = Resp::success(128);
    assert_eq!(ok.code, 0);
    assert_eq!(ok.msg, "");
    assert_eq!(ok.data, Some(128));
    let err: Resp<usize> = Resp::error(404, "ip pool is null");
    assert_eq!(err.code, 404);
    assert_eq!(err.msg, "ip pool is null");
    assert!(err.data.is_none());
}

#[test]
fn clock_is_past_2024() {
    assert!(now_millis() > 1_704_067_200_000);
}
