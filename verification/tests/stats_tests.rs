use sitecheck::book::StatsBook;
use sitecheck::retry::Verdict;
use sitecheck::stats::UrlStats;
use sitecheck::status::WebsiteStatus;

#[test]
fn fresh_stats_have_zero_figures() {
    let s = UrlStats::new();
    assert_eq!(s.checks(), 0);
    assert_eq!(s.successes(), 0);
    assert_eq!(s.total_response_ms(), 0);
    assert_eq!(s.uptime_permille(), 0);
    assert_eq!(s.avg_ms_floor(), 0);
    let d = UrlStats::default();
    assert_eq!(d.checks(), 0);
    assert_eq!(d.uptime_permille(), 0);
}

#[test]
fn record_counts_checks_successes_and_time() {
    let mut s = UrlStats::new();
    s.record(true, 100);
    s.record(false, 0);
    s.record(true, 51);
    assert_eq!(s.checks(), 3);
    assert_eq!(s.successes(), 2);
    assert_eq!(s.total_response_ms(), 151);
    assert_eq!(s.uptime_permille(), 666);
    assert_eq!(s.avg_ms_floor(), 50);
}

#[test]
fn successes_never_exceed_checks() {
    let mut s = UrlStats::new();
    for i in 0..100u128 {
        s.record(i % 3 != 0, i);
        assert!(s.successes() <= s.checks());
        assert!(s.uptime_permille() <= 1000);
    }
    assert_eq!(s.checks(), 100);
    assert_eq!(s.successes(), 66);
    assert_eq!(s.uptime_permille(), 660);
    assert_eq!(s.avg_ms_floor(), 49);
}

#[test]
fn all_successes_are_full_uptime() {
    let mut s = UrlStats::new();
    s.record(true, 10);
    assert_eq!(s.uptime_permille(), 1000);
    assert_eq!(s.avg_ms_floor(), 10);
    let mut f = UrlStats::new();
    f.record(false, 0);
    assert_eq!(f.uptime_permille(), 0);
    assert_eq!(f.avg_ms_floor(), 0);
}

#[test]
fn book_keeps_one_entry_per_url() {
    let mut b = StatsBook::new();
    assert_eq!(b.len(), 0);
    let a = "http://a".to_string();
    let c = "http://c".to_string();
    b.record(&a, true, 5);
    b.record(&c, false, 0);
    b.record(&a, true, 15);
    assert_eq!(b.len(), 2);
    assert_eq!(b.url_at(0), "http://a");
    assert_eq!(b.url_at(1), "http://c");
    assert_eq!(b.stats_at(0).checks(), 2);
    assert_eq!(b.stats_at(0).successes(), 2);
    assert_eq!(b.stats_at(0).avg_ms_floor(), 10);
    assert_eq!(b.stats_at(1).checks(), 1);
    assert_eq!(b.stats_at(1).successes(), 0);
    assert_eq!(b.find(&a), Some(0));
    assert_eq!(b.find(&c), Some(1));
    assert_eq!(b.find(&"http://b".to_string()), None);
}

#[test]
fn room_is_left_until_the_counters_are_full() {
    let mut s = UrlStats::new();
    assert!(s.has_room(u128::MAX));
    s.record(true, u128::MAX - 1);
    assert!(s.has_room(1));
    assert!(!s.has_room(2));
    let mut b = StatsBook::new();
    let u = "http://a".to_string();
    assert!(b.has_room(&u, u128::MAX));
    b.record(&u, false, u128::MAX);
    assert!(b.has_room(&u, 0));
    assert!(!b.has_room(&u, 1));
    assert!(b.has_room(&"http://b".to_string(), 1));
}

#[test]
fn reports_are_folded_by_url_and_outcome() {
    let mut b = StatsBook::new();
    let ok = WebsiteStatus::stamped("http://a", Verdict { status: Ok(200), response_time_ms: 30 }, 1, 0);
    let bad = WebsiteStatus::stamped(
        "http://a",
        Verdict { status: Err("request error: x".to_string()), response_time_ms: 0 },
        2,
        0,
    );
    b.fold(&ok);
    b.fold(&bad);
    assert_eq!(b.len(), 1);
    let st = b.stats_at(0);
    assert_eq!(st.checks(), 2);
    assert_eq!(st.successes(), 1);
    assert_eq!(st.total_response_ms(), 30);
    assert_eq!(st.uptime_permille(), 500);
    assert_eq!(st.avg_ms_floor(), 15);
}
