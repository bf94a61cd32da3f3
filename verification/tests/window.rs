use receipt_ingest::ingestor::IngestorService;
use receipt_ingest::user::User;
use receipt_ingest::window::{clauses_for, window_day_count, window_for, DAY_MS};

fn user(last_synced: Option<i64>) -> User {
    User {
        email: "ann@example.com".to_string(),
        google_sub: None,
        name: "Ann".to_string(),
        active: true,
        last_synced,
        secret: None,
        gmail_token: None,
    }
}

#[test]
fn twenty_five_hours_make_a_two_day_window() {
    let now: i64 = 1_700_000_000_000;
    assert_eq!(IngestorService::get_time_query(now, now - 90_000_000), "2");
    assert_eq!(window_day_count(now, now - 90_000_000), 2);
}

#[test]
fn a_user_never_synced_gets_a_week() {
    let service = IngestorService::new(vec!["a@bank.com".to_string()]);
    let clauses = service.build_query(1_700_000_000_000, &user(None));
    assert_eq!(clauses[2], "newer_than:7d");
    assert_eq!(window_for(5, None), 7);
}

#[test]
fn the_window_is_never_empty() {
    assert_eq!(IngestorService::get_time_query(1000, 1000), "1");
    assert_eq!(IngestorService::get_time_query(1000, 999), "1");
    // a watermark in the future counts as no distance
    assert_eq!(IngestorService::get_time_query(1000, 5000), "1");
}

#[test]
fn whole_days_are_not_rounded_further() {
    assert_eq!(window_day_count(DAY_MS, 0), 1);
    assert_eq!(window_day_count(DAY_MS + 1, 0), 2);
    assert_eq!(window_day_count(3 * DAY_MS, 0), 3);
    assert_eq!(window_day_count(3 * DAY_MS - 1, 0), 3);
}

#[test]
fn the_widest_window_does_not_overflow() {
    // (2^64 - 1) ms, rounded up to days
    assert_eq!(window_day_count(i64::MAX, i64::MIN), 213_503_982_335);
    assert_eq!(IngestorService::get_time_query(i64::MAX, i64::MIN), "213503982335");
    assert_eq!(window_day_count(i64::MIN, i64::MAX), 1);
}

#[test]
fn the_query_has_three_clauses() {
    let service = IngestorService::new(vec![
        "no-reply@bank.com".to_string(),
        "pay@wallet.io".to_string(),
    ]);
    let now: i64 = 1_700_000_000_000;
    let clauses = service.build_query(now, &user(Some(now - 10 * DAY_MS)));
    assert_eq!(
        clauses,
        vec![
            "category:primary".to_string(),
            "from:(no-reply@bank.com OR pay@wallet.io)".to_string(),
            "newer_than:10d".to_string(),
        ]
    );
}

#[test]
fn a_single_issuer_is_not_joined() {
    let clauses = clauses_for(&vec!["only@bank.com".to_string()], 120);
    assert_eq!(clauses[1], "from:(only@bank.com)");
    assert_eq!(clauses[2], "newer_than:120d");
    let none = clauses_for(&vec![], 1);
    assert_eq!(none[1], "from:()");
}

#[test]
fn a_request_on_demand_gets_the_same_query() {
    let service = IngestorService::new(vec!["a@bank.com".to_string()]);
    let now: i64 = 1_700_000_000_000;
    assert_eq!(service.query_for(now, None), service.build_query(now, &user(None)));
    assert_eq!(service.query_for(now, Some(now - DAY_MS - 1))[2], "newer_than:2d");
}
