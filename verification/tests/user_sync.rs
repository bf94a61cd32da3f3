use receipt_ingest::dedup::{untracked, TrackedEmails, TrackedSet};
use receipt_ingest::email_service::EmailService;
use receipt_ingest::lister::{ListStep, Listing};
use receipt_ingest::message::{GmailMessage, GmailMessagesResponse};
use receipt_ingest::receipt::Receipt;
use receipt_ingest::user_sync::{SyncAction, SyncEvent, SyncFailure, UserSync};

fn message(id: &str) -> GmailMessage {
    GmailMessage { id: id.to_string(), thread_id: format!("t-{}", id) }
}

fn page(ids: &[&str], next: Option<&str>) -> GmailMessagesResponse {
    GmailMessagesResponse {
        messages: Some(ids.iter().map(|id| message(id)).collect()),
        next_page_token: next.map(|t| t.to_string()),
        result_size_estimate: None,
    }
}

fn record(ids: &[&str]) -> Option<TrackedEmails> {
    Some(TrackedEmails {
        id: "ann@example.com".to_string(),
        email_ids: ids.iter().map(|id| id.to_string()).collect(),
        created_at: 0,
        updated_at: 0,
    })
}

fn receipt(msg_id: &str) -> Receipt {
    Receipt {
        msg_id: Some(msg_id.to_string()),
        owner: Some("ann@example.com".to_string()),
        issuer: Some("Bank".to_string()),
        merchant: Some("Coffee Bean".to_string()),
        amount: None,
        currency: Some("SGD".to_string()),
        categories: None,
        timestamp: Some(100),
    }
}

fn sorted(mut ids: Vec<String>) -> Vec<String> {
    ids.sort();
    ids
}

fn ids(messages: &[GmailMessage]) -> Vec<String> {
    messages.iter().map(|m| m.id.clone()).collect()
}

/// Runs a sync up to the point where the tracked set is awaited.
fn listed(candidates: &[&str]) -> UserSync {
    let state = EmailService::begin_sync(
        "ann@example.com".to_string(),
        vec!["category:primary".to_string(), "newer_than:7d".to_string()],
    );
    let (state, action) = EmailService::query_and_process_untracked(state, SyncEvent::Start);
    match action {
        SyncAction::FetchPage { owner, request } => {
            assert_eq!(owner, "ann@example.com");
            assert_eq!(request.query, "category:primary newer_than:7d");
            assert_eq!(request.page_token, None);
        }
        other => panic!("unexpected action {:?}", other),
    }
    let (state, action) =
        EmailService::query_and_process_untracked(state, SyncEvent::Page(page(candidates, None)));
    assert!(matches!(action, SyncAction::LoadTracked { .. }));
    state
}

#[test]
fn only_untracked_candidates_are_fetched() {
    let state = listed(&["a", "b", "c"]);
    let (state, action) = EmailService::query_and_process_untracked(
        state,
        SyncEvent::TrackedLoaded(record(&["a", "b"])),
    );
    match action {
        SyncAction::Process { owner, messages } => {
            assert_eq!(owner, "ann@example.com");
            assert_eq!(ids(&messages), vec!["c".to_string()]);
        }
        other => panic!("unexpected action {:?}", other),
    }
    // "c" fails the relevance filter: no receipts are reported
    let (state, action) =
        EmailService::query_and_process_untracked(state, SyncEvent::Processed(Vec::new()));
    match action {
        SyncAction::StoreTracked { owner, ids } => {
            assert_eq!(owner, "ann@example.com");
            assert_eq!(sorted(ids), vec!["a".to_string(), "b".to_string(), "c".to_string()]);
        }
        other => panic!("unexpected action {:?}", other),
    }
    let (state, action) = EmailService::query_and_process_untracked(state, SyncEvent::Stored);
    assert!(matches!(action, SyncAction::Finish));
    match state {
        UserSync::Done { receipts } => assert!(receipts.is_empty()),
        other => panic!("unexpected state {:?}", other),
    }
}

#[test]
fn a_second_sync_adds_nothing() {
    // first sync: nothing tracked yet
    let state = listed(&["m1", "m2"]);
    let (state, _) =
        EmailService::query_and_process_untracked(state, SyncEvent::TrackedLoaded(None));
    let (state, action) = EmailService::query_and_process_untracked(
        state,
        SyncEvent::Processed(vec![receipt("m1")]),
    );
    let stored = match action {
        SyncAction::StoreTracked { ids, .. } => ids,
        other => panic!("unexpected action {:?}", other),
    };
    assert_eq!(sorted(stored.clone()), vec!["m1".to_string(), "m2".to_string()]);
    let (state, _) = EmailService::query_and_process_untracked(state, SyncEvent::Stored);
    match state {
        UserSync::Done { receipts } => assert_eq!(receipts.len(), 1),
        other => panic!("unexpected state {:?}", other),
    }
    // second sync: same candidates, the stored set is loaded
    let state = listed(&["m1", "m2"]);
    let again = Some(TrackedEmails {
        id: "ann@example.com".to_string(),
        email_ids: stored,
        created_at: 0,
        updated_at: 0,
    });
    let (state, action) =
        EmailService::query_and_process_untracked(state, SyncEvent::TrackedLoaded(again));
    assert!(matches!(action, SyncAction::Finish));
    match state {
        UserSync::Done { receipts } => assert!(receipts.is_empty()),
        other => panic!("unexpected state {:?}", other),
    }
}

#[test]
fn a_listing_follows_the_cursor() {
    let state = EmailService::begin_sync("ann@example.com".to_string(), vec!["q".to_string()]);
    let (state, _) = EmailService::query_and_process_untracked(state, SyncEvent::Start);
    let (state, action) = EmailService::query_and_process_untracked(
        state,
        SyncEvent::Page(page(&["a", "b"], Some("second"))),
    );
    match action {
        SyncAction::FetchPage { request, .. } => {
            assert_eq!(request.query, "q");
            assert_eq!(request.page_token.as_deref(), Some("second"));
        }
        other => panic!("unexpected action {:?}", other),
    }
    let empty_page = GmailMessagesResponse {
        messages: None,
        next_page_token: Some("third".to_string()),
        result_size_estimate: Some(0),
    };
    let (state, action) =
        EmailService::query_and_process_untracked(state, SyncEvent::Page(empty_page));
    assert!(matches!(action, SyncAction::FetchPage { .. }));
    let (state, action) =
        EmailService::query_and_process_untracked(state, SyncEvent::Page(page(&["c"], None)));
    assert!(matches!(action, SyncAction::LoadTracked { .. }));
    match state {
        UserSync::Filtering { candidates, .. } => {
            assert_eq!(ids(&candidates), vec!["a".to_string(), "b".to_string(), "c".to_string()]);
        }
        other => panic!("unexpected state {:?}", other),
    }
}

#[test]
fn a_listing_alone_collects_its_pages() {
    let (listing, first) = Listing::start("q".to_string());
    assert_eq!(first.query, "q");
    assert_eq!(first.page_token, None);
    let listing = match listing.on_page(&page(&["a"], Some("n"))) {
        ListStep::Fetch(listing, request) => {
            assert_eq!(request.page_token.as_deref(), Some("n"));
            listing
        }
        other => panic!("unexpected step {:?}", other),
    };
    match listing.on_page(&page(&["b"], None)) {
        ListStep::Done(all) => assert_eq!(ids(&all), vec!["a".to_string(), "b".to_string()]),
        other => panic!("unexpected step {:?}", other),
    }
}

#[test]
fn a_failed_listing_fails_the_sync() {
    let state = EmailService::begin_sync("ann@example.com".to_string(), vec!["q".to_string()]);
    let (state, _) = EmailService::query_and_process_untracked(state, SyncEvent::Start);
    let (state, action) =
        EmailService::query_and_process_untracked(state, SyncEvent::ListingFailed);
    assert!(matches!(action, SyncAction::Abort));
    assert!(matches!(state, UserSync::Failed { reason: SyncFailure::Listing }));
}

#[test]
fn a_store_that_fails_fails_the_sync() {
    let state = listed(&["a"]);
    let (state, action) =
        EmailService::query_and_process_untracked(state, SyncEvent::TrackedUnavailable);
    assert!(matches!(action, SyncAction::Abort));
    assert!(matches!(state, UserSync::Failed { reason: SyncFailure::TrackedSetUnavailable }));

    let state = listed(&["a"]);
    let (state, _) =
        EmailService::query_and_process_untracked(state, SyncEvent::TrackedLoaded(None));
    let (state, _) =
        EmailService::query_and_process_untracked(state, SyncEvent::Processed(Vec::new()));
    let (state, action) = EmailService::query_and_process_untracked(state, SyncEvent::StoreFailed);
    assert!(matches!(action, SyncAction::Abort));
    assert!(matches!(state, UserSync::Failed { reason: SyncFailure::Commit }));
}

#[test]
fn an_event_out_of_place_changes_nothing() {
    let state = EmailService::begin_sync("ann@example.com".to_string(), vec!["q".to_string()]);
    let (state, action) = EmailService::query_and_process_untracked(state, SyncEvent::Stored);
    assert!(matches!(action, SyncAction::Ignore));
    assert!(matches!(state, UserSync::Idle { .. }));
    let state = listed(&["a"]);
    let (state, action) = EmailService::query_and_process_untracked(state, SyncEvent::Start);
    assert!(matches!(action, SyncAction::Ignore));
    assert!(matches!(state, UserSync::Filtering { .. }));
}

#[test]
fn a_tracked_set_holds_each_id_once() {
    let set = TrackedSet::from_list(vec!["a".to_string(), "b".to_string(), "a".to_string()]);
    assert_eq!(set.len(), 2);
    assert!(set.contains("a"));
    assert!(!set.contains("c"));
    let set = set.insert("c".to_string()).insert("b".to_string());
    assert_eq!(set.len(), 3);
    assert_eq!(set.into_list(), vec!["a".to_string(), "b".to_string(), "c".to_string()]);
    assert_eq!(TrackedSet::new().len(), 0);
    assert_eq!(TrackedSet::from_record(None).len(), 0);
    assert_eq!(TrackedSet::from_record(record(&["x", "x"])).len(), 1);
}

#[test]
fn candidates_keep_their_order() {
    let set = TrackedSet::from_list(vec!["b".to_string()]);
    let candidates = vec![message("c"), message("b"), message("a"), message("c")];
    let fresh = untracked(&candidates, &set);
    assert_eq!(ids(&fresh), vec!["c".to_string(), "a".to_string(), "c".to_string()]);
    assert_eq!(fresh[0].thread_id, "t-c");
}
