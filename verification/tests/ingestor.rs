use receipt_ingest::ingestor::{
    IngestorService, RunAction, RunEvent, RunFailure, SyncRun, UserOutcome,
};
use receipt_ingest::receipt::{Amount, Receipt};
use receipt_ingest::user::{PublicUser, Secret, User};

fn user(email: &str, last_synced: Option<i64>) -> User {
    User {
        email: email.to_string(),
        google_sub: Some("sub".to_string()),
        name: "N".to_string(),
        active: true,
        last_synced,
        secret: Some(Secret { password: "pw".to_string() }),
        gmail_token: None,
    }
}

fn receipt(owner: &str, msg_id: &str) -> Receipt {
    Receipt {
        msg_id: Some(msg_id.to_string()),
        owner: Some(owner.to_string()),
        issuer: Some("Bank".to_string()),
        merchant: Some("Shop".to_string()),
        amount: Some(Amount { bits: 12.34f64.to_bits() }),
        currency: Some("SGD".to_string()),
        categories: None,
        timestamp: Some(100),
    }
}

fn service() -> IngestorService {
    IngestorService::new(vec!["no-reply@bank.com".to_string()])
}

const NOW: i64 = 1_700_000_000_000;

fn spawned(users: Vec<User>) -> SyncRun {
    let svc = service();
    let (state, action) = svc.sync_receipts(SyncRun::Idle, RunEvent::Tick { now: NOW });
    assert!(matches!(action, RunAction::ListActiveUsers));
    let n = users.len();
    let (state, action) = svc.sync_receipts(state, RunEvent::Users(users));
    match action {
        RunAction::Spawn(tasks) => assert_eq!(tasks.len(), n),
        other => panic!("unexpected action {:?}", other),
    }
    state
}

#[test]
fn one_failed_user_leaves_the_other_alone() {
    let svc = service();
    let state = spawned(vec![user("a@x.com", Some(5)), user("b@x.com", None)]);
    let outcomes = vec![UserOutcome::Failed, UserOutcome::Synced(vec![receipt("b@x.com", "m1")])];
    let (state, action) = svc.sync_receipts(state, RunEvent::Joined(outcomes));
    match action {
        RunAction::InsertReceipts(batch) => {
            assert_eq!(batch.len(), 1);
            assert_eq!(batch[0].owner.as_deref(), Some("b@x.com"));
            assert_eq!(batch[0].amount, Some(Amount { bits: 12.34f64.to_bits() }));
        }
        other => panic!("unexpected action {:?}", other),
    }
    let (state, action) = svc.sync_receipts(state, RunEvent::Written);
    match action {
        RunAction::UpdateWatermarks(users) => {
            assert_eq!(users.len(), 1);
            assert_eq!(users[0].email, "b@x.com");
            assert_eq!(users[0].last_synced, Some(NOW));
            assert_eq!(users[0].secret.as_ref().map(|s| s.password.as_str()), Some("pw"));
        }
        other => panic!("unexpected action {:?}", other),
    }
    let (state, action) = svc.sync_receipts(state, RunEvent::Written);
    assert!(matches!(action, RunAction::Finish));
    match state {
        SyncRun::Done { report } => {
            assert_eq!(report.failed, vec!["a@x.com".to_string()]);
            assert_eq!(report.updated_users.len(), 1);
            assert_eq!(report.receipts.len(), 1);
        }
        other => panic!("unexpected state {:?}", other),
    }
}

#[test]
fn a_run_without_receipts_writes_the_watermarks_only() {
    let svc = service();
    let state = spawned(vec![user("a@x.com", None), user("b@x.com", None)]);
    let outcomes = vec![UserOutcome::Synced(Vec::new()), UserOutcome::Aborted];
    let (state, action) = svc.sync_receipts(state, RunEvent::Joined(outcomes));
    match action {
        RunAction::UpdateWatermarks(users) => {
            assert_eq!(users.len(), 1);
            assert_eq!(users[0].email, "a@x.com");
            assert_eq!(users[0].last_synced, Some(NOW));
        }
        other => panic!("unexpected action {:?}", other),
    }
    let (state, action) = svc.sync_receipts(state, RunEvent::Written);
    assert!(matches!(action, RunAction::Finish));
    assert!(matches!(state, SyncRun::Done { .. }));
}

#[test]
fn receipts_stand_in_the_order_of_the_users() {
    let users = vec![user("a@x.com", None), user("b@x.com", None), user("c@x.com", None)];
    let outcomes = vec![
        UserOutcome::Synced(vec![receipt("a@x.com", "m1"), receipt("a@x.com", "m2")]),
        UserOutcome::Failed,
        UserOutcome::Synced(vec![receipt("c@x.com", "m3")]),
    ];
    let report = IngestorService::aggregate(NOW, &users, &outcomes);
    let ids: Vec<_> = report.receipts.iter().map(|r| r.msg_id.clone().unwrap()).collect();
    assert_eq!(ids, vec!["m1".to_string(), "m2".to_string(), "m3".to_string()]);
    let updated: Vec<_> = report.updated_users.iter().map(|u| u.email.clone()).collect();
    assert_eq!(updated, vec!["a@x.com".to_string(), "c@x.com".to_string()]);
    assert_eq!(report.failed, vec!["b@x.com".to_string()]);
}

#[test]
fn each_user_gets_a_task_with_its_own_window() {
    let svc = service();
    let users = vec![user("a@x.com", None), user("b@x.com", Some(NOW - 90_000_000))];
    let tasks = svc.plan(NOW, &users);
    assert_eq!(tasks.len(), 2);
    assert_eq!(tasks[0].email, "a@x.com");
    assert_eq!(tasks[0].queries[2], "newer_than:7d");
    assert_eq!(tasks[1].email, "b@x.com");
    assert_eq!(tasks[1].queries[1], "from:(no-reply@bank.com)");
    assert_eq!(tasks[1].queries[2], "newer_than:2d");
}

#[test]
fn a_failed_write_fails_the_run() {
    let svc = service();
    let state = spawned(vec![user("a@x.com", None)]);
    let outcomes = vec![UserOutcome::Synced(vec![receipt("a@x.com", "m1")])];
    let (state, _) = svc.sync_receipts(state, RunEvent::Joined(outcomes));
    let (state, action) = svc.sync_receipts(state, RunEvent::WriteFailed);
    assert!(matches!(action, RunAction::Abort));
    assert!(matches!(state, SyncRun::Failed { reason: RunFailure::ReceiptStore }));

    let state = spawned(vec![user("a@x.com", None)]);
    let (state, _) =
        svc.sync_receipts(state, RunEvent::Joined(vec![UserOutcome::Synced(Vec::new())]));
    let (state, action) = svc.sync_receipts(state, RunEvent::WriteFailed);
    assert!(matches!(action, RunAction::Abort));
    assert!(matches!(state, SyncRun::Failed { reason: RunFailure::Watermarks }));
}

#[test]
fn a_directory_that_fails_fails_the_run() {
    let svc = service();
    let (state, _) = svc.sync_receipts(SyncRun::Idle, RunEvent::Tick { now: NOW });
    let (state, action) = svc.sync_receipts(state, RunEvent::UsersUnavailable);
    assert!(matches!(action, RunAction::Abort));
    assert!(matches!(state, SyncRun::Failed { reason: RunFailure::UsersUnavailable }));
}

#[test]
fn outcomes_that_do_not_fit_the_users_are_ignored() {
    let svc = service();
    let state = spawned(vec![user("a@x.com", None)]);
    let (state, action) = svc.sync_receipts(state, RunEvent::Joined(Vec::new()));
    assert!(matches!(action, RunAction::Ignore));
    assert!(matches!(state, SyncRun::AwaitingTasks { .. }));
    let (state, action) = svc.sync_receipts(state, RunEvent::Written);
    assert!(matches!(action, RunAction::Ignore));
    assert!(matches!(state, SyncRun::AwaitingTasks { .. }));
}

#[test]
fn a_public_user_has_no_secret() {
    let public = PublicUser::from(user("a@x.com", Some(7)));
    assert_eq!(public.email, "a@x.com");
    assert_eq!(public.name, "N");
    assert!(public.active);
    assert_eq!(public.last_synced, Some(7));
    assert_eq!(public.google_sub.as_deref(), Some("sub"));
}

#[test]
fn december_is_followed_by_january() {
    assert_eq!(receipt_ingest::receipt::next_month(2024, 12), (2025, 1));
    assert_eq!(receipt_ingest::receipt::next_month(2024, 1), (2024, 2));
    assert_eq!(receipt_ingest::receipt::next_month(-1, 11), (-1, 12));
}
