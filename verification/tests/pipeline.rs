use base64::Engine;
use receipt_ingest::email_service::{EmailService, MessageStep, SkipReason};
use receipt_ingest::ingestor::{IngestorService, RunAction, RunEvent, SyncRun, UserOutcome};
use receipt_ingest::mail::ContentError;
use receipt_ingest::message::{GmailMessage, GmailMessagesResponse, RawGmailMessage};
use receipt_ingest::receipt::{build_prompt, stamp_receipts, Amount, Receipt};
use receipt_ingest::relevance::{default_keywords, FilterError};
use receipt_ingest::user::User;
use receipt_ingest::user_sync::{SyncAction, SyncEvent, UserSync};

fn raw(id: &str, mail: &str) -> RawGmailMessage {
    RawGmailMessage {
        id: id.to_string(),
        raw: base64::engine::general_purpose::URL_SAFE_NO_PAD.encode(mail.as_bytes()),
    }
}

fn mail(subject: &str) -> String {
    format!(
        "From: Bank <no-reply@bank.com>\r\nSubject: {}\r\nDate: Thu, 01 Jan 1970 00:01:40 +0000\r\nContent-Type: text/html; charset=utf-8\r\n\r\n<div>Paid <b>SGD 12.34</b> at<br>Coffee Bean</div>",
        subject
    )
}

fn draft() -> Receipt {
    Receipt {
        msg_id: None,
        owner: None,
        issuer: None,
        merchant: Some("Coffee Bean".to_string()),
        amount: Some(Amount { bits: 12.34f64.to_bits() }),
        currency: Some("SGD".to_string()),
        categories: None,
        timestamp: None,
    }
}

fn service() -> EmailService {
    EmailService::new("llama3.1:latest".to_string(), &default_keywords())
}

const PROMPT: &str = "Issuer is Bank. Identify the transactions in this text \n Paid SGD 12.34 at\nCoffee Bean \n and Return ONLY valid JSON for the schema: { 'transactions': [ {'merchant': '...', 'amount': 0.0, 'currency': '...'} ] }";

#[test]
fn a_relevant_message_goes_to_the_model() {
    let svc = service();
    let step = svc.single_process(Some(&raw("m1", &mail("Payment confirmation"))));
    match &step {
        MessageStep::Extract(x) => {
            assert_eq!(x.request.model, "llama3.1:latest");
            assert_eq!(x.request.prompt, PROMPT);
            assert_eq!(x.issuer, "Bank");
            assert_eq!(x.timestamp, 100);
        }
        other => panic!("unexpected step {:?}", other),
    }
    let receipts =
        EmailService::finish_message("ann@example.com", "m1", &step, Some(vec![draft()]));
    assert_eq!(receipts.len(), 1);
    assert_eq!(receipts[0].msg_id.as_deref(), Some("m1"));
    assert_eq!(receipts[0].owner.as_deref(), Some("ann@example.com"));
    assert_eq!(receipts[0].issuer.as_deref(), Some("Bank"));
    assert_eq!(receipts[0].timestamp, Some(100));
    assert_eq!(receipts[0].merchant.as_deref(), Some("Coffee Bean"));
    assert_eq!(receipts[0].amount.map(|a| f64::from_bits(a.bits)), Some(12.34));
    assert_eq!(receipts[0].currency.as_deref(), Some("SGD"));
}

#[test]
fn a_model_without_an_answer_gives_no_receipt() {
    let svc = service();
    let step = svc.single_process(Some(&raw("m1", &mail("Payment confirmation"))));
    assert!(EmailService::finish_message("ann@example.com", "m1", &step, None).is_empty());
    let done = EmailService::finish_message("ann@example.com", "m1", &step, Some(Vec::new()));
    assert!(done.is_empty());
}

#[test]
fn messages_are_skipped_for_their_reasons() {
    let svc = service();
    let skipped = |m: Option<&RawGmailMessage>| match svc.single_process(m) {
        MessageStep::Skip(reason) => reason,
        other => panic!("unexpected step {:?}", other),
    };
    assert_eq!(skipped(None), SkipReason::NotFetched);
    assert_eq!(skipped(Some(&raw("m2", &mail("Hello")))), SkipReason::Irrelevant);
    let broken = RawGmailMessage { id: "m3".to_string(), raw: "***".to_string() };
    assert_eq!(skipped(Some(&broken)), SkipReason::Unreadable(ContentError::Transport));
    let empty = RawGmailMessage { id: "m4".to_string(), raw: String::new() };
    assert_eq!(skipped(Some(&empty)), SkipReason::Unreadable(ContentError::NotAMessage));
    assert_eq!(
        skipped(Some(&raw("m5", "From: Bank <b@bank.com>\r\n\r\nno subject"))),
        SkipReason::NoSubject
    );
    assert_eq!(
        skipped(Some(&raw("m6", "Subject: Payment\r\nContent-Type: text/html\r\n\r\n<p>x</p>"))),
        SkipReason::NoSender
    );
    assert_eq!(
        skipped(Some(&raw(
            "m7",
            "From: Bank <b@bank.com>\r\nSubject: Payment\r\nContent-Type: text/html\r\n\r\n<p>x</p>"
        ))),
        SkipReason::NoDate
    );
    assert_eq!(
        skipped(Some(&raw(
            "m8",
            "From: Bank <b@bank.com>\r\nSubject: Payment\r\nDate: Thu, 01 Jan 1970 00:01:40 +0000\r\nContent-Type: application/pdf\r\n\r\nxx"
        ))),
        SkipReason::NoBody
    );
    // a skipped message gives no receipt, whatever the answer
    let step = svc.single_process(Some(&raw("m2", &mail("Hello"))));
    assert!(EmailService::finish_message("a@x.com", "m2", &step, Some(vec![draft()])).is_empty());
}

#[test]
fn a_filter_that_does_not_compile_skips_the_message() {
    let mut svc = service();
    svc.subject_filter.pattern = "(".to_string();
    match svc.single_process(Some(&raw("m1", &mail("Payment confirmation")))) {
        MessageStep::Skip(reason) => assert_eq!(reason, SkipReason::FilterBroken),
        other => panic!("unexpected step {:?}", other),
    }
}

#[test]
fn selection_asks_for_sender_body_and_date() {
    let content = receipt_ingest::message::ParsedEmailContent {
        subject: Some("Payment".to_string()),
        from_name: Some("Bank".to_string()),
        from_addr: None,
        text: None,
        html: Some("<p>x</p>".to_string()),
        timestamp: Some(9),
    };
    assert_eq!(
        EmailService::select(&content, Ok(true)),
        Ok(("Bank".to_string(), "<p>x</p>".to_string(), 9))
    );
    assert_eq!(EmailService::select(&content, Ok(false)), Err(SkipReason::Irrelevant));
    assert_eq!(
        EmailService::select(&content, Err(FilterError::InvalidPattern)),
        Err(SkipReason::FilterBroken)
    );
}

#[test]
fn stamping_keeps_what_the_model_said() {
    let mut second = draft();
    second.categories = Some(vec!["food".to_string()]);
    second.msg_id = Some("made up".to_string());
    let stamped = stamp_receipts(vec![draft(), second], "m9", "Bank", "ann@example.com", 42);
    assert_eq!(stamped.len(), 2);
    assert_eq!(stamped[1].msg_id.as_deref(), Some("m9"));
    assert_eq!(stamped[1].categories, Some(vec!["food".to_string()]));
    assert_eq!(stamped[0].categories, None);
    assert_eq!(stamped[0].timestamp, Some(42));
    assert!(stamp_receipts(Vec::new(), "m9", "Bank", "ann@example.com", 42).is_empty());
}

#[test]
fn the_prompt_names_issuer_and_text() {
    assert_eq!(
        build_prompt("Wise", "line"),
        "Issuer is Wise. Identify the transactions in this text \n line \n and Return ONLY valid JSON for the schema: { 'transactions': [ {'merchant': '...', 'amount': 0.0, 'currency': '...'} ] }"
    );
}

#[test]
fn two_candidates_one_receipt() {
    const NOW: i64 = 1_700_000_000_000;
    let ann = User {
        email: "ann@example.com".to_string(),
        google_sub: None,
        name: "Ann".to_string(),
        active: true,
        last_synced: None,
        secret: None,
        gmail_token: None,
    };
    let ingestor = IngestorService::new(vec!["no-reply@bank.com".to_string()]);
    let emails = service();

    // the run plans one task
    let (run, _) = ingestor.sync_receipts(SyncRun::Idle, RunEvent::Tick { now: NOW });
    let (run, action) = ingestor.sync_receipts(run, RunEvent::Users(vec![ann]));
    let mut tasks = match action {
        RunAction::Spawn(tasks) => tasks,
        other => panic!("unexpected action {:?}", other),
    };
    let task = tasks.remove(0);
    assert_eq!(task.queries[2], "newer_than:7d");

    // the task lists two candidates, none of them tracked
    let sync = EmailService::begin_sync(task.email, task.queries);
    let (sync, _) = EmailService::query_and_process_untracked(sync, SyncEvent::Start);
    let listing = GmailMessagesResponse {
        messages: Some(vec![
            GmailMessage { id: "m1".to_string(), thread_id: "t1".to_string() },
            GmailMessage { id: "m2".to_string(), thread_id: "t2".to_string() },
        ]),
        next_page_token: None,
        result_size_estimate: Some(2),
    };
    let (sync, _) = EmailService::query_and_process_untracked(sync, SyncEvent::Page(listing));
    let (sync, action) =
        EmailService::query_and_process_untracked(sync, SyncEvent::TrackedLoaded(None));
    let (owner, messages) = match action {
        SyncAction::Process { owner, messages } => (owner, messages),
        other => panic!("unexpected action {:?}", other),
    };
    assert_eq!(messages.len(), 2);

    // each message is processed; the model answers for m1 only
    let mut receipts = Vec::new();
    for m in &messages {
        let subject = if m.id == "m1" { "Payment confirmation" } else { "Hello" };
        let step = emails.single_process(Some(&raw(&m.id, &mail(subject))));
        let answer = match &step {
            MessageStep::Extract(_) => Some(vec![draft()]),
            MessageStep::Skip(_) => None,
        };
        receipts.extend(EmailService::finish_message(&owner, &m.id, &step, answer));
    }
    let (sync, action) =
        EmailService::query_and_process_untracked(sync, SyncEvent::Processed(receipts));
    match action {
        SyncAction::StoreTracked { ids, .. } => {
            let mut ids = ids;
            ids.sort();
            assert_eq!(ids, vec!["m1".to_string(), "m2".to_string()]);
        }
        other => panic!("unexpected action {:?}", other),
    }
    let (sync, _) = EmailService::query_and_process_untracked(sync, SyncEvent::Stored);
    let batch = match sync {
        UserSync::Done { receipts } => receipts,
        other => panic!("unexpected state {:?}", other),
    };
    assert_eq!(batch.len(), 1);
    assert_eq!(batch[0].msg_id.as_deref(), Some("m1"));

    // the run stores the receipt and advances the watermark
    let (run, action) =
        ingestor.sync_receipts(run, RunEvent::Joined(vec![UserOutcome::Synced(batch)]));
    match action {
        RunAction::InsertReceipts(batch) => {
            assert_eq!(batch.len(), 1);
            assert_eq!(batch[0].msg_id.as_deref(), Some("m1"));
            assert_eq!(batch[0].owner.as_deref(), Some("ann@example.com"));
        }
        other => panic!("unexpected action {:?}", other),
    }
    let (_, action) = ingestor.sync_receipts(run, RunEvent::Written);
    match action {
        RunAction::UpdateWatermarks(users) => {
            assert_eq!(users.len(), 1);
            assert_eq!(users[0].last_synced, Some(NOW));
        }
        other => panic!("unexpected action {:?}", other),
    }
}
