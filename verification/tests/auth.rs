use receipt_ingest::auth::{
    extract_bearer_token, extract_session_cookie, is_word_ignoring_case, read_cookie,
    seconds_after, split_words, AuthError, Claims, RefreshedToken, TokenRecord, TokenWrite,
};
use receipt_ingest::message::raw_message_url;
use receipt_ingest::text::split_chars;
use receipt_ingest::user::{ensure_google_user, AccountWrite, User};

fn record(refresh: Option<&str>) -> TokenRecord {
    TokenRecord {
        user_id: "ann@example.com".to_string(),
        account_sub: Some("sub-1".to_string()),
        account_email: "ann@example.com".to_string(),
        account_name: None,
        provider: "google".to_string(),
        scope: "mail.read".to_string(),
        access_token: "at-1".to_string(),
        refresh_token: refresh.map(|r| r.to_string()),
        expires_at: Some(50),
        updated_at: 10,
    }
}

fn claims(roles: &[&str], exp: i64) -> Claims {
    Claims {
        sub: "ann@example.com".to_string(),
        iat: 0,
        exp,
        iss: "finOS".to_string(),
        aud: "finOS".to_string(),
        roles: roles.iter().map(|r| r.to_string()).collect(),
    }
}

#[test]
fn a_session_lasts_an_hour() {
    let c = Claims::issue(&record(None), 1_000);
    assert_eq!(c.sub, "ann@example.com");
    assert_eq!(c.iat, 1_000);
    assert_eq!(c.exp, 4_600);
    assert_eq!(c.iss, "finOS");
    assert_eq!(c.aud, "finOS");
    assert_eq!(c.roles, vec!["user".to_string()]);
}

#[test]
fn a_session_ends_at_its_expiry() {
    assert!(claims(&["user"], 100).validate_expiry(99).is_ok());
    assert_eq!(claims(&["user"], 100).validate_expiry(100).err(), Some(AuthError::Expired));
    assert_eq!(claims(&["user"], 100).validate_expiry(101).err(), Some(AuthError::Expired));
}

#[test]
fn every_role_must_be_the_one_asked_for() {
    assert!(claims(&["user"], 1).validate_roles("user").is_ok());
    assert!(claims(&["user", "user"], 1).validate_roles("user").is_ok());
    assert!(claims(&[], 1).validate_roles("user").is_ok());
    assert_eq!(
        claims(&["user", "admin"], 1).validate_roles("user").err(),
        Some(AuthError::MissingRole)
    );
    assert_eq!(claims(&["admin"], 1).validate_roles("user").err(), Some(AuthError::MissingRole));
}

#[test]
fn a_refresh_token_in_the_store_is_kept() {
    let old = record(Some("rt-old"));
    let (stored, write) = record(None).prepare_store(Some(&old), 77);
    assert_eq!(write, TokenWrite::Update);
    assert_eq!(stored.refresh_token.as_deref(), Some("rt-old"));
    assert_eq!(stored.updated_at, 77);
    let (stored, write) = record(Some("rt-new")).prepare_store(Some(&old), 78);
    assert_eq!(write, TokenWrite::Update);
    assert_eq!(stored.refresh_token.as_deref(), Some("rt-new"));
    let (stored, write) = record(None).prepare_store(None, 79);
    assert_eq!(write, TokenWrite::Store);
    assert_eq!(stored.refresh_token, None);
    assert_eq!(stored.updated_at, 79);
    assert_eq!(stored.access_token, "at-1");
}

#[test]
fn a_refresh_replaces_what_the_provider_sends() {
    let refreshed = RefreshedToken {
        access_token: "at-2".to_string(),
        expires_in: Some(3_600),
        scopes: Some(vec!["a".to_string(), "b".to_string()]),
        refresh_token: None,
    };
    let r = record(Some("rt-1")).apply_refresh(refreshed, 1_000);
    assert_eq!(r.access_token, "at-2");
    assert_eq!(r.expires_at, Some(4_600));
    assert_eq!(r.scope, "a b");
    assert_eq!(r.refresh_token.as_deref(), Some("rt-1"));
    assert_eq!(r.updated_at, 1_000);
    assert_eq!(r.user_id, "ann@example.com");

    let bare = RefreshedToken {
        access_token: "at-3".to_string(),
        expires_in: None,
        scopes: None,
        refresh_token: Some("rt-2".to_string()),
    };
    let r = record(Some("rt-1")).apply_refresh(bare, 2_000);
    assert_eq!(r.expires_at, None);
    assert_eq!(r.scope, "mail.read");
    assert_eq!(r.refresh_token.as_deref(), Some("rt-2"));
    assert_eq!(seconds_after(-5, 10), 5);
    assert_eq!(seconds_after(i64::MAX - 1, 1), i64::MAX);
}

#[test]
fn the_bearer_token_is_the_second_word() {
    assert_eq!(extract_bearer_token("Bearer abc.def").as_deref(), Some("abc.def"));
    assert_eq!(extract_bearer_token("  bEaReR \t tok  more").as_deref(), Some("tok"));
    assert_eq!(extract_bearer_token("Basic abc"), None);
    assert_eq!(extract_bearer_token("Bearer"), None);
    assert_eq!(extract_bearer_token(""), None);
    assert_eq!(extract_bearer_token("Bearerx abc"), None);
}

#[test]
fn words_are_runs_without_white_space() {
    let chars: Vec<char> = " a  bc\td ".chars().collect();
    assert_eq!(split_words(&chars), vec![vec!['a'], vec!['b', 'c'], vec!['d']]);
    assert!(split_words(&Vec::new()).is_empty());
    assert!(is_word_ignoring_case(&vec!['B', 'e', 'A', 'r'], "bear"));
    assert!(!is_word_ignoring_case(&vec!['b', 'e', 'e', 'r'], "bear"));
    assert!(!is_word_ignoring_case(&vec!['b'], "bear"));
    // only ASCII capitals are folded
    assert!(!is_word_ignoring_case(&vec!['\u{c9}'], "\u{e9}"));
}

#[test]
fn the_session_is_the_first_session_cookie() {
    assert_eq!(extract_session_cookie("session=abc").as_deref(), Some("abc"));
    assert_eq!(extract_session_cookie("a=1; session=x=y ; b=2").as_deref(), Some("x=y"));
    assert_eq!(extract_session_cookie("a=1;session=;session=z").as_deref(), Some(""));
    assert_eq!(extract_session_cookie("Session=abc"), None);
    assert_eq!(extract_session_cookie("session"), None);
    assert_eq!(extract_session_cookie("xsession=abc; b"), None);
    assert_eq!(extract_session_cookie(""), None);
    assert_eq!(read_cookie(&" k=v ".chars().collect(), "k").as_deref(), Some("v"));
    assert_eq!(read_cookie(&"k =v".chars().collect(), "k"), None);
}

#[test]
fn splitting_keeps_empty_pieces() {
    let chars: Vec<char> = "a;;b;".chars().collect();
    assert_eq!(split_chars(&chars, ';'), vec![vec!['a'], vec![], vec!['b'], vec![]]);
    assert_eq!(split_chars(&Vec::new(), ';'), vec![Vec::<char>::new()]);
}

#[test]
fn a_raw_message_has_its_address() {
    assert_eq!(
        raw_message_url("18c2"),
        "https://gmail.googleapis.com/gmail/v1/users/me/messages/18c2?format=raw"
    );
}

fn known(sub: Option<&str>) -> User {
    User {
        email: "ann@example.com".to_string(),
        google_sub: sub.map(|s| s.to_string()),
        name: "Ann".to_string(),
        active: false,
        last_synced: Some(9),
        secret: None,
        gmail_token: Some("g".to_string()),
    }
}

#[test]
fn a_known_account_keeps_what_it_has() {
    let (user, write) =
        ensure_google_user(Some(known(Some("s1"))), "ann@example.com", "s1", Some("Other"));
    assert_eq!(write, AccountWrite::Nothing);
    assert_eq!(user.name, "Ann");
    let (user, write) =
        ensure_google_user(Some(known(Some("s0"))), "ann@example.com", "s1", Some("Other"));
    assert_eq!(write, AccountWrite::UpdateProfile);
    assert_eq!(user.google_sub.as_deref(), Some("s1"));
    assert_eq!(user.name, "Other");
    assert_eq!(user.last_synced, Some(9));
    assert!(!user.active);
    let (user, write) = ensure_google_user(Some(known(None)), "ann@example.com", "s1", None);
    assert_eq!(write, AccountWrite::UpdateProfile);
    assert_eq!(user.name, "Ann");
    assert_eq!(user.gmail_token.as_deref(), Some("g"));
}

#[test]
fn a_new_account_is_registered() {
    let (user, write) = ensure_google_user(None, "bob@example.com", "s2", Some("Bob"));
    assert_eq!(write, AccountWrite::Register);
    assert_eq!(user.email, "bob@example.com");
    assert_eq!(user.name, "Bob");
    assert_eq!(user.google_sub.as_deref(), Some("s2"));
    assert!(user.active);
    assert_eq!(user.last_synced, None);
    let (user, _) = ensure_google_user(None, "bob@example.com", "s2", Some(""));
    assert_eq!(user.name, "bob@example.com");
    let (user, _) = ensure_google_user(None, "bob@example.com", "s2", None);
    assert_eq!(user.name, "bob@example.com");
}

#[test]
fn a_callback_must_bring_the_state_back() {
    let cb = receipt_ingest::requests::OAuthCb { code: "c".to_string(), state: "s1".to_string() };
    assert!(cb.answers("s1"));
    assert!(!cb.answers("s2"));
    assert!(!cb.answers(""));
}

#[test]
fn the_first_redirect_address_is_used() {
    let mut secret = receipt_ingest::requests::ApplicationSecret {
        client_id: "id".to_string(),
        client_secret: "cs".to_string(),
        token_uri: "https://t".to_string(),
        auth_uri: "https://a".to_string(),
        redirect_uris: vec!["https://one".to_string(), "https://two".to_string()],
    };
    assert_eq!(secret.redirect_uri().as_deref(), Some("https://one"));
    secret.redirect_uris.clear();
    assert_eq!(secret.redirect_uri(), None);
}
