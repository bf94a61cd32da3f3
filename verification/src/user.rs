//! Account holders.

use vstd::prelude::*;
use crate::text::{copy_opt_text, opt_text, same_text};

verus! {

/// A stored credential.
#[derive(Debug)]
pub struct Secret {
    pub password: String,
}

/// An account holder whose mailbox is synced.
#[derive(Debug)]
pub struct User {
    /// The unique key of the account.
    pub email: String,
    pub google_sub: Option<String>,
    pub name: String,
    pub active: bool,
    /// The watermark: when the last complete sync of this account began, in
    /// milliseconds since the Unix epoch.
    pub last_synced: Option<i64>,
    pub secret: Option<Secret>,
    pub gmail_token: Option<String>,
}

/// What of a `User` may leave the service.
#[derive(Debug, Clone)]
pub struct PublicUser {
    pub email: String,
    pub name: String,
    pub active: bool,
    pub last_synced: Option<i64>,
    pub google_sub: Option<String>,
}

/// The mathematical form of a `User`.
pub struct Account {
    pub email: Seq<char>,
    pub google_sub: Option<Seq<char>>,
    pub name: Seq<char>,
    pub active: bool,
    pub last_synced: Option<i64>,
    pub password: Option<Seq<char>>,
    pub gmail_token: Option<Seq<char>>,
}

/// The mathematical form of a `PublicUser`.
pub struct PublicAccount {
    pub email: Seq<char>,
    pub name: Seq<char>,
    pub active: bool,
    pub last_synced: Option<i64>,
    pub google_sub: Option<Seq<char>>,
}

impl View for User {
    type V = Account;

    open spec fn view(&self) -> Account {
        Account {
            email: self.email@,
            google_sub: opt_text(self.google_sub),
            name: self.name@,
            active: self.active,
            last_synced: self.last_synced,
            password: match self.secret {
                Some(secret) => Some(secret.password@),
                None => None,
            },
            gmail_token: opt_text(self.gmail_token),
        }
    }
}

impl View for PublicUser {
    type V = PublicAccount;

    open spec fn view(&self) -> PublicAccount {
        PublicAccount {
            email: self.email@,
            name: self.name@,
            active: self.active,
            last_synced: self.last_synced,
            google_sub: opt_text(self.google_sub),
        }
    }
}

/// What of an account may leave the service.
pub open spec fn public_part(account: Account) -> PublicAccount {
    PublicAccount {
        email: account.email,
        name: account.name,
        active: account.active,
        last_synced: account.last_synced,
        google_sub: account.google_sub,
    }
}

impl Clone for Secret {
    fn clone(&self) -> (copy: Secret)
        ensures
            copy == *self,
    {
        Secret { password: self.password.clone() }
    }
}

impl Clone for User {
    fn clone(&self) -> (copy: User)
        ensures
            copy@ == self@,
    {
        User {
            email: self.email.clone(),
            google_sub: copy_opt_text(&self.google_sub),
            name: self.name.clone(),
            active: self.active,
            last_synced: self.last_synced,
            secret: match &self.secret {
                Some(secret) => Some(secret.clone()),
                None => None,
            },
            gmail_token: copy_opt_text(&self.gmail_token),
        }
    }
}

impl From<User> for PublicUser {
    fn from(value: User) -> (public: PublicUser)
        ensures
            public@ == public_part(value@),
    {
        PublicUser {
            email: value.email,
            name: value.name,
            active: value.active,
            last_synced: value.last_synced,
            google_sub: value.google_sub,
        }
    }
}

impl vstd::std_specs::convert::FromSpecImpl<User> for PublicUser {
    open spec fn obeys_from_spec() -> bool {
        true
    }

    open spec fn from_spec(value: User) -> PublicUser {
        PublicUser {
            email: value.email,
            name: value.name,
            active: value.active,
            last_synced: value.last_synced,
            google_sub: value.google_sub,
        }
    }
}

/// What is to be written to the directory when an account signs in.
#[derive(Debug, Clone, Copy, PartialEq, Eq, Structural)]
pub enum AccountWrite {
    /// Nothing: the account is known as it is.
    Nothing,
    /// The subject and the name of the known account are to be updated.
    UpdateProfile,
    /// The account is new and is to be registered.
    Register,
}

/// The account of a user who signs in with the address `email` and the
/// subject `sub`, where the directory holds `existing` for that address.
///
/// A known account gets the subject where it had another or none, and with
/// it the name, where one is given. A new account is active, was never
/// synced, and is named by the name given, or by its address where no name
/// or an empty one is given.
pub open spec fn signed_in(
    existing: Option<Account>,
    email: Seq<char>,
    sub: Seq<char>,
    name: Option<Seq<char>>,
) -> (Account, AccountWrite) {
    match existing {
        Some(user) => if user.google_sub == Some(sub) {
            (user, AccountWrite::Nothing)
        } else {
            (
                Account {
                    google_sub: Some(sub),
                    name: match name {
                        Some(n) => n,
                        None => user.name,
                    },
                    ..user
                },
                AccountWrite::UpdateProfile,
            )
        },
        None => (
            Account {
                email,
                google_sub: Some(sub),
                name: match name {
                    Some(n) => if n.len() > 0 {
                        n
                    } else {
                        email
                    },
                    None => email,
                },
                active: true,
                last_synced: None,
                password: None,
                gmail_token: None,
            },
            AccountWrite::Register,
        ),
    }
}

/// Decides what becomes of the account of a user who signs in, and what is
/// to be written to the directory.
pub fn ensure_google_user(existing: Option<User>, email: &str, sub: &str, name: Option<&str>) -> (r:
    (User, AccountWrite))
    ensures
        (r.0@, r.1) == signed_in(
            match existing {
                Some(user) => Some(user@),
                None => None,
            },
            email@,
            sub@,
            match name {
                Some(n) => Some(n@),
                None => None,
            },
        ),
{
    match existing {
        Some(user) => {
            let known: bool = match &user.google_sub {
                Some(s) => same_text(s.as_str(), sub),
                None => false,
            };
            if known {
                (user, AccountWrite::Nothing)
            } else {
                let mut user: User = user;
                user.google_sub = Some(String::from_str(sub));
                match name {
                    Some(n) => {
                        user.name = String::from_str(n);
                    },
                    None => {},
                }
                (user, AccountWrite::UpdateProfile)
            }
        },
        None => {
            let shown: &str = match name {
                Some(n) => if n.is_empty() {
                    email
                } else {
                    n
                },
                None => email,
            };
            (
                User {
                    email: String::from_str(email),
                    google_sub: Some(String::from_str(sub)),
                    name: String::from_str(shown),
                    active: true,
                    last_synced: None,
                    secret: None,
                    gmail_token: None,
                },
                AccountWrite::Register,
            )
        },
    }
}

} // verus!
