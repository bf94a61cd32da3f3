//! What callers send to the service: the payloads of its requests, and the
//! client secret it is started with.

use vstd::prelude::*;
use crate::text::{same_text, views};

verus! {

/// The query of the callback that ends an OAuth login.
#[derive(Debug)]
pub struct OAuthCb {
    pub code: String,
    pub state: String,
}

/// The credentials of the service as a client of the identity provider.
#[derive(Debug)]
pub struct ApplicationSecret {
    pub client_id: String,
    pub client_secret: String,
    pub token_uri: String,
    pub auth_uri: String,
    pub redirect_uris: Vec<String>,
}

/// The request to sync one user on demand.
#[derive(Debug)]
pub struct SyncRequest {
    pub email: String,
    pub last_synced: Option<i64>,
}

/// The request to replace the categories of a receipt.
#[derive(Debug)]
pub struct UpdateCategories {
    pub categories: Vec<String>,
}

impl OAuthCb {
    /// Whether the callback answers the login that was begun with the state
    /// `expected`: whether it brings that very state back.
    pub fn answers(&self, expected: &str) -> (same: bool)
        ensures
            same == (self.state@ == expected@),
    {
        same_text(self.state.as_str(), expected)
    }
}

impl ApplicationSecret {
    /// The address to which the identity provider sends the user back: the
    /// first of those registered, if there is one.
    pub fn redirect_uri(&self) -> (uri: Option<String>)
        ensures
            match uri {
                Some(u) => self.redirect_uris.len() > 0 && u@ == views(self.redirect_uris@)[0],
                None => self.redirect_uris.len() == 0,
            },
    {
        if self.redirect_uris.len() > 0 {
            Some(self.redirect_uris[0].clone())
        } else {
            None
        }
    }
}

} // verus!
