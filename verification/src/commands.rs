//! The Mount's command model: everything that reaches a drive's single
//! processor — filesystem callbacks, remote events, credential
//! refreshes — becomes one of these commands, processed one at a time
//! in arrival order.

use vstd::prelude::*;
use crate::reconcile::SyncMode;

verus! {

/// Credential set of one drive.
pub struct Credentials {
    /// Short-lived access token
    pub access_token: Option<String>,
    /// Long-lived refresh token
    pub refresh_token: String,
    /// When the refresh token expires
    pub refresh_expires: String,
    /// When the access token expires
    pub access_expires: Option<String>,
}

/// A fresh token pair as the API client hands it out after a refresh.
pub struct Token {
    pub access_token: String,
    pub refresh_token: String,
    pub access_expires: String,
    pub refresh_expires: String,
}

/// Commands a Mount's processor handles, in arrival order.
pub enum MountCommand {
    /// The filesystem driver asks for a directory listing; the caller
    /// holds a reply slot outside the library
    FetchPlaceholders {
        /// The local directory asked for
        path: Vec<String>,
    },
    /// The API client refreshed the tokens; update the stored set
    RefreshCredentials {
        credentials: Token,
    },
    /// Reconcile these local paths this deep
    Sync {
        local_paths: Vec<Vec<String>>,
        mode: SyncMode,
    },
}

/// Apply a credential refresh to a drive's stored credential set: the
/// whole token pair and both expiries are replaced.
pub fn apply_credential_refresh(creds: &mut Credentials, token: Token)
    ensures
        final(creds).access_token == Some(token.access_token),
        final(creds).refresh_token == token.refresh_token,
        final(creds).refresh_expires == token.refresh_expires,
        final(creds).access_expires == Some(token.access_expires),
{
    creds.access_token = Some(token.access_token);
    creds.refresh_token = token.refresh_token;
    creds.refresh_expires = token.refresh_expires;
    creds.access_expires = Some(token.access_expires);
}

} // verus!
