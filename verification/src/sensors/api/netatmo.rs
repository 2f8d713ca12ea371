//! Credentials of the weather service.

use vstd::prelude::*;
use vstd::string::*;
use crate::msg::texts;
use crate::utils::split;
use crate::utils::split_on;
use crate::utils::trim;
use crate::utils::trimmed;

verus! {

/// What the token endpoint answers.
#[derive(Debug, Clone, Default, PartialEq, Eq)]
pub struct AuthResponse {
    pub access_token: String,
    pub expires_in: usize,
    pub refresh_token: String,
}

/// The request that renews a token.
#[derive(Debug, Clone, Default, PartialEq, Eq)]
pub struct AuthRefreshRequest {
    pub grant_type: String,
    pub refresh_token: String,
    pub client_id: String,
    pub client_secret: String,
}

/// The request that logs a single user in.
#[derive(Debug, Clone, Default, PartialEq, Eq)]
pub struct NetatmoSingleAuth {
    pub grant_type: String,
    pub client_id: String,
    pub client_secret: String,
    pub username: String,
    pub password: String,
    pub scope: String,
}

impl AuthRefreshRequest {
    /// The renewal of `previous` for the application of `client`.
    pub fn create_from(previous: &AuthResponse, client: &NetatmoSingleAuth) -> (r:
        AuthRefreshRequest)
        ensures
            r.grant_type@ == "refresh_token"@,
            r.refresh_token@ == previous.refresh_token@,
            r.client_id@ == client.client_id@,
            r.client_secret@ == client.client_secret@,
    {
        AuthRefreshRequest {
            grant_type: String::from_str("refresh_token"),
            refresh_token: previous.refresh_token.clone(),
            client_id: client.client_id.clone(),
            client_secret: client.client_secret.clone(),
        }
    }
}

impl NetatmoSingleAuth {
    /// A password login that asks for the scope `read_station`.
    pub fn with_scope_read_station(
        client_id: &str,
        client_secret: &str,
        username: &str,
        password: &str,
    ) -> (r: NetatmoSingleAuth)
        ensures
            r.grant_type@ == "password"@,
            r.client_id@ == client_id@,
            r.client_secret@ == client_secret@,
            r.username@ == username@,
            r.password@ == password@,
            r.scope@ == "read_station"@,
    {
        NetatmoSingleAuth {
            grant_type: String::from_str("password"),
            client_id: String::from_str(client_id),
            client_secret: String::from_str(client_secret),
            username: String::from_str(username),
            password: String::from_str(password),
            scope: String::from_str("read_station"),
        }
    }
}

/// How many seconds before its end a token is renewed.
pub const REFRESH_MARGIN: usize = 60;

/// The seconds to wait before a token that lasts `expires_in` seconds is
/// renewed: its life less the margin.
pub fn refresh_delay(expires_in: usize) -> (secs: u64)
    requires
        expires_in >= REFRESH_MARGIN,
    ensures
        secs == expires_in - REFRESH_MARGIN,
{
    (expires_in - REFRESH_MARGIN) as u64
}

/// Which part of the credentials is missing.
#[derive(Debug, PartialEq, Eq, Clone, Copy, Structural)]
pub enum CredentialsError {
    NoUser,
    NoPassword,
    NoClientId,
    NoSecret,
}

/// The error for credentials of fewer than five parts.
pub open spec fn missing_part(parts: nat) -> CredentialsError {
    if parts <= 1 {
        CredentialsError::NoUser
    } else if parts == 2 {
        CredentialsError::NoPassword
    } else if parts == 3 {
        CredentialsError::NoClientId
    } else {
        CredentialsError::NoSecret
    }
}

/// Reads credentials of the form `device|user|password|client|secret`. Each
/// part is trimmed; parts after the fifth are ignored.
pub fn parse(creds: &str) -> (r: Result<(String, NetatmoSingleAuth), CredentialsError>)
    ensures
        match r {
            Ok((device_id, auth)) => {
                let parts = split_on(creds@, '|');
                &&& parts.len() >= 5
                &&& device_id@ == trimmed(parts[0])
                &&& auth.username@ == trimmed(parts[1])
                &&& auth.password@ == trimmed(parts[2])
                &&& auth.client_id@ == trimmed(parts[3])
                &&& auth.client_secret@ == trimmed(parts[4])
                &&& auth.grant_type@ == "password"@
                &&& auth.scope@ == "read_station"@
            },
            Err(e) => split_on(creds@, '|').len() < 5 && e == missing_part(
                split_on(creds@, '|').len(),
            ),
        },
{
    let parts = split(creds, '|');
    assert(forall|i: int| 0 <= i < parts@.len() ==> texts(parts@)[i] == parts@[i]@);
    if parts.len() < 2 {
        return Err(CredentialsError::NoUser);
    }
    if parts.len() < 3 {
        return Err(CredentialsError::NoPassword);
    }
    if parts.len() < 4 {
        return Err(CredentialsError::NoClientId);
    }
    if parts.len() < 5 {
        return Err(CredentialsError::NoSecret);
    }
    let device_id = trim(parts[0].as_str());
    let user = trim(parts[1].as_str());
    let password = trim(parts[2].as_str());
    let client_id = trim(parts[3].as_str());
    let secret = trim(parts[4].as_str());
    let auth = NetatmoSingleAuth::with_scope_read_station(
        client_id.as_str(),
        secret.as_str(),
        user.as_str(),
        password.as_str(),
    );
    Ok((device_id, auth))
}

} // verus!
