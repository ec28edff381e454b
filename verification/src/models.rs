//! Data carried between the device-flow client, the credential store and the
//! propagator: one persisted identity record and the wire shapes of the
//! device-flow protocol.

use vstd::prelude::*;

verus! {

/// One linked GitHub account: the persisted identity record.
pub struct GitHubProvider {
    pub id: String,
    pub name: String,
    pub access_token: String,
    pub email: Option<String>,
    pub avatar_url: Option<String>,
    pub github_id: i64,
    pub created_at: i64,
    pub last_used_at: Option<i64>,
}

/// Clones an optional string, field for field.
pub fn clone_opt_string(o: &Option<String>) -> (r: Option<String>)
    ensures
        r == *o,
{
    match o {
        Some(s) => Some(s.clone()),
        None => None,
    }
}

/// Clones an optional timestamp.
pub fn clone_opt_i64(o: &Option<i64>) -> (r: Option<i64>)
    ensures
        r == *o,
{
    match o {
        Some(t) => Some(*t),
        None => None,
    }
}

impl GitHubProvider {
    pub fn new(
        id: String,
        name: String,
        access_token: String,
        email: Option<String>,
        avatar_url: Option<String>,
        github_id: i64,
        created_at: i64,
        last_used_at: Option<i64>,
    ) -> (r: Self)
        ensures
            r.id == id,
            r.name == name,
            r.access_token == access_token,
            r.email == email,
            r.avatar_url == avatar_url,
            r.github_id == github_id,
            r.created_at == created_at,
            r.last_used_at == last_used_at,
    {
        Self { id, name, access_token, email, avatar_url, github_id, created_at, last_used_at }
    }
}

impl Clone for GitHubProvider {
    fn clone(&self) -> (r: Self)
        ensures
            r == *self,
    {
        GitHubProvider {
            id: self.id.clone(),
            name: self.name.clone(),
            access_token: self.access_token.clone(),
            email: clone_opt_string(&self.email),
            avatar_url: clone_opt_string(&self.avatar_url),
            github_id: self.github_id,
            created_at: self.created_at,
            last_used_at: clone_opt_i64(&self.last_used_at),
        }
    }
}

/// What the device-code endpoint returns.
pub struct DeviceCodeResponse {
    pub device_code: String,
    pub user_code: String,
    pub verification_uri: String,
    pub expires_in: u64,
    pub interval: u64,
}

/// The part of a device-flow session that is shown to the user.
pub struct DeviceCodeInfo {
    pub user_code: String,
    pub verification_uri: String,
    pub expires_in: u64,
    pub interval: u64,
}

impl DeviceCodeResponse {
    pub fn to_info(&self) -> (r: DeviceCodeInfo)
        ensures
            r.user_code == self.user_code,
            r.verification_uri == self.verification_uri,
            r.expires_in == self.expires_in,
            r.interval == self.interval,
    {
        DeviceCodeInfo {
            user_code: self.user_code.clone(),
            verification_uri: self.verification_uri.clone(),
            expires_in: self.expires_in,
            interval: self.interval,
        }
    }
}

/// What the token endpoint returns on each poll.
pub struct AccessTokenResponse {
    pub access_token: Option<String>,
    pub token_type: Option<String>,
    pub scope: Option<String>,
    pub error: Option<String>,
    pub error_description: Option<String>,
    pub error_uri: Option<String>,
}

/// What the profile endpoint returns.
pub struct GitHubUser {
    pub id: i64,
    pub login: String,
    pub name: Option<String>,
    pub email: Option<String>,
    pub avatar_url: Option<String>,
}

/// One address from the account's email listing.
pub struct GitHubEmail {
    pub email: String,
    pub primary: bool,
    pub verified: bool,
}

} // verus!
