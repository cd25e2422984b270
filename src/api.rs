//! How the engine authenticates with the provider.

use vstd::prelude::*;
use crate::error::Error;

verus! {

/// The ways to authenticate with the provider's records API.
#[derive(Debug)]
pub enum Credentials {
    /// An API key with the account's email; still accepted, but deprecated.
    UserAuthKey { email: String, key: String },
    /// A bearer API token.
    UserAuthToken { token: String },
}

/// The credentials that the given settings select: the token when there is
/// one, else the key with its email; neither is a configuration error.
pub open spec fn credentials_for(
    token: Option<String>,
    key: Option<String>,
    email: Option<String>,
) -> Result<Credentials, Error> {
    match token {
        Some(token) => Ok(Credentials::UserAuthToken { token }),
        None => match (key, email) {
            (Some(key), Some(email)) => Ok(Credentials::UserAuthKey { email, key }),
            _ => Err(Error::Configuration),
        },
    }
}

/// Chooses the credentials to authenticate with (see `credentials_for`).
pub fn get_credentials(token: Option<String>, key: Option<String>, email: Option<String>) -> (r:
    Result<Credentials, Error>)
    ensures
        r == credentials_for(token, key, email),
{
    match token {
        Some(token) => Ok(Credentials::UserAuthToken { token }),
        None => match (key, email) {
            (Some(key), Some(email)) => Ok(Credentials::UserAuthKey { email, key }),
            _ => Err(Error::Configuration),
        },
    }
}

/// Whether `c` authenticates with the deprecated key and email pair.
pub fn is_deprecated(c: &Credentials) -> (r: bool)
    ensures
        r == (*c is UserAuthKey),
{
    match c {
        Credentials::UserAuthKey { .. } => true,
        Credentials::UserAuthToken { .. } => false,
    }
}

} // verus!
