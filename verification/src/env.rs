//! Typed process configuration.
//!
//! The values are loaded from the environment by the surrounding
//! application; this module holds the typed settings object and the
//! checks that decide whether the loaded values are usable.

use vstd::prelude::*;

use crate::token::TokenConfig;

verus! {

/// The port used when the environment does not name one.
pub fn default_port() -> (p: u16)
    ensures
        p == 8000,
{
    8000
}

/// Typed settings: network port, database location, token signing
/// secret and lifetimes, and the media directory.
#[derive(Debug, Clone)]
pub struct Env {
    pub port: u16,
    pub database_url: String,
    pub jwt_secret: String,
    pub jwt_token_exp: i64,
    pub jwt_refresh_exp: i64,
    pub media_path: String,
}

impl Env {
    /// The loaded values are usable: every required value is present
    /// and the token lifetimes are positive.
    pub open spec fn valid(self) -> bool {
        &&& self.database_url@.len() > 0
        &&& self.jwt_secret@.len() > 0
        &&& self.media_path@.len() > 0
        &&& self.jwt_token_exp >= 1
        &&& self.jwt_refresh_exp >= 1
    }

    /// Builds the token service configuration, or `None` when the
    /// settings are unusable (a missing value, or a non-positive
    /// lifetime).
    pub fn token_config(&self) -> (r: Option<TokenConfig>)
        ensures
            match r {
                Some(cfg) => {
                    &&& self.valid()
                    &&& cfg.secret@ == self.jwt_secret@
                    &&& cfg.access_ttl == self.jwt_token_exp
                    &&& cfg.refresh_ttl == self.jwt_refresh_exp
                },
                None => !self.valid(),
            },
    {
        if self.database_url.as_str().is_empty() {
            return None;
        }
        if self.jwt_secret.as_str().is_empty() {
            return None;
        }
        if self.media_path.as_str().is_empty() {
            return None;
        }
        if self.jwt_token_exp < 1 || self.jwt_refresh_exp < 1 {
            return None;
        }
        Some(TokenConfig {
            secret: self.jwt_secret.clone(),
            access_ttl: self.jwt_token_exp as u64,
            refresh_ttl: self.jwt_refresh_exp as u64,
        })
    }
}

} // verus!
