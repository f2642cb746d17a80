//! Settings of the identity provider.

use crate::text;
use vstd::prelude::*;
use vstd::string::*;

verus! {

/// Where the provider listens unless told otherwise.
pub const DEFAULT_LISTEN: &'static str = "127.0.0.1:8443";

/// Where the database lies unless told otherwise.
pub const DEFAULT_DATABASE: &'static str = "/var/lib/argus/argus.db";

/// Settings.
#[derive(Debug, Clone)]
pub struct Config {
    pub listen: String,
    pub database: String,
    /// Base URL users hit in the browser — used to build authorize URLs.
    pub external_url: String,
    /// Path of a PEM file with the signing key; without one the key lives as long as the process.
    pub signing_key_pem_path: Option<String>,
    /// Access-token lifetime (seconds).
    pub access_token_ttl: u64,
    /// Session cookie lifetime (seconds).
    pub session_ttl: u64,
    /// GitHub OAuth app credentials; the environment overrides them.
    pub github_client_id: Option<String>,
    pub github_client_secret: Option<String>,
    /// Bootstrap admin, promoted on first login only: once demoted, they stay so.
    pub bootstrap_admin_email: Option<String>,
}

/// What settings hold.
#[verifier::ext_equal]
pub struct ConfigV {
    pub listen: Seq<char>,
    pub database: Seq<char>,
    pub external_url: Seq<char>,
    pub signing_key_pem_path: Option<Seq<char>>,
    pub access_token_ttl: u64,
    pub session_ttl: u64,
    pub github_client_id: Option<Seq<char>>,
    pub github_client_secret: Option<Seq<char>>,
    pub bootstrap_admin_email: Option<Seq<char>>,
}

impl View for Config {
    type V = ConfigV;

    open spec fn view(&self) -> ConfigV {
        ConfigV {
            listen: self.listen@,
            database: self.database@,
            external_url: self.external_url@,
            signing_key_pem_path: text::opt_view(self.signing_key_pem_path),
            access_token_ttl: self.access_token_ttl,
            session_ttl: self.session_ttl,
            github_client_id: text::opt_view(self.github_client_id),
            github_client_secret: text::opt_view(self.github_client_secret),
            bootstrap_admin_email: text::opt_view(self.bootstrap_admin_email),
        }
    }
}

impl ConfigV {
    /// The issuer: the base URL without slashes at its end.
    pub open spec fn issuer(self) -> Seq<char> {
        text::without_trailing(self.external_url, '/')
    }
}

pub fn default_listen() -> (r: String)
    ensures
        r@ == DEFAULT_LISTEN@,
{
    DEFAULT_LISTEN.to_owned()
}

pub fn default_access_ttl() -> (r: u64)
    ensures
        r == 3600,
{
    3600
}

pub fn default_session_ttl() -> (r: u64)
    ensures
        r == 12 * 3600,
{
    12 * 3600
}

/// A setting, or what overrides it.
pub open spec fn overridden(setting: Option<Seq<char>>, by: Option<Seq<char>>) -> Option<Seq<char>> {
    if by is Some {
        by
    } else {
        setting
    }
}

impl Config {
    /// The settings, with the GitHub credentials of the environment in place of those in the file
    /// where the environment has them.
    pub fn with_environment(self, client_id: Option<String>, client_secret: Option<String>) -> (r: Config)
        ensures
            r@ == (ConfigV {
                github_client_id: overridden(self@.github_client_id, text::opt_view(client_id)),
                github_client_secret: overridden(self@.github_client_secret, text::opt_view(client_secret)),
                ..self@
            }),
    {
        let mut cfg: Config = self;
        if client_id.is_some() {
            cfg.github_client_id = client_id;
        }
        if client_secret.is_some() {
            cfg.github_client_secret = client_secret;
        }
        cfg
    }

    /// The issuer: the base URL without slashes at its end.
    pub fn issuer(&self) -> (r: String)
        ensures
            r@ == self@.issuer(),
    {
        text::trim_end_matches(self.external_url.as_str(), '/')
    }

    /// Where the database lies.
    pub fn database_path(&self) -> (r: String)
        ensures
            r@ == (if self@.database.len() == 0 {
                DEFAULT_DATABASE@
            } else {
                self@.database
            }),
    {
        if self.database.as_str().unicode_len() == 0 {
            DEFAULT_DATABASE.to_owned()
        } else {
            self.database.clone()
        }
    }
}

} // verus!
