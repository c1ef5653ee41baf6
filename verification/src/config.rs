//! The settings of a run, with the defaults of those that may be left out.
//!
//! Reading the settings from a file or from the environment is the caller's
//! part, and so is reading a secret that the settings keep in a file: the
//! caller hands the file's text to the getter.

use crate::model::view_of;
use crate::text::{decimal, join, to_decimal, trim, trimmed};
use vstd::prelude::*;
use vstd::string::StringExecFns;

verus! {

/// A password.
pub type Pass = String;

/// The LDAP port where none is set and TLS is off.
pub const LDAP_PORT: u16 = 389;

/// The LDAP port where none is set and TLS is on.
pub const LDAPS_PORT: u16 = 636;

/// The seconds between two passes where none are set.
pub const SYNC_INTERVAL_SECONDS: u64 = 60;

/// Where a secret is to be had.
#[derive(Debug, PartialEq, Eq)]
pub enum SecretSource {
    /// The settings hold the secret itself.
    Inline(String),
    /// The settings name a file that holds it.
    File(String),
    /// The settings hold neither.
    Unset,
}

/// The model of a [`SecretSource`].
pub enum SecretSourceView {
    Inline(Seq<char>),
    File(Seq<char>),
    Unset,
}

impl View for SecretSource {
    type V = SecretSourceView;

    open spec fn view(&self) -> SecretSourceView {
        match self {
            SecretSource::Inline(secret) => SecretSourceView::Inline(secret@),
            SecretSource::File(path) => SecretSourceView::File(path@),
            SecretSource::Unset => SecretSourceView::Unset,
        }
    }
}

/// Where a secret is to be had, given its two settings: the value wins over
/// the file.
pub open spec fn secret_source(value: Option<String>, file: Option<String>) -> SecretSourceView {
    match (value, file) {
        (Some(secret), _) => SecretSourceView::Inline(secret@),
        (None, Some(path)) => SecretSourceView::File(path@),
        (None, None) => SecretSourceView::Unset,
    }
}

/// The secret, given where it is to be had and the text of the file, which
/// counts only where the file is the source and is then trimmed.
pub open spec fn secret(source: SecretSourceView, file_text: Seq<char>) -> Option<Seq<char>> {
    match source {
        SecretSourceView::Inline(secret) => Some(secret),
        SecretSourceView::File(_) => Some(trimmed(file_text)),
        SecretSourceView::Unset => None,
    }
}

fn source_of(value: &Option<String>, file: &Option<String>) -> (r: SecretSource)
    ensures
        r@ == secret_source(*value, *file),
{
    match value {
        Some(secret) => SecretSource::Inline(secret.clone()),
        None => match file {
            Some(path) => SecretSource::File(path.clone()),
            None => SecretSource::Unset,
        },
    }
}

fn resolve(value: &Option<String>, file: &Option<String>, file_text: &str) -> (r: Option<String>)
    ensures
        view_of(r) == secret(secret_source(*value, *file), file_text@),
{
    match value {
        Some(secret) => Some(secret.clone()),
        None => match file {
            Some(_) => Some(trim(file_text)),
            None => None,
        },
    }
}

/// All settings of a run.
#[derive(Debug, PartialEq, Eq)]
pub struct Config {
    // Vaultwarden connection
    pub vaultwarden_url: String,
    pub vaultwarden_admin_token: Option<String>,
    pub vaultwarden_admin_token_file: Option<String>,
    pub vaultwarden_root_cert_file: Option<String>,
    // LDAP connection
    pub ldap_host: String,
    pub ldap_scheme: Option<String>,
    pub ldap_ssl: Option<bool>,
    pub ldap_starttls: Option<bool>,
    pub ldap_port: Option<u16>,
    pub ldap_no_tls_verify: Option<bool>,
    // LDAP authentication
    pub ldap_bind_dn: Option<String>,
    pub ldap_bind_password: Option<Pass>,
    pub ldap_bind_password_file: Option<Pass>,
    // LDAP search
    pub ldap_search_base_dn: String,
    pub ldap_search_filter: String,
    // LDAP record attributes
    pub ldap_mail_field: Option<String>,
    // Seconds between two passes
    pub ldap_sync_interval_seconds: Option<u64>,
    // Whether to go on pass after pass
    pub ldap_sync_loop: Option<bool>,
}

impl Config {
    /// Whether TLS is on.
    pub open spec fn ssl(&self) -> bool {
        match self.ldap_ssl {
            Some(ssl) => ssl,
            None => false,
        }
    }

    /// The scheme of the directory's URL: the one set, else by TLS.
    pub open spec fn scheme(&self) -> Seq<char> {
        match self.ldap_scheme {
            Some(scheme) => scheme@,
            None => if self.ssl() {
                "ldaps"@
            } else {
                "ldap"@
            },
        }
    }

    /// The directory's port: the one set, else by TLS.
    pub open spec fn port(&self) -> u16 {
        match self.ldap_port {
            Some(port) => port,
            None => if self.ssl() {
                LDAPS_PORT
            } else {
                LDAP_PORT
            },
        }
    }

    /// The directory's URL: scheme, host and port.
    pub open spec fn url(&self) -> Seq<char> {
        self.scheme() + "://"@ + self.ldap_host@ + ":"@ + decimal(self.port() as nat)
    }

    /// The attribute that holds a record's mail address: the one set, else
    /// `mail`.
    pub open spec fn mail_field(&self) -> Seq<char> {
        match self.ldap_mail_field {
            Some(field) => field@,
            None => "mail"@,
        }
    }

    /// The base URL of the Vaultwarden server.
    pub fn get_vaultwarden_url(&self) -> (r: String)
        ensures
            r@ == self.vaultwarden_url@,
    {
        self.vaultwarden_url.clone()
    }

    /// Where the admin token is to be had.
    pub fn vaultwarden_admin_token_source(&self) -> (r: SecretSource)
        ensures
            r@ == secret_source(self.vaultwarden_admin_token, self.vaultwarden_admin_token_file),
    {
        source_of(&self.vaultwarden_admin_token, &self.vaultwarden_admin_token_file)
    }

    /// The admin token. `file_text` is the text of the token file and counts
    /// only where that file is the token's source.
    pub fn get_vaultwarden_admin_token(&self, file_text: &str) -> (r: String)
        requires
            self.vaultwarden_admin_token is Some || self.vaultwarden_admin_token_file is Some,
        ensures
            Some(r@) == secret(
                secret_source(self.vaultwarden_admin_token, self.vaultwarden_admin_token_file),
                file_text@,
            ),
    {
        let token = resolve(
            &self.vaultwarden_admin_token,
            &self.vaultwarden_admin_token_file,
            file_text,
        );
        match token {
            Some(token) => token,
            None => String::new(),
        }
    }

    /// The path of the certificate to trust; empty where none is set.
    pub fn get_vaultwarden_root_cert_file(&self) -> (r: String)
        ensures
            r@ == match self.vaultwarden_root_cert_file {
                Some(path) => path@,
                None => Seq::<char>::empty(),
            },
    {
        match &self.vaultwarden_root_cert_file {
            Some(vaultwarden_root_cert_file) => vaultwarden_root_cert_file.clone(),
            None => String::new(),
        }
    }

    /// The URL of the directory: scheme, host and port.
    pub fn get_ldap_url(&self) -> (r: String)
        ensures
            r@ == self.url(),
    {
        let scheme = self.get_ldap_scheme();
        let port = to_decimal(self.get_ldap_port() as u64);
        let mut r = join(scheme.as_str(), "://");
        r.append(self.ldap_host.as_str());
        r.append(":");
        r.append(port.as_str());
        r
    }

    /// The host of the directory.
    pub fn get_ldap_host(&self) -> (r: String)
        ensures
            r@ == self.ldap_host@,
    {
        self.ldap_host.clone()
    }

    /// The scheme of the directory's URL: the one set, else `ldaps` with TLS
    /// and `ldap` without.
    pub fn get_ldap_scheme(&self) -> (r: String)
        ensures
            r@ == self.scheme(),
    {
        match &self.ldap_scheme {
            Some(ldap_scheme) => ldap_scheme.clone(),
            None => {
                if self.get_ldap_ssl() {
                    String::from_str("ldaps")
                } else {
                    String::from_str("ldap")
                }
            },
        }
    }

    /// Whether the directory is reached over TLS; not unless set.
    pub fn get_ldap_ssl(&self) -> (r: bool)
        ensures
            r == self.ssl(),
    {
        match self.ldap_ssl {
            Some(ssl) => ssl,
            None => false,
        }
    }

    /// Whether the connection is upgraded by StartTLS; not unless set.
    pub fn get_ldap_starttls(&self) -> (r: bool)
        ensures
            r == match self.ldap_starttls {
                Some(starttls) => starttls,
                None => false,
            },
    {
        match self.ldap_starttls {
            Some(starttls) => starttls,
            None => false,
        }
    }

    /// Whether the directory's certificate goes unverified; not unless set.
    pub fn get_ldap_no_tls_verify(&self) -> (r: bool)
        ensures
            r == match self.ldap_no_tls_verify {
                Some(no_tls_verify) => no_tls_verify,
                None => false,
            },
    {
        match self.ldap_no_tls_verify {
            Some(no_tls_verify) => no_tls_verify,
            None => false,
        }
    }

    /// The port of the directory: the one set, else 636 with TLS and 389
    /// without.
    pub fn get_ldap_port(&self) -> (r: u16)
        ensures
            r == self.port(),
    {
        match self.ldap_port {
            Some(ldap_port) => ldap_port,
            None => {
                if self.get_ldap_ssl() {
                    LDAPS_PORT
                } else {
                    LDAP_PORT
                }
            },
        }
    }

    /// The name that the directory is bound with, if any.
    pub fn get_ldap_bind_dn(&self) -> (r: Option<String>)
        ensures
            view_of(r) == view_of(self.ldap_bind_dn),
    {
        match &self.ldap_bind_dn {
            Some(ldap_bind_dn) => Some(ldap_bind_dn.clone()),
            None => None,
        }
    }

    /// Where the bind password is to be had.
    pub fn ldap_bind_password_source(&self) -> (r: SecretSource)
        ensures
            r@ == secret_source(self.ldap_bind_password, self.ldap_bind_password_file),
    {
        source_of(&self.ldap_bind_password, &self.ldap_bind_password_file)
    }

    /// The bind password, if any. `file_text` is the text of the password
    /// file and counts only where that file is the password's source.
    pub fn get_ldap_bind_password(&self, file_text: &str) -> (r: Option<String>)
        ensures
            view_of(r) == secret(
                secret_source(self.ldap_bind_password, self.ldap_bind_password_file),
                file_text@,
            ),
    {
        resolve(&self.ldap_bind_password, &self.ldap_bind_password_file, file_text)
    }

    /// The base below which the directory is searched.
    pub fn get_ldap_search_base_dn(&self) -> (r: String)
        ensures
            r@ == self.ldap_search_base_dn@,
    {
        self.ldap_search_base_dn.clone()
    }

    /// The filter that picks the directory's users.
    pub fn get_ldap_search_filter(&self) -> (r: String)
        ensures
            r@ == self.ldap_search_filter@,
    {
        self.ldap_search_filter.clone()
    }

    /// The attribute that holds a record's mail address: the one set, else
    /// `mail`.
    pub fn get_ldap_mail_field(&self) -> (r: String)
        ensures
            r@ == self.mail_field(),
    {
        match &self.ldap_mail_field {
            Some(mail_field) => mail_field.clone(),
            None => String::from_str("mail"),
        }
    }

    /// The seconds between two passes: those set, else 60.
    pub fn get_ldap_sync_interval_seconds(&self) -> (r: u64)
        ensures
            r == match self.ldap_sync_interval_seconds {
                Some(seconds) => seconds,
                None => SYNC_INTERVAL_SECONDS,
            },
    {
        match self.ldap_sync_interval_seconds {
            Some(seconds) => seconds,
            None => SYNC_INTERVAL_SECONDS,
        }
    }

    /// Whether a pass follows a pass; it does unless set otherwise.
    pub fn get_ldap_sync_loop(&self) -> (r: bool)
        ensures
            r == match self.ldap_sync_loop {
                Some(sync_loop) => sync_loop,
                None => true,
            },
    {
        match self.ldap_sync_loop {
            Some(sync_loop) => sync_loop,
            None => true,
        }
    }
}

} // verus!
