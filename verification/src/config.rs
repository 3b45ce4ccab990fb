//! The configuration of the server: built once at startup from what the
//! environment sets, with a default for everything that it leaves unset.

use vstd::prelude::*;
use vstd::string::StringExecFns;
use rand::RngCore;
use crate::token::TokenRegistry;

verus! {

/// Length in bytes of a session-signing secret that is drawn at random.
pub const SECRET_LEN: usize = 64;

/// `fill_bytes` of `rand::thread_rng()` on a buffer of `len` bytes: fresh
/// random bytes. Only their number is claimed.
#[verifier::external_body]
fn random_bytes(len: usize) -> (r: Vec<u8>)
    ensures
        r@.len() == len,
{
    let mut bytes = vec![0u8; len];
    rand::thread_rng().fill_bytes(&mut bytes);
    bytes
}

/// What the environment sets; `None` for what it leaves unset.
#[derive(Debug)]
pub struct Overrides {
    pub port: Option<String>,
    pub host: Option<String>,
    pub secret: Option<String>,
    pub admin_name: Option<String>,
    pub admin_pass: Option<String>,
    pub api_token: Option<String>,
}

/// The configuration that the components are handed.
#[derive(Debug)]
pub struct Config {
    pub port: String,
    pub host: String,
    /// The secret that signs session cookies.
    pub secret: Vec<u8>,
    pub admin_name: String,
    pub admin_pass: String,
    pub api_token: String,
    /// Whether the admin's name is the built-in default.
    pub default_admin_name: bool,
    /// Whether the admin's password is the built-in default.
    pub default_admin_pass: bool,
    /// Whether the API token is the built-in default.
    pub default_api_token: bool,
}

/// `value` where it is set, else `default`.
pub open spec fn text_or(value: Option<String>, default: Seq<char>) -> Seq<char> {
    match value {
        Some(text) => text@,
        None => default,
    }
}

fn or_default(value: Option<String>, default: &str) -> (r: String)
    ensures
        r@ == text_or(value, default@),
{
    match value {
        Some(text) => text,
        None => String::from_str(default),
    }
}

impl Config {
    /// Name of the session cookie.
    pub fn session_cookie_name() -> (r: &'static str)
        ensures
            r@ == "cyberdeck_session"@,
    {
        "cyberdeck_session"
    }

    /// Directory of the built frontend.
    pub fn frontend_dir() -> (r: &'static str)
        ensures
            r@ == "./ui/dist"@,
    {
        "./ui/dist"
    }

    /// Builds the configuration. Each text is the one that is set, else its
    /// default. The secret is the bytes of the text that is set, else
    /// sixty-four random bytes.
    pub fn resolve(overrides: Overrides) -> (r: Config)
        ensures
            r.port@ == text_or(overrides.port, "8080"@),
            r.host@ == text_or(overrides.host, "0.0.0.0"@),
            r.admin_name@ == text_or(overrides.admin_name, "admin"@),
            r.admin_pass@ == text_or(overrides.admin_pass, "averyhardpass"@),
            r.api_token@ == text_or(overrides.api_token, "easytoken"@),
            r.default_admin_name == overrides.admin_name is None,
            r.default_admin_pass == overrides.admin_pass is None,
            r.default_api_token == overrides.api_token is None,
            match overrides.secret {
                Some(text) => r.secret@ == vstd::utf8::encode_utf8(text@),
                None => r.secret@.len() == SECRET_LEN,
            },
    {
        let default_admin_name = overrides.admin_name.is_none();
        let default_admin_pass = overrides.admin_pass.is_none();
        let default_api_token = overrides.api_token.is_none();
        let secret = match &overrides.secret {
            Some(text) => vstd::slice::slice_to_vec(text.as_str().as_bytes()),
            None => random_bytes(SECRET_LEN),
        };
        Config {
            port: or_default(overrides.port, "8080"),
            host: or_default(overrides.host, "0.0.0.0"),
            secret,
            admin_name: or_default(overrides.admin_name, "admin"),
            admin_pass: or_default(overrides.admin_pass, "averyhardpass"),
            api_token: or_default(overrides.api_token, "easytoken"),
            default_admin_name,
            default_admin_pass,
            default_api_token,
        }
    }

    /// The address to listen on: host, a colon, port.
    pub fn address(&self) -> (r: String)
        ensures
            r@ == self.host@ + ":"@ + self.port@,
    {
        let mut out = self.host.clone();
        out.append(":");
        out.append(self.port.as_str());
        out
    }

    /// The registry that holds the configured API token as its one secret.
    pub fn token_registry(&self) -> (r: TokenRegistry)
        ensures
            r matches TokenRegistry::SharedSecret(secret) && secret@ == self.api_token@,
    {
        TokenRegistry::SharedSecret(self.api_token.clone())
    }
}

} // verus!
