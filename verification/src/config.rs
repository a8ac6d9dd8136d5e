//! The server's configuration, read from the values of its environment.

use vstd::prelude::*;

use crate::text::{owned, spec_to_lowercase, to_lowercase, trim, trim_str};
use crate::types::opt_view;

verus! {

/// How the server talks to its client.
#[derive(Debug, Clone, Copy, PartialEq, Eq, Structural)]
pub enum TransportMode {
    Stdio,
    Http,
}

impl Default for TransportMode {
    fn default() -> (r: Self)
        ensures
            r == TransportMode::Stdio,
    {
        TransportMode::Stdio
    }
}

/// The configuration of the server.
#[derive(Debug)]
pub struct Config {
    pub zotero_api_key: String,
    pub zotero_library_id: Option<String>,
    pub zotero_library_type: String,
    pub webdav_url: Option<String>,
    pub webdav_username: Option<String>,
    pub webdav_password: Option<String>,
    pub port: u16,
    pub transport: TransportMode,
}

/// The values of the environment variables the configuration is read from
/// (`None` for a variable that is not set).
#[derive(Debug)]
pub struct EnvValues {
    pub api_key: Option<String>,
    pub library_id: Option<String>,
    pub library_type: Option<String>,
    pub webdav_url: Option<String>,
    pub webdav_username: Option<String>,
    pub webdav_password: Option<String>,
    pub port: Option<String>,
    pub transport: Option<String>,
}

/// A value kept only when it is not blank.
pub open spec fn nonblank(o: Option<String>) -> Option<Seq<char>> {
    match o {
        Some(s) => if trim(s@).len() > 0 {
            Some(s@)
        } else {
            None
        },
        None => None,
    }
}

fn nonblank_exec(o: Option<String>) -> (r: Option<String>)
    ensures
        opt_view(r) == nonblank(o),
{
    match o {
        Some(s) => {
            if trim_str(s.as_str()).as_str().is_empty() {
                None
            } else {
                Some(s)
            }
        },
        None => None,
    }
}

/// Whether the configuration read from `env` is `c`: the API key is
/// required and not blank; blank optional values count as unset; the
/// library type is "group" when it lower-cases to that, else "user"; the
/// port is the number given, or 3000; the transport is HTTP when asked for
/// exactly, else standard I/O.
pub open spec fn config_of(env: EnvValues, c: Config) -> bool {
    &&& env.api_key matches Some(k) && c.zotero_api_key@ == k@
    &&& opt_view(c.zotero_library_id) == nonblank(env.library_id)
    &&& c.zotero_library_type@ == (if spec_to_lowercase(opt_view(env.library_type).unwrap_or("user"@)) == "group"@ {
        "group"@
    } else {
        "user"@
    })
    &&& opt_view(c.webdav_url) == nonblank(env.webdav_url)
    &&& opt_view(c.webdav_username) == nonblank(env.webdav_username)
    &&& opt_view(c.webdav_password) == nonblank(env.webdav_password)
    &&& c.port as int == (match env.port {
        Some(p) => match crate::numbers::spec_parse_u16(p@) {
            Some(n) => n,
            None => 3000,
        },
        None => 3000,
    })
    &&& c.transport == (if opt_view(env.transport) == Some("http"@) {
        TransportMode::Http
    } else {
        TransportMode::Stdio
    })
}

/// Whether the environment gives no usable API key.
pub open spec fn missing_api_key(env: EnvValues) -> bool {
    match env.api_key {
        Some(k) => trim(k@).len() == 0,
        None => true,
    }
}

impl Config {
    /// Reads the configuration from the values of the environment (see
    /// `config_of`); an error naming ZOTERO_API_KEY when it is missing or blank.
    pub fn from_values(env: EnvValues) -> (r: Result<Config, String>)
        ensures
            match r {
                Ok(c) => !missing_api_key(env) && config_of(env, c),
                Err(e) => missing_api_key(env) && e@ == "ZOTERO_API_KEY environment variable is required"@,
            },
    {
        let ghost e0 = env;
        let EnvValues { api_key, library_id, library_type, webdav_url, webdav_username, webdav_password, port, transport } = env;
        let key = match api_key {
            Some(k) => k,
            None => {
                return Err(owned("ZOTERO_API_KEY environment variable is required"));
            },
        };
        if trim_str(key.as_str()).as_str().is_empty() {
            return Err(owned("ZOTERO_API_KEY environment variable is required"));
        }
        proof {
            reveal_strlit("user");
            reveal_strlit("group");
            reveal_strlit("http");
        }
        let raw_type = match &library_type {
            Some(t) => to_lowercase(t.as_str()),
            None => to_lowercase("user"),
        };
        let lib_type = if crate::text::str_eq(raw_type.as_str(), "group") {
            owned("group")
        } else {
            owned("user")
        };
        let port_value: u16 = match &port {
            Some(p) => match crate::numbers::parse_u16(p.as_str()) {
                Some(n) => n,
                None => 3000,
            },
            None => 3000,
        };
        let mode = match &transport {
            Some(t) => if crate::text::str_eq(t.as_str(), "http") {
                TransportMode::Http
            } else {
                TransportMode::Stdio
            },
            None => TransportMode::Stdio,
        };
        Ok(Config {
            zotero_api_key: key,
            zotero_library_id: nonblank_exec(library_id),
            zotero_library_type: lib_type,
            webdav_url: nonblank_exec(webdav_url),
            webdav_username: nonblank_exec(webdav_username),
            webdav_password: nonblank_exec(webdav_password),
            port: port_value,
            transport: mode,
        })
    }

    /// Whether the file store is fully configured: its URL, user and
    /// password are all set.
    pub fn webdav_configured(&self) -> (r: bool)
        ensures
            r == (self.webdav_url is Some && self.webdav_username is Some && self.webdav_password is Some),
    {
        self.webdav_url.is_some() && self.webdav_username.is_some() && self.webdav_password.is_some()
    }
}

} // verus!
