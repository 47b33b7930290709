//! The quick-connect bar of the sidebar.

use vstd::prelude::*;
use crate::error::validation_text;
use crate::models::connection::{Connection, FtpMode, FtpSecurity, connection_error};
use crate::text::{decimal_digits, parse_u16, parse_unsigned, to_decimal, trim, trim_spec};

verus! {

/// Fields of the quick-connect bar.
#[derive(Debug, Clone)]
pub struct QuickconnectForm {
    pub host: String,
    pub port: String,
    pub username: String,
    pub password: String,
    pub error: Option<String>,
}

impl Default for QuickconnectForm {
    fn default() -> (r: Self)
        ensures
            r.host@.len() == 0,
            r.port@.len() == 0,
            r.username@.len() == 0,
            r.password@.len() == 0,
            r.error is None,
    {
        QuickconnectForm {
            host: String::new(),
            port: String::new(),
            username: String::new(),
            password: String::new(),
            error: None,
        }
    }
}

/// The port number typed into a form, when it reads as one.
pub open spec fn typed_port(port: Seq<char>) -> Option<u16> {
    match parse_unsigned(trim_spec(port), u16::MAX as int) {
        Some(p) => Some(p as u16),
        None => None,
    }
}

/// The name a quick connection is listed under: `host:port`.
pub open spec fn quick_name(host: Seq<char>, port: u16) -> Seq<char> {
    trim_spec(host) + ":"@ + decimal_digits(port as nat)
}

impl QuickconnectForm {
    /// An empty bar with the FTP port filled in.
    pub fn new() -> (r: Self)
        ensures
            r.host@.len() == 0,
            r.port@ == "21"@,
            r.username@.len() == 0,
            r.password@.len() == 0,
            r.error is None,
    {
        QuickconnectForm {
            host: String::new(),
            port: "21".to_string(),
            username: String::new(),
            password: String::new(),
            error: None,
        }
    }

    /// The connection that the bar describes (passive plain FTP, named
    /// `host:port`), or the message shown under the bar when the port does
    /// not read as a number or the connection is not valid.
    pub fn build(&self) -> (r: Result<Connection, String>)
        ensures
            match typed_port(self.port@) {
                None => r matches Err(m) && m@ == "puerto inválido"@,
                Some(p) => match connection_error(quick_name(self.host@, p), self.host@, p, self.username@) {
                    Some(m) => r matches Err(e) && e@ == validation_text(m),
                    None => r matches Ok(c) && c.port == p && c.name@ == trim_spec(quick_name(self.host@, p))
                        && c.host@ == trim_spec(self.host@) && c.username@ == trim_spec(self.username@)
                        && c.password_spec() == self.password@ && c.mode == FtpMode::Passive
                        && c.security == FtpSecurity::Plain && !c.accept_invalid_certs,
                },
            },
    {
        let port = match parse_u16(trim(self.port.as_str())) {
            Some(p) => p,
            None => return Err("puerto inválido".to_string()),
        };
        let mut name = trim(self.host.as_str()).to_string();
        name.append(":");
        let digits = to_decimal(port as u64);
        name.append(digits.as_str());
        match Connection::try_new(
            None,
            name,
            self.host.clone(),
            port,
            self.username.clone(),
            self.password.clone(),
            FtpMode::Passive,
            FtpSecurity::Plain,
            false,
        ) {
            Ok(c) => Ok(c),
            Err(e) => Err(e.message()),
        }
    }
}

} // verus!
