//! The site manager's form for creating or editing a connection.

use vstd::prelude::*;
use crate::error::validation_text;
use crate::models::connection::{Connection, FtpMode, FtpSecurity, Protocol, connection_error};
use crate::models::quickconnect::typed_port;
use crate::text::{decimal_digits, parse_u16, str_eq, to_decimal, trim, trim_spec};

verus! {

/// Fields of the site manager's form.
#[derive(Debug, Clone)]
pub struct ConnectionForm {
    pub editing_id: Option<u128>,
    pub name: String,
    pub host: String,
    pub port: String,
    pub username: String,
    pub password: String,
    pub active_mode: bool,
    pub protocol: Protocol,
    pub accept_invalid_certs: bool,
    pub error: Option<String>,
}

impl Default for ConnectionForm {
    fn default() -> (r: Self)
        ensures
            r.editing_id is None,
            r.name@.len() == 0,
            r.host@.len() == 0,
            r.port@.len() == 0,
            r.username@.len() == 0,
            r.password@.len() == 0,
            !r.active_mode,
            r.protocol == Protocol::Ftp,
            !r.accept_invalid_certs,
            r.error is None,
    {
        ConnectionForm {
            editing_id: None,
            name: String::new(),
            host: String::new(),
            port: String::new(),
            username: String::new(),
            password: String::new(),
            active_mode: false,
            protocol: Protocol::Ftp,
            accept_invalid_certs: false,
            error: None,
        }
    }
}

/// The data mode that the form's check box selects.
pub open spec fn form_mode(active_mode: bool) -> FtpMode {
    if active_mode {
        FtpMode::Active
    } else {
        FtpMode::Passive
    }
}

/// The transport security that a protocol implies.
pub open spec fn protocol_security(p: Protocol) -> FtpSecurity {
    if p == Protocol::FtpsExplicit {
        FtpSecurity::Explicit
    } else {
        FtpSecurity::Plain
    }
}

impl ConnectionForm {
    /// An empty form for a new FTP connection.
    pub fn new() -> (r: Self)
        ensures
            r.editing_id is None,
            r.name@.len() == 0,
            r.host@.len() == 0,
            r.port@ == "21"@,
            r.username@.len() == 0,
            r.password@.len() == 0,
            !r.active_mode,
            r.protocol == Protocol::Ftp,
            !r.accept_invalid_certs,
            r.error is None,
    {
        ConnectionForm {
            editing_id: None,
            name: String::new(),
            host: String::new(),
            port: "21".to_string(),
            username: String::new(),
            password: String::new(),
            active_mode: false,
            protocol: Protocol::Ftp,
            accept_invalid_certs: false,
            error: None,
        }
    }

    /// A form filled in with an existing connection, for editing it.
    pub fn from_connection(
        id: u128,
        name: &str,
        host: &str,
        port: u16,
        username: &str,
        password: &str,
        mode: FtpMode,
        protocol: Protocol,
        accept_invalid_certs: bool,
    ) -> (r: Self)
        ensures
            r.editing_id == Some(id),
            r.name@ == name@,
            r.host@ == host@,
            r.port@ == decimal_digits(port as nat),
            r.username@ == username@,
            r.password@ == password@,
            r.active_mode == (mode == FtpMode::Active),
            r.protocol == protocol,
            r.accept_invalid_certs == accept_invalid_certs,
            r.error is None,
    {
        ConnectionForm {
            editing_id: Some(id),
            name: name.to_string(),
            host: host.to_string(),
            port: to_decimal(port as u64),
            username: username.to_string(),
            password: password.to_string(),
            active_mode: mode == FtpMode::Active,
            protocol,
            accept_invalid_certs,
            error: None,
        }
    }

    /// The data mode selected.
    pub fn ftp_mode(&self) -> (r: FtpMode)
        ensures
            r == form_mode(self.active_mode),
    {
        if self.active_mode {
            FtpMode::Active
        } else {
            FtpMode::Passive
        }
    }

    /// The transport security selected.
    pub fn ftp_security(&self) -> (r: FtpSecurity)
        ensures
            r == protocol_security(self.protocol),
    {
        match self.protocol {
            Protocol::FtpsExplicit => FtpSecurity::Explicit,
            _ => FtpSecurity::Plain,
        }
    }

    /// Chooses a protocol. A port left at the other protocol's usual value
    /// follows the change (21 and 22 for FTP and SFTP), and the TLS option is
    /// cleared for protocols without TLS.
    pub fn set_protocol(&mut self, protocol: Protocol)
        ensures
            final(self).protocol == protocol,
            final(self).port@ == (if protocol == Protocol::Sftp && old(self).port@ == "21"@ {
                decimal_digits(22)
            } else if protocol != Protocol::Sftp && old(self).port@ == "22"@ {
                decimal_digits(21)
            } else {
                old(self).port@
            }),
            final(self).accept_invalid_certs == (old(self).accept_invalid_certs && protocol
                == Protocol::FtpsExplicit),
            final(self).editing_id == old(self).editing_id,
            final(self).name == old(self).name,
            final(self).host == old(self).host,
            final(self).username == old(self).username,
            final(self).password == old(self).password,
            final(self).active_mode == old(self).active_mode,
            final(self).error == old(self).error,
    {
        self.protocol = protocol;
        if protocol == Protocol::Sftp && str_eq(self.port.as_str(), "21") {
            self.port = to_decimal(Protocol::Sftp.default_port() as u64);
        } else if protocol != Protocol::Sftp && str_eq(self.port.as_str(), "22") {
            self.port = to_decimal(Protocol::Ftp.default_port() as u64);
        }
        if !protocol.uses_tls_options() {
            self.accept_invalid_certs = false;
        }
    }

    /// The connection that the form describes, or the message shown in the
    /// form when the port does not read as a number or the connection is not
    /// valid.
    pub fn build(&self) -> (r: Result<Connection, String>)
        ensures
            match typed_port(self.port@) {
                None => r matches Err(m) && m@ == "puerto inválido"@,
                Some(p) => match connection_error(self.name@, self.host@, p, self.username@) {
                    Some(m) => r matches Err(e) && e@ == validation_text(m),
                    None => r matches Ok(c) && (self.editing_id matches Some(i) ==> c.id == i)
                        && c.port == p && c.name@ == trim_spec(self.name@) && c.host@ == trim_spec(
                        self.host@,
                    ) && c.username@ == trim_spec(self.username@) && c.password_spec()
                        == self.password@ && c.mode == form_mode(self.active_mode) && c.security
                        == protocol_security(self.protocol) && c.accept_invalid_certs
                        == self.accept_invalid_certs,
                },
            },
    {
        let port = match parse_u16(trim(self.port.as_str())) {
            Some(p) => p,
            None => return Err("puerto inválido".to_string()),
        };
        match Connection::try_new(
            self.editing_id,
            self.name.clone(),
            self.host.clone(),
            port,
            self.username.clone(),
            self.password.clone(),
            self.ftp_mode(),
            self.ftp_security(),
            self.accept_invalid_certs,
        ) {
            Ok(c) => Ok(c),
            Err(e) => Err(e.message()),
        }
    }
}

} // verus!
