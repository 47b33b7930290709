//! Saved server connections and their validation.

use vstd::prelude::*;
use crate::error::AppError;
use crate::ids::new_id;
use crate::text::{trim, trim_spec};

verus! {

/// Data channel mode of an FTP connection.
#[derive(Debug, Clone, Copy, PartialEq, Eq, Structural)]
pub enum FtpMode {
    Passive,
    Active,
}

impl Default for FtpMode {
    fn default() -> (r: Self)
        ensures
            r == FtpMode::Passive,
    {
        FtpMode::Passive
    }
}

impl FtpMode {
    /// The mode as the command log names it.
    pub fn label(self) -> (r: &'static str)
        ensures
            r@ == (match self {
                FtpMode::Passive => "passive"@,
                FtpMode::Active => "active"@,
            }),
    {
        match self {
            FtpMode::Passive => "passive",
            FtpMode::Active => "active",
        }
    }
}

/// Transport security of an FTP connection.
#[derive(Debug, Clone, Copy, PartialEq, Eq, Structural)]
pub enum FtpSecurity {
    Plain,
    Explicit,
}

impl Default for FtpSecurity {
    fn default() -> (r: Self)
        ensures
            r == FtpSecurity::Plain,
    {
        FtpSecurity::Plain
    }
}

/// File transfer protocol chosen in the site manager.
#[derive(Debug, Clone, Copy, PartialEq, Eq, Structural)]
pub enum Protocol {
    Ftp,
    FtpsExplicit,
    Sftp,
}

impl Default for Protocol {
    fn default() -> (r: Self)
        ensures
            r == Protocol::Ftp,
    {
        Protocol::Ftp
    }
}

impl Protocol {
    /// The usual port of the protocol.
    pub fn default_port(self) -> (r: u16)
        ensures
            r == (if self == Protocol::Sftp {
                22u16
            } else {
                21u16
            }),
    {
        match self {
            Protocol::Sftp => 22,
            _ => 21,
        }
    }

    /// Whether the TLS options of the site manager apply.
    pub fn uses_tls_options(self) -> (r: bool)
        ensures
            r == (self == Protocol::FtpsExplicit),
    {
        match self {
            Protocol::FtpsExplicit => true,
            _ => false,
        }
    }
}

/// A connection as saved to disk: everything but the password, which goes to
/// the system keyring.
#[derive(Debug, Clone, PartialEq, Eq)]
pub struct ConnectionRecord {
    pub id: u128,
    pub name: String,
    pub host: String,
    pub port: u16,
    pub username: String,
    pub mode: FtpMode,
    pub security: FtpSecurity,
    pub accept_invalid_certs: bool,
}

/// A password, kept out of debug output.
#[derive(Clone)]
pub struct Password {
    text: String,
}

impl Password {
    /// The password text.
    pub closed spec fn text_spec(self) -> Seq<char> {
        self.text@
    }

    /// The password whose text is `text`.
    pub closed spec fn of(text: String) -> Self {
        Password { text }
    }

    /// Wraps a password.
    pub fn new(text: String) -> (r: Self)
        ensures
            r == Password::of(text),
            r.text_spec() == text@,
    {
        Password { text }
    }

    /// The password text.
    pub fn expose(&self) -> (r: &str)
        ensures
            r@ == self.text_spec(),
    {
        self.text.as_str()
    }

    /// The same password, as a value of its own.
    pub fn duplicate(&self) -> (r: Self)
        ensures
            r == *self,
    {
        Password { text: self.text.clone() }
    }
}

/// A server connection.
#[derive(Clone)]
pub struct Connection {
    pub id: u128,
    pub name: String,
    pub host: String,
    pub port: u16,
    pub username: String,
    pub mode: FtpMode,
    pub security: FtpSecurity,
    pub accept_invalid_certs: bool,
    pub password: Password,
}

/// Which check of a new connection fails first, with its message.
pub open spec fn connection_error(name: Seq<char>, host: Seq<char>, port: u16, username: Seq<char>) -> Option<
    Seq<char>,
> {
    if trim_spec(name).len() == 0 {
        Some("el nombre no puede estar vacío"@)
    } else if trim_spec(host).len() == 0 {
        Some("el host no puede estar vacío"@)
    } else if port == 0 {
        Some("el puerto debe ser mayor que 0"@)
    } else if trim_spec(username).len() == 0 {
        Some("el usuario no puede estar vacío"@)
    } else {
        None
    }
}

impl Connection {
    /// The password.
    pub open spec fn password_spec(self) -> Seq<char> {
        self.password.text_spec()
    }

    /// Builds a connection from the site manager's fields. Name, host and
    /// user are trimmed and must not be blank, and the port must not be zero;
    /// otherwise a validation error says which check failed. Without an
    /// `id` a fresh one is drawn.
    pub fn try_new(
        id: Option<u128>,
        name: String,
        host: String,
        port: u16,
        username: String,
        password: String,
        mode: FtpMode,
        security: FtpSecurity,
        accept_invalid_certs: bool,
    ) -> (r: Result<Self, AppError>)
        ensures
            match connection_error(name@, host@, port, username@) {
                Some(m) => r matches Err(AppError::Validation(v)) && v@ == m,
                None => r matches Ok(c) && {
                    &&& (id matches Some(i) ==> c.id == i)
                    &&& c.name@ == trim_spec(name@)
                    &&& c.host@ == trim_spec(host@)
                    &&& c.port == port
                    &&& c.username@ == trim_spec(username@)
                    &&& c.mode == mode
                    &&& c.security == security
                    &&& c.accept_invalid_certs == accept_invalid_certs
                    &&& c.password_spec() == password@
                },
            },
    {
        if trim(name.as_str()).unicode_len() == 0 {
            return Err(AppError::Validation("el nombre no puede estar vacío".to_string()));
        }
        if trim(host.as_str()).unicode_len() == 0 {
            return Err(AppError::Validation("el host no puede estar vacío".to_string()));
        }
        if port == 0 {
            return Err(AppError::Validation("el puerto debe ser mayor que 0".to_string()));
        }
        if trim(username.as_str()).unicode_len() == 0 {
            return Err(AppError::Validation("el usuario no puede estar vacío".to_string()));
        }
        let id = match id {
            Some(i) => i,
            None => new_id(),
        };
        Ok(Connection {
            id,
            name: trim(name.as_str()).to_string(),
            host: trim(host.as_str()).to_string(),
            port,
            username: trim(username.as_str()).to_string(),
            mode,
            security,
            accept_invalid_certs,
            password: Password::new(password),
        })
    }

    /// The password.
    pub fn password(&self) -> (r: &str)
        ensures
            r@ == self.password_spec(),
    {
        self.password.expose()
    }

    /// The saved form of the connection.
    pub fn to_record(&self) -> (r: ConnectionRecord)
        ensures
            r == record_of(*self),
    {
        ConnectionRecord {
            id: self.id,
            name: self.name.clone(),
            host: self.host.clone(),
            port: self.port,
            username: self.username.clone(),
            mode: self.mode,
            security: self.security,
            accept_invalid_certs: self.accept_invalid_certs,
        }
    }

    /// A connection from its saved form and its password.
    pub fn from_record(record: ConnectionRecord, password: String) -> (r: Self)
        ensures
            r == connection_of(record, Password::of(password)),
    {
        Connection {
            id: record.id,
            name: record.name,
            host: record.host,
            port: record.port,
            username: record.username,
            mode: record.mode,
            security: record.security,
            accept_invalid_certs: record.accept_invalid_certs,
            password: Password::new(password),
        }
    }

    /// The protocol that the connection speaks: explicit FTPS when its
    /// security asks for TLS, plain FTP otherwise.
    pub fn effective_protocol(&self) -> (r: Protocol)
        ensures
            r == (if self.security == FtpSecurity::Explicit {
                Protocol::FtpsExplicit
            } else {
                Protocol::Ftp
            }),
    {
        match self.security {
            FtpSecurity::Explicit => Protocol::FtpsExplicit,
            FtpSecurity::Plain => Protocol::Ftp,
        }
    }

    /// The same connection, as a value of its own.
    pub fn duplicate(&self) -> (r: Self)
        ensures
            r == *self,
    {
        Connection {
            id: self.id,
            name: self.name.clone(),
            host: self.host.clone(),
            port: self.port,
            username: self.username.clone(),
            mode: self.mode,
            security: self.security,
            accept_invalid_certs: self.accept_invalid_certs,
            password: self.password.duplicate(),
        }
    }
}

/// The saved form of a connection.
pub open spec fn record_of(c: Connection) -> ConnectionRecord {
    ConnectionRecord {
        id: c.id,
        name: c.name,
        host: c.host,
        port: c.port,
        username: c.username,
        mode: c.mode,
        security: c.security,
        accept_invalid_certs: c.accept_invalid_certs,
    }
}

/// The connection rebuilt from a saved form and a password.
pub open spec fn connection_of(r: ConnectionRecord, password: Password) -> Connection {
    Connection {
        id: r.id,
        name: r.name,
        host: r.host,
        port: r.port,
        username: r.username,
        mode: r.mode,
        security: r.security,
        accept_invalid_certs: r.accept_invalid_certs,
        password,
    }
}

/// Saving a connection and reading it back with its password gives the same
/// connection.
pub proof fn lemma_record_round_trip(c: Connection)
    ensures
        connection_of(record_of(c), c.password) == c,
{
}

/// State of the remote side.
#[derive(Debug, Clone, PartialEq, Eq)]
pub enum ConnectionStatus {
    Disconnected,
    Connecting,
    Connected,
    Error(String),
}

} // verus!
