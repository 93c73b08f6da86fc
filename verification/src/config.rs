//! Credentials shared by the HTTP front-end and the SOCKS5 handshake.

use crate::addr::Endpoint;
use vstd::prelude::*;
use vstd::string::*;

verus! {

/// The byte that separates user name and password in the credential blob.
pub const SEPARATOR: u8 = 0x3a;

/// Optional user name and password.
#[derive(Debug, Clone)]
pub struct Credentials {
    pub username: Option<String>,
    pub password: Option<String>,
}

/// The UTF-8 bytes of an optional string; nothing when it is absent.
pub open spec fn field_bytes(field: Option<String>) -> Seq<u8> {
    match field {
        Some(s) => vstd::utf8::encode_utf8(s@),
        None => Seq::empty(),
    }
}

impl Default for Credentials {
    fn default() -> (c: Self)
        ensures
            c.username is None,
            c.password is None,
    {
        Credentials { username: None, password: None }
    }
}

impl Credentials {
    /// The credential blob `<user>:<password>`.
    pub open spec fn blob(&self) -> Seq<u8> {
        field_bytes(self.username) + seq![SEPARATOR] + field_bytes(self.password)
    }

    /// Whether neither a user name nor a password is present.
    pub open spec fn is_empty_spec(&self) -> bool {
        self.username is None && self.password is None
    }

    /// Credentials in which both parts are present.
    pub fn new(username: &str, password: &str) -> (c: Self)
        ensures
            c.username matches Some(u) && u@ == username@,
            c.password matches Some(p) && p@ == password@,
    {
        Credentials { username: Some(username.to_owned()), password: Some(password.to_owned()) }
    }

    /// The credential blob as bytes.
    pub fn to_vec(&self) -> (v: Vec<u8>)
        ensures
            v@ == self.blob(),
    {
        let mut v: Vec<u8> = Vec::new();
        match &self.username {
            Some(u) => v.extend_from_slice(u.as_str().as_bytes()),
            None => {},
        }
        v.push(SEPARATOR);
        match &self.password {
            Some(p) => v.extend_from_slice(p.as_str().as_bytes()),
            None => {},
        }
        v
    }

    /// Whether neither a user name nor a password is present.
    pub fn is_empty(&self) -> (b: bool)
        ensures
            b == self.is_empty_spec(),
    {
        self.username.is_none() && self.password.is_none()
    }
}

/// How much the proxy logs.
#[derive(Debug, Clone, Copy, PartialEq, Eq, Structural)]
pub enum ArgVerbosity {
    Off,
    Error,
    Warn,
    Info,
    Debug,
    Trace,
}

impl Default for ArgVerbosity {
    fn default() -> (v: Self)
        ensures
            v == ArgVerbosity::Info,
    {
        ArgVerbosity::Info
    }
}

impl ArgVerbosity {
    /// The lower-case name of the level.
    pub open spec fn name(&self) -> Seq<char> {
        match self {
            ArgVerbosity::Off => seq!['o', 'f', 'f'],
            ArgVerbosity::Error => seq!['e', 'r', 'r', 'o', 'r'],
            ArgVerbosity::Warn => seq!['w', 'a', 'r', 'n'],
            ArgVerbosity::Info => seq!['i', 'n', 'f', 'o'],
            ArgVerbosity::Debug => seq!['d', 'e', 'b', 'u', 'g'],
            ArgVerbosity::Trace => seq!['t', 'r', 'a', 'c', 'e'],
        }
    }

    /// The level written out, as a log filter expects it.
    pub fn to_string(&self) -> (s: String)
        ensures
            s@ == self.name(),
    {
        proof {
            reveal_strlit("off");
            reveal_strlit("error");
            reveal_strlit("warn");
            reveal_strlit("info");
            reveal_strlit("debug");
            reveal_strlit("trace");
        }
        let s = match self {
            ArgVerbosity::Off => "off".to_owned(),
            ArgVerbosity::Error => "error".to_owned(),
            ArgVerbosity::Warn => "warn".to_owned(),
            ArgVerbosity::Info => "info".to_owned(),
            ArgVerbosity::Debug => "debug".to_owned(),
            ArgVerbosity::Trace => "trace".to_owned(),
        };
        assert(s@ =~= self.name());
        s
    }
}

/// What the proxy is started with.
#[derive(Debug, Clone)]
pub struct Config {
    /// Local listening address
    pub local_addr: Endpoint,
    /// Remote SOCKS5 server address
    pub server_addr: Endpoint,
    /// HTTP client authentication username
    pub username: Option<String>,
    /// HTTP client authentication password
    pub password: Option<String>,
    /// Log verbosity level
    pub verbosity: ArgVerbosity,
}

impl Config {
    /// A configuration without credentials that logs at `Info`.
    pub fn new(local_addr: Endpoint, server_addr: Endpoint) -> (c: Self)
        ensures
            c.local_addr == local_addr,
            c.server_addr == server_addr,
            c.username is None,
            c.password is None,
            c.verbosity == ArgVerbosity::Info,
    {
        Config {
            local_addr,
            server_addr,
            username: None,
            password: None,
            verbosity: ArgVerbosity::Info,
        }
    }

    /// Sets the user name.
    pub fn username(&mut self, username: &str) -> (ret: &mut Self)
        ensures
            ret.username matches Some(u) && u@ == username@,
            ret.local_addr == old(self).local_addr,
            ret.server_addr == old(self).server_addr,
            ret.password == old(self).password,
            ret.verbosity == old(self).verbosity,
            *final(self) == *final(ret),
    {
        self.username = Some(username.to_owned());
        self
    }

    /// Sets the password.
    pub fn password(&mut self, password: &str) -> (ret: &mut Self)
        ensures
            ret.password matches Some(p) && p@ == password@,
            ret.local_addr == old(self).local_addr,
            ret.server_addr == old(self).server_addr,
            ret.username == old(self).username,
            ret.verbosity == old(self).verbosity,
            *final(self) == *final(ret),
    {
        self.password = Some(password.to_owned());
        self
    }

    /// Sets the log verbosity.
    pub fn verbosity(&mut self, verbosity: ArgVerbosity) -> (ret: &mut Self)
        ensures
            ret.verbosity == verbosity,
            ret.local_addr == old(self).local_addr,
            ret.server_addr == old(self).server_addr,
            ret.username == old(self).username,
            ret.password == old(self).password,
            *final(self) == *final(ret),
    {
        self.verbosity = verbosity;
        self
    }

    /// The credentials that this configuration holds.
    pub fn get_credentials(&self) -> (c: Credentials)
        ensures
            c.username == self.username,
            c.password == self.password,
    {
        Credentials { username: self.username.clone(), password: self.password.clone() }
    }
}

} // verus!
