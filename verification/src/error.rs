//! The errors of the three layers: protocol, HTTP and configuration.

use vstd::prelude::*;
use vstd::string::*;

verus! {

/// A failure of a protocol operation, by the phase that failed.
#[derive(Debug, Clone, Copy, PartialEq, Eq)]
pub enum SrunError {
    Challenge(&'static str),
    Login(&'static str),
    Logout(&'static str),
    Config(&'static str),
    Network(&'static str),
}

/// A failure of the HTTP layer.
#[derive(Debug, Clone, Copy, PartialEq, Eq)]
pub enum HttpError {
    Connection(&'static str),
    Protocol(&'static str),
    Tls(&'static str),
    Parse(&'static str),
}

/// A failure to load or validate the configuration.
#[derive(Debug, Clone, Copy, PartialEq, Eq)]
pub enum ConfigError {
    Validation(&'static str),
    Io(&'static str),
    Parse(&'static str),
}

impl SrunError {
    /// The line shown to the user: the phase, then the reason.
    pub open spec fn text(self) -> Seq<char> {
        match self {
            SrunError::Challenge(msg) => "Challenge error: "@ + msg@,
            SrunError::Login(msg) => "Login error: "@ + msg@,
            SrunError::Logout(msg) => "Logout error: "@ + msg@,
            SrunError::Config(msg) => "Config error: "@ + msg@,
            SrunError::Network(msg) => "Network error: "@ + msg@,
        }
    }

    /// Writes the line shown to the user.
    pub fn to_text(&self) -> (r: String)
        ensures
            r@ == self.text(),
    {
        match self {
            SrunError::Challenge(msg) => String::from_str("Challenge error: ").concat(msg),
            SrunError::Login(msg) => String::from_str("Login error: ").concat(msg),
            SrunError::Logout(msg) => String::from_str("Logout error: ").concat(msg),
            SrunError::Config(msg) => String::from_str("Config error: ").concat(msg),
            SrunError::Network(msg) => String::from_str("Network error: ").concat(msg),
        }
    }
}

impl HttpError {
    /// The line shown to the user: the layer, then the reason.
    pub open spec fn text(self) -> Seq<char> {
        match self {
            HttpError::Connection(msg) => "Connection error: "@ + msg@,
            HttpError::Protocol(msg) => "HTTP protocol error: "@ + msg@,
            HttpError::Tls(msg) => "TLS error: "@ + msg@,
            HttpError::Parse(msg) => "Parse error: "@ + msg@,
        }
    }

    /// Writes the line shown to the user.
    pub fn to_text(&self) -> (r: String)
        ensures
            r@ == self.text(),
    {
        match self {
            HttpError::Connection(msg) => String::from_str("Connection error: ").concat(msg),
            HttpError::Protocol(msg) => String::from_str("HTTP protocol error: ").concat(msg),
            HttpError::Tls(msg) => String::from_str("TLS error: ").concat(msg),
            HttpError::Parse(msg) => String::from_str("Parse error: ").concat(msg),
        }
    }
}

impl ConfigError {
    /// The line shown to the user: the kind, then the reason.
    pub open spec fn text(self) -> Seq<char> {
        match self {
            ConfigError::Validation(msg) => "Config validation error: "@ + msg@,
            ConfigError::Io(msg) => "Config file error: "@ + msg@,
            ConfigError::Parse(msg) => "Config parse error: "@ + msg@,
        }
    }

    /// Writes the line shown to the user.
    pub fn to_text(&self) -> (r: String)
        ensures
            r@ == self.text(),
    {
        match self {
            ConfigError::Validation(msg) => String::from_str("Config validation error: ").concat(msg),
            ConfigError::Io(msg) => String::from_str("Config file error: ").concat(msg),
            ConfigError::Parse(msg) => String::from_str("Config parse error: ").concat(msg),
        }
    }
}

} // verus!
