//! Where the portal is, and how to reach it: what a configuration and a
//! user say of the connection to open.

use crate::config::{Config, User};
use crate::error::{HttpError, SrunError};
use crate::http::{CertVerification, CertView};
use crate::ipv4::Ipv4;
use crate::text::same_text;
use url::Url;
use vstd::prelude::*;
use vstd::string::*;

verus! {

/// `url::ParseError`, of which nothing is read but that it is there.
#[verifier::external_type_specification]
#[verifier::external_body]
pub struct ExUrlParseError(url::ParseError);

/// What the client reads of a URL: the scheme, the host where there is
/// one, and the port where the URL names one that is not its scheme's own.
#[derive(Debug, Clone)]
pub struct UrlParts {
    pub scheme: String,
    pub host: Option<String>,
    pub port: Option<u16>,
}

/// The mathematical content of `UrlParts`.
pub struct UrlPartsView {
    pub scheme: Seq<char>,
    pub host: Option<Seq<char>>,
    pub port: Option<u16>,
}

impl View for UrlParts {
    type V = UrlPartsView;

    open spec fn view(&self) -> UrlPartsView {
        UrlPartsView { scheme: self.scheme@, host: self.host.deep_view(), port: self.port }
    }
}

/// What the url crate reads of `text` as an absolute URL; `None` where it
/// refuses the text.
pub uninterp spec fn parsed_url(text: Seq<char>) -> Option<UrlPartsView>;

/// `Url::parse`, and of the parsed URL `scheme`, `host_str` and `port`,
/// copied out as they are. `port` is `None` for the scheme's default port.
#[verifier::external_body]
fn parse_url(text: &str) -> (r: Result<UrlParts, url::ParseError>)
    ensures
        parsed_url(text@) == match r {
            Ok(parts) => Some(parts@),
            Err(_) => None,
        },
{
    let url = Url::parse(text)?;
    Ok(
        UrlParts {
            scheme: url.scheme().to_string(),
            host: url.host_str().map(|h| h.to_string()),
            port: url.port(),
        },
    )
}

/// The connection to open for a user.
#[derive(Debug, Clone)]
pub struct Endpoint {
    pub is_https: bool,
    pub host: String,
    pub port: u16,
    /// The portal's address, where it is pinned; else the host is looked up.
    pub remote: Option<Ipv4>,
    /// The local address to bind to, where one is required.
    pub local: Option<Ipv4>,
    pub cert_verification: CertVerification,
}

/// The mathematical content of an `Endpoint`.
pub struct EndpointView {
    pub is_https: bool,
    pub host: Seq<char>,
    pub port: u16,
    pub remote: Option<Ipv4>,
    pub local: Option<Ipv4>,
    pub cert_verification: CertView,
}

impl View for Endpoint {
    type V = EndpointView;

    open spec fn view(&self) -> EndpointView {
        EndpointView {
            is_https: self.is_https,
            host: self.host@,
            port: self.port,
            remote: self.remote,
            local: self.local,
            cert_verification: self.cert_verification@,
        }
    }
}

/// The connection that the parts of the server's URL and the rest of the
/// configuration call for.
///
/// The scheme `https` asks for TLS. The port is the URL's, else 443 with
/// TLS and 80 without. A pinned server address must be an IPv4 address.
/// The socket is bound to the user's address only where strict binding is
/// configured and the address is known.
pub open spec fn endpoint_of(
    parts: Option<UrlPartsView>,
    server_ip: Option<Seq<char>>,
    strict_bind: bool,
    bind_addr: Option<Ipv4>,
    cert_verification: CertView,
) -> Result<EndpointView, SrunError> {
    match parts {
        None => Err(SrunError::Config("Invalid server URL")),
        Some(parts) => match parts.host {
            None => Err(SrunError::Config("Server URL has no host")),
            Some(host) => {
                let is_https = parts.scheme == "https"@;
                if server_ip is Some && Ipv4::parsed(server_ip->Some_0) is None {
                    Err(SrunError::Config("Invalid server IP address"))
                } else {
                    Ok(
                        EndpointView {
                            is_https,
                            host,
                            port: match parts.port {
                                Some(port) => port,
                                None => if is_https {
                                    443
                                } else {
                                    80
                                },
                            },
                            remote: match server_ip {
                                Some(text) => Ipv4::parsed(text),
                                None => None,
                            },
                            local: if strict_bind {
                                bind_addr
                            } else {
                                None
                            },
                            cert_verification,
                        },
                    )
                }
            },
        },
    }
}

impl Endpoint {
    /// The connection for the parts of the server's URL, where the URL
    /// could be read, and the rest of the configuration.
    pub fn from_parts(parts: Option<UrlParts>, config: &Config, user: &User) -> (r: Result<
        Endpoint,
        SrunError,
    >)
        ensures
            match endpoint_of(
                match parts {
                    Some(parts) => Some(parts@),
                    None => None,
                },
                config.server_ip.deep_view(),
                config.strict_bind,
                user.bind_addr,
                config.cert_verification@,
            ) {
                Ok(endpoint) => r is Ok && r->Ok_0@ == endpoint,
                Err(e) => r == Err::<Endpoint, SrunError>(e),
            },
    {
        let parts = match parts {
            Some(parts) => parts,
            None => {
                return Err(SrunError::Config("Invalid server URL"));
            },
        };
        let host = match parts.host {
            Some(host) => host,
            None => {
                return Err(SrunError::Config("Server URL has no host"));
            },
        };
        let is_https = same_text(parts.scheme.as_str(), "https");
        let port = match parts.port {
            Some(port) => port,
            None => if is_https {
                443
            } else {
                80
            },
        };
        let remote = match &config.server_ip {
            Some(text) => match Ipv4::parse(text.as_str()) {
                Some(ip) => Some(ip),
                None => {
                    return Err(SrunError::Config("Invalid server IP address"));
                },
            },
            None => None,
        };
        let local = if config.strict_bind {
            user.bind_addr
        } else {
            None
        };
        Ok(
            Endpoint {
                is_https,
                host,
                port,
                remote,
                local,
                cert_verification: config.cert_verification.duplicate(),
            },
        )
    }

    /// The connection to open for `user` under `config`.
    pub fn resolve(config: &Config, user: &User) -> (r: Result<Endpoint, SrunError>)
        ensures
            match endpoint_of(
                parsed_url(config.server@),
                config.server_ip.deep_view(),
                config.strict_bind,
                user.bind_addr,
                config.cert_verification@,
            ) {
                Ok(endpoint) => r is Ok && r->Ok_0@ == endpoint,
                Err(e) => r == Err::<Endpoint, SrunError>(e),
            },
    {
        let parts = match parse_url(config.server.as_str()) {
            Ok(parts) => Some(parts),
            Err(_) => None,
        };
        Endpoint::from_parts(parts, config, user)
    }

    /// Whether the connection can be opened at all: HTTPS cannot where TLS
    /// is not available.
    pub fn check_tls(&self) -> (r: Result<(), HttpError>)
        ensures
            r == if self.is_https && self.cert_verification is Unavailable {
                Err::<(), HttpError>(
                    HttpError::Tls("TLS support not compiled in. Rebuild with --features tls"),
                )
            } else {
                Ok(())
            },
    {
        if self.is_https {
            match self.cert_verification {
                CertVerification::Unavailable => {
                    return Err(
                        HttpError::Tls("TLS support not compiled in. Rebuild with --features tls"),
                    );
                },
                _ => {},
            }
        }
        Ok(())
    }
}

} // verus!
