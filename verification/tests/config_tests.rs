use srun_client::cli::{Cli, Commands};
use srun_client::config::{needs_login, needs_logout, Config, IfAddr, Interface, User};
use srun_client::endpoint::{Endpoint, UrlParts};
use srun_client::error::{ConfigError, HttpError, SrunError};
use srun_client::http::CertVerification;
use srun_client::ipv4::Ipv4;

fn cli() -> Cli {
    Cli {
        command: Commands::default(),
        config: None,
        server: None,
        server_ip: None,
        force: false,
        verify_cert: None,
        username: None,
        password: None,
        ip: None,
        iface: None,
        strict_bind: None,
        enc: None,
        n: None,
        conn_type: None,
        acid: None,
        double_stack: None,
        os: None,
        os_name: None,
        retry_count: None,
        retry_delay: None,
    }
}

fn user(name: &str, password: &str, ip: Option<&str>, iface: Option<&str>) -> User {
    User {
        username: name.to_string(),
        password: password.to_string(),
        ip: ip.map(|s| s.to_string()),
        iface: iface.map(|s| s.to_string()),
        bind_addr: None,
    }
}

fn interfaces() -> Vec<Interface> {
    vec![
        Interface { name: "lo".to_string(), addr: IfAddr::V4(Ipv4 { a: 127, b: 0, c: 0, d: 1 }) },
        Interface { name: "eth0".to_string(), addr: IfAddr::V6 },
        Interface { name: "eth0".to_string(), addr: IfAddr::V4(Ipv4 { a: 10, b: 0, c: 0, d: 5 }) },
        Interface { name: "eth0".to_string(), addr: IfAddr::V4(Ipv4 { a: 10, b: 0, c: 0, d: 6 }) },
        Interface { name: "wg0".to_string(), addr: IfAddr::V6 },
    ]
}

fn with_users(users: Vec<User>, strict_bind: bool) -> Config {
    let mut config = Config::with_defaults(true);
    config.users = users;
    config.strict_bind = strict_bind;
    config
}

#[test]
fn commands_default_to_listing_the_interfaces() {
    assert!(matches!(Commands::default(), Commands::Interfaces));
}

#[test]
fn defaults_are_the_documented_ones() {
    let config = Config::default();
    assert_eq!(config.server, "http://10.0.0.1");
    assert_eq!(config.server_ip, None);
    assert_eq!(config.verify_cert, "system");
    assert!(config.users.is_empty());
    assert!(!config.strict_bind);
    assert_eq!(config.enc, "srun_bx1");
    assert_eq!((config.n, config.conn_type, config.acid), (200, 1, 1));
    assert!(!config.double_stack);
    assert_eq!((config.os.as_str(), config.os_name.as_str()), ("Linux", "Linux"));
    assert_eq!((config.retry_count, config.retry_delay), (10, 500));
    assert!(matches!(config.cert_verification, CertVerification::System));
    assert!(matches!(
        Config::with_defaults(false).cert_verification,
        CertVerification::Unavailable
    ));
}

#[test]
fn example_has_a_user_by_address_and_one_by_interface() {
    let config = Config::example(true);
    assert_eq!(config.server_ip.as_deref(), Some("10.0.0.1"));
    assert_eq!(config.verify_cert, "system");
    assert_eq!(config.users.len(), 2);
    assert_eq!(config.users[0].username, "your_username");
    assert_eq!(config.users[0].password, "your_password");
    assert_eq!(config.users[0].ip.as_deref(), Some("your_ipv4_address"));
    assert_eq!(config.users[0].iface, None);
    assert_eq!(config.users[1].ip, None);
    assert_eq!(config.users[1].iface.as_deref(), Some("your_interface_name"));
    assert_eq!(config.server, "http://10.0.0.1");
    assert_eq!(Config::example(false).verify_cert, "skip");
}

#[test]
fn from_cli_without_settings_gives_the_defaults() {
    let config = Config::from_cli(cli(), None, true);
    assert_eq!(config.server, "http://10.0.0.1");
    assert!(config.users.is_empty());
    assert_eq!((config.retry_count, config.retry_delay), (10, 500));
    assert!(matches!(config.cert_verification, CertVerification::System));
}

#[test]
fn from_cli_puts_every_setting_over_the_configuration() {
    let mut given = cli();
    given.server = Some("https://portal.example".to_string());
    given.server_ip = Some("10.1.1.1".to_string());
    given.verify_cert = Some("skip".to_string());
    given.username = Some("alice".to_string());
    given.password = Some("pw".to_string());
    given.ip = Some("10.0.0.5".to_string());
    given.iface = Some("eth0".to_string());
    given.strict_bind = Some(true);
    given.enc = Some("enc2".to_string());
    given.n = Some(201);
    given.conn_type = Some(2);
    given.acid = Some(3);
    given.double_stack = Some(true);
    given.os = Some("Mac".to_string());
    given.os_name = Some("macOS".to_string());
    given.retry_count = Some(4);
    given.retry_delay = Some(5);
    let mut loaded = Config::with_defaults(true);
    loaded.users = vec![user("bob", "x", None, None), user("carol", "y", None, None)];
    let config = Config::from_cli(given, Some(loaded), true);
    assert_eq!(config.server, "https://portal.example");
    assert_eq!(config.server_ip.as_deref(), Some("10.1.1.1"));
    assert_eq!(config.verify_cert, "skip");
    assert!(matches!(config.cert_verification, CertVerification::Skip));
    assert_eq!(config.users.len(), 1);
    assert_eq!(config.users[0].username, "alice");
    assert_eq!(config.users[0].password, "pw");
    assert_eq!(config.users[0].ip.as_deref(), Some("10.0.0.5"));
    assert_eq!(config.users[0].iface.as_deref(), Some("eth0"));
    assert_eq!(config.users[0].bind_addr, None);
    assert!(config.strict_bind);
    assert_eq!(config.enc, "enc2");
    assert_eq!((config.n, config.conn_type, config.acid), (201, 2, 3));
    assert!(config.double_stack);
    assert_eq!((config.os.as_str(), config.os_name.as_str()), ("Mac", "macOS"));
    assert_eq!((config.retry_count, config.retry_delay), (4, 5));
}

#[test]
fn from_cli_keeps_the_loaded_configuration_where_nothing_is_given() {
    let mut loaded = Config::with_defaults(true);
    loaded.server = "http://gw".to_string();
    loaded.server_ip = Some("10.9.9.9".to_string());
    loaded.verify_cert = "/etc/ca.der".to_string();
    loaded.retry_count = 2;
    loaded.users = vec![user("bob", "x", None, None), user("carol", "y", None, None)];
    let mut given = cli();
    given.username = Some("alice".to_string());
    let config = Config::from_cli(given, Some(loaded), true);
    assert_eq!(config.server, "http://gw");
    assert_eq!(config.server_ip.as_deref(), Some("10.9.9.9"));
    assert_eq!(config.retry_count, 2);
    assert_eq!(config.users.len(), 2);
    assert_eq!(config.users[1].username, "carol");
    assert!(matches!(&config.cert_verification, CertVerification::Custom(p) if p == "/etc/ca.der"));
    let mut loaded = Config::with_defaults(true);
    loaded.verify_cert = "skip".to_string();
    let config = Config::from_cli(cli(), Some(loaded), false);
    assert_eq!(config.verify_cert, "skip");
    assert!(matches!(config.cert_verification, CertVerification::Unavailable));
}

#[test]
fn check_refuses_a_configuration_without_users() {
    let mut config = with_users(Vec::new(), false);
    assert_eq!(config.check(&interfaces()), Err(ConfigError::Validation("No users configured")));
}

#[test]
fn check_refuses_a_user_without_a_name_or_a_password() {
    let mut config = with_users(vec![user("a", "b", None, None), user("", "b", None, None)], false);
    assert_eq!(
        config.check(&interfaces()),
        Err(ConfigError::Validation("Username cannot be empty"))
    );
    let mut config = with_users(vec![user("a", "", None, None), user("", "b", None, None)], false);
    assert_eq!(
        config.check(&interfaces()),
        Err(ConfigError::Validation("Password cannot be empty"))
    );
    let mut config = with_users(vec![user("a", "b", None, Some("nope")), user("", "", None, None)], false);
    assert_eq!(
        config.check(&interfaces()),
        Err(ConfigError::Validation("Username cannot be empty"))
    );
}

#[test]
fn check_resolves_a_user_by_interface() {
    let mut config = with_users(vec![user("a", "b", Some("1.2.3.4"), Some("eth0"))], true);
    assert_eq!(config.check(&interfaces()), Ok(()));
    assert_eq!(config.users[0].ip.as_deref(), Some("10.0.0.5"));
    assert_eq!(config.users[0].bind_addr, Some(Ipv4 { a: 10, b: 0, c: 0, d: 5 }));
    assert_eq!(config.users[0].iface.as_deref(), Some("eth0"));
    for name in ["wg0", "eth1", ""] {
        let mut config = with_users(vec![user("a", "b", None, Some(name))], false);
        assert_eq!(
            config.check(&interfaces()),
            Err(ConfigError::Validation("Network interface not found or no IPv4 address"))
        );
        assert_eq!(config.users[0].bind_addr, None);
    }
}

#[test]
fn check_resolves_a_user_by_address() {
    let mut config = with_users(vec![user("a", "b", Some("10.0.0.6"), None)], true);
    assert_eq!(config.check(&interfaces()), Ok(()));
    assert_eq!(config.users[0].ip.as_deref(), Some("10.0.0.6"));
    assert_eq!(config.users[0].bind_addr, Some(Ipv4 { a: 10, b: 0, c: 0, d: 6 }));
    let mut config = with_users(vec![user("a", "b", Some("10.0.0.7"), None)], false);
    assert_eq!(
        config.check(&interfaces()),
        Err(ConfigError::Validation("IP address not found on any interface"))
    );
    for text in ["fe80::1", "::1", "10.0.0", "ten"] {
        let mut config = with_users(vec![user("a", "b", Some(text), None)], false);
        assert_eq!(
            config.check(&interfaces()),
            Err(ConfigError::Validation("IP address is not an IPv4 address"))
        );
    }
}

#[test]
fn check_leaves_a_user_without_address_and_interface_unless_binding_is_strict() {
    let mut config = with_users(vec![user("a", "b", None, None)], false);
    assert_eq!(config.check(&interfaces()), Ok(()));
    assert_eq!(config.users[0].bind_addr, None);
    assert_eq!(config.users[0].ip, None);
    let mut config = with_users(vec![user("a", "b", None, None)], true);
    assert_eq!(
        config.check(&interfaces()),
        Err(ConfigError::Validation("IP or Interface required when strict_bind enabled"))
    );
}

#[test]
fn check_resolves_every_user_against_all_interfaces() {
    let users = vec![
        user("a", "b", None, Some("eth0")),
        user("c", "d", Some("127.0.0.1"), None),
        user("e", "f", None, Some("eth0")),
        user("g", "h", None, None),
        user("i", "j", Some("10.0.0.6"), None),
        user("k", "l", Some("10.0.0.6"), None),
    ];
    let mut config = with_users(users, false);
    assert_eq!(config.check(&interfaces()), Ok(()));
    assert_eq!(config.users.len(), 6);
    assert_eq!(config.users[0].bind_addr, Some(Ipv4 { a: 10, b: 0, c: 0, d: 5 }));
    assert_eq!(config.users[1].bind_addr, Some(Ipv4 { a: 127, b: 0, c: 0, d: 1 }));
    assert_eq!(config.users[2].bind_addr, Some(Ipv4 { a: 10, b: 0, c: 0, d: 5 }));
    assert_eq!(config.users[2].ip.as_deref(), Some("10.0.0.5"));
    assert_eq!(config.users[3].bind_addr, None);
    assert_eq!(config.users[4].bind_addr, Some(Ipv4 { a: 10, b: 0, c: 0, d: 6 }));
    assert_eq!(config.users[5].bind_addr, Some(Ipv4 { a: 10, b: 0, c: 0, d: 6 }));
    assert_eq!(config.users[2].username, "e");
}

#[test]
fn user_resolve_holds_the_user_against_all_interfaces() {
    let found = user("a", "b", None, Some("eth0")).resolve(&interfaces(), true).unwrap();
    assert_eq!(found.bind_addr, Some(Ipv4 { a: 10, b: 0, c: 0, d: 5 }));
    assert_eq!(found.ip.as_deref(), Some("10.0.0.5"));
    let found = user("a", "b", Some("127.0.0.1"), None).resolve(&interfaces(), false).unwrap();
    assert_eq!(found.bind_addr, Some(Ipv4 { a: 127, b: 0, c: 0, d: 1 }));
    let found = user("a", "b", None, None).resolve(&interfaces(), false).unwrap();
    assert_eq!(found.bind_addr, None);
    let refused = user("a", "b", None, Some("wg0")).resolve(&interfaces(), false).map(|u| u.ip);
    assert_eq!(
        refused,
        Err(ConfigError::Validation("Network interface not found or no IPv4 address"))
    );
}

#[test]
fn address_replaced_tells_when_the_interface_overrode_the_address() {
    let before = user("a", "b", Some("1.2.3.4"), Some("eth0"));
    let after = before.resolve(&interfaces(), false).unwrap();
    assert!(before.address_replaced(&after));
    let before = user("a", "b", Some("10.0.0.5"), Some("eth0"));
    let after = before.resolve(&interfaces(), false).unwrap();
    assert!(!before.address_replaced(&after));
    let before = user("a", "b", None, Some("eth0"));
    let after = before.resolve(&interfaces(), false).unwrap();
    assert!(!before.address_replaced(&after));
    let before = user("a", "b", Some("10.0.0.6"), None);
    let after = before.resolve(&interfaces(), false).unwrap();
    assert!(!before.address_replaced(&after));
}

#[test]
fn check_leaves_a_refused_configuration_as_it_was() {
    let users = vec![user("a", "b", None, Some("eth0")), user("c", "d", None, Some("eth9"))];
    let mut config = with_users(users, false);
    assert!(config.check(&interfaces()).is_err());
    assert_eq!(config.users[0].bind_addr, None);
    assert_eq!(config.users[0].ip, None);
}

#[test]
fn user_text_hides_the_password() {
    let u = user("u1", "hunter2", Some("10.0.0.5"), None);
    assert_eq!(
        u.to_text(),
        "User { username: \"u1\", password: \"******\", ip: Some(\"10.0.0.5\"), iface: None }"
    );
    assert!(!u.to_text().contains("hunter2"));
    let mut v = user("bob \"b\"\n", "pw", None, Some("eth0"));
    v.bind_addr = Some(Ipv4 { a: 10, b: 0, c: 0, d: 5 });
    assert_eq!(
        v.to_text(),
        "User { username: \"bob \\\"b\\\"\\n\", password: \"******\", ip: None, iface: Some(\"eth0\") }"
    );
    let copy = v.duplicate();
    assert_eq!((copy.username.as_str(), copy.password.as_str()), ("bob \"b\"\n", "pw"));
    assert_eq!((copy.ip, copy.iface.as_deref(), copy.bind_addr), (None, Some("eth0"), v.bind_addr));
}

#[test]
fn a_user_is_logged_in_or_out_when_needed_or_forced() {
    assert!(needs_login(false, false));
    assert!(!needs_login(true, false));
    assert!(needs_login(true, true));
    assert!(needs_login(false, true));
    assert!(!needs_logout(false, false));
    assert!(needs_logout(true, false));
    assert!(needs_logout(true, true));
    assert!(needs_logout(false, true));
}

fn endpoint(server: &str, server_ip: Option<&str>, strict: bool, bind: Option<Ipv4>) -> Result<Endpoint, SrunError> {
    let mut config = Config::with_defaults(true);
    config.server = server.to_string();
    config.server_ip = server_ip.map(|s| s.to_string());
    config.strict_bind = strict;
    let mut u = user("a", "b", None, None);
    u.bind_addr = bind;
    Endpoint::resolve(&config, &u)
}

#[test]
fn endpoint_takes_scheme_host_and_port_from_the_url() {
    let e = endpoint("http://10.0.0.1", None, false, None).unwrap();
    assert_eq!((e.is_https, e.host.as_str(), e.port), (false, "10.0.0.1", 80));
    assert_eq!((e.remote, e.local), (None, None));
    assert!(matches!(e.cert_verification, CertVerification::System));
    let e = endpoint("https://portal.example.com/", None, false, None).unwrap();
    assert_eq!((e.is_https, e.host.as_str(), e.port), (true, "portal.example.com", 443));
    let e = endpoint("https://portal.example.com:8443/path?x=1", None, false, None).unwrap();
    assert_eq!((e.is_https, e.host.as_str(), e.port), (true, "portal.example.com", 8443));
    let e = endpoint("HTTP://Portal.Example.com:8080", None, false, None).unwrap();
    assert_eq!((e.is_https, e.host.as_str(), e.port), (false, "portal.example.com", 8080));
    let e = endpoint("http://gw:80/", None, false, None).unwrap();
    assert_eq!((e.host.as_str(), e.port), ("gw", 80));
    let e = endpoint("http://gw:443/", None, false, None).unwrap();
    assert_eq!((e.is_https, e.port), (false, 443));
}

#[test]
fn endpoint_refuses_what_is_no_url_with_a_host() {
    for text in ["", "10.0.0.1", "not a url", "http://", "//gw"] {
        assert_eq!(
            endpoint(text, None, false, None).map(|e| e.port),
            Err(SrunError::Config("Invalid server URL")),
            "{:?}",
            text
        );
    }
    assert_eq!(
        endpoint("mailto:admin@example.com", None, false, None).map(|e| e.port),
        Err(SrunError::Config("Server URL has no host"))
    );
}

#[test]
fn endpoint_pins_the_server_address_and_binds_only_when_strict() {
    let home = Ipv4 { a: 10, b: 0, c: 0, d: 5 };
    let e = endpoint("http://gw", Some("10.0.0.1"), true, Some(home)).unwrap();
    assert_eq!(e.remote, Some(Ipv4 { a: 10, b: 0, c: 0, d: 1 }));
    assert_eq!(e.local, Some(home));
    let e = endpoint("http://gw", None, false, Some(home)).unwrap();
    assert_eq!((e.remote, e.local), (None, None));
    let e = endpoint("http://gw", None, true, None).unwrap();
    assert_eq!(e.local, None);
    for text in ["gw", "::1", "10.0.0.256", ""] {
        assert_eq!(
            endpoint("http://gw", Some(text), false, None).map(|e| e.port),
            Err(SrunError::Config("Invalid server IP address"))
        );
    }
    assert_eq!(
        endpoint("nope", Some("nope"), false, None).map(|e| e.port),
        Err(SrunError::Config("Invalid server URL"))
    );
}

#[test]
fn endpoint_needs_tls_for_https() {
    let mut e = endpoint("https://gw", None, false, None).unwrap();
    assert_eq!(e.check_tls(), Ok(()));
    e.cert_verification = CertVerification::Unavailable;
    assert_eq!(
        e.check_tls(),
        Err(HttpError::Tls("TLS support not compiled in. Rebuild with --features tls"))
    );
    e.cert_verification = CertVerification::Skip;
    assert_eq!(e.check_tls(), Ok(()));
    let mut e = endpoint("http://gw", None, false, None).unwrap();
    e.cert_verification = CertVerification::Unavailable;
    assert_eq!(e.check_tls(), Ok(()));
}

#[test]
fn endpoint_from_parts_fills_in_the_port_of_the_scheme() {
    let config = Config::with_defaults(true);
    let u = user("a", "b", None, None);
    let parts = |scheme: &str, host: Option<&str>, port: Option<u16>| {
        Some(UrlParts { scheme: scheme.to_string(), host: host.map(|h| h.to_string()), port })
    };
    let e = Endpoint::from_parts(parts("https", Some("gw"), None), &config, &u).unwrap();
    assert_eq!((e.is_https, e.host.as_str(), e.port), (true, "gw", 443));
    let e = Endpoint::from_parts(parts("http", Some("gw"), None), &config, &u).unwrap();
    assert_eq!((e.is_https, e.port), (false, 80));
    let e = Endpoint::from_parts(parts("ftp", Some("gw"), Some(21)), &config, &u).unwrap();
    assert_eq!((e.is_https, e.port), (false, 21));
    let e = Endpoint::from_parts(parts("HTTPS", Some("gw"), None), &config, &u).unwrap();
    assert_eq!((e.is_https, e.port), (false, 80));
    assert_eq!(
        Endpoint::from_parts(parts("http", None, Some(1)), &config, &u).map(|e| e.port),
        Err(SrunError::Config("Server URL has no host"))
    );
    assert_eq!(
        Endpoint::from_parts(None, &config, &u).map(|e| e.port),
        Err(SrunError::Config("Invalid server URL"))
    );
}
