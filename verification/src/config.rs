//! The configuration of a run: the portal, the session parameters and the
//! users to log in or out.

use crate::cli::Cli;
use crate::error::ConfigError;
use crate::http::{cert_policy_of, CertVerification, CertView};
use crate::ipv4::Ipv4;
use crate::text::{debug_text, quoted, same_text};
use vstd::prelude::*;
use vstd::string::*;

verus! {

/// One user of the portal.
#[derive(Clone)]
pub struct User {
    pub username: String,
    pub password: String,
    /// The address to log in, as configured.
    pub ip: Option<String>,
    /// The interface whose address to log in, as configured.
    pub iface: Option<String>,
    /// The address that the user's traffic leaves from, once it is known.
    pub bind_addr: Option<Ipv4>,
}

/// The mathematical content of a `User`.
pub struct UserView {
    pub username: Seq<char>,
    pub password: Seq<char>,
    pub ip: Option<Seq<char>>,
    pub iface: Option<Seq<char>>,
    pub bind_addr: Option<Ipv4>,
}

impl View for User {
    type V = UserView;

    open spec fn view(&self) -> UserView {
        UserView {
            username: self.username@,
            password: self.password@,
            ip: self.ip.deep_view(),
            iface: self.iface.deep_view(),
            bind_addr: self.bind_addr,
        }
    }
}

/// The configuration of a run.
#[derive(Clone)]
pub struct Config {
    /// The portal's origin, as a URL.
    pub server: String,
    /// The portal's address, where it is not to be looked up by name.
    pub server_ip: Option<String>,
    /// How to check the portal's certificate: `skip`, `system`, or the path
    /// of a CA certificate.
    pub verify_cert: String,
    pub users: Vec<User>,
    /// Whether every user must have an address to bind to.
    pub strict_bind: bool,
    pub enc: String,
    /// The rate class.
    pub n: u32,
    /// The connection type.
    pub conn_type: u32,
    /// The access-control id.
    pub acid: u32,
    pub double_stack: bool,
    pub os: String,
    pub os_name: String,
    /// How many times a login is attempted.
    pub retry_count: u32,
    /// The pause after a failed attempt, in milliseconds.
    pub retry_delay: u64,
    /// What `verify_cert` says, resolved.
    pub cert_verification: CertVerification,
}

/// The mathematical content of a `Config`.
pub struct ConfigView {
    pub server: Seq<char>,
    pub server_ip: Option<Seq<char>>,
    pub verify_cert: Seq<char>,
    pub users: Seq<UserView>,
    pub strict_bind: bool,
    pub enc: Seq<char>,
    pub n: u32,
    pub conn_type: u32,
    pub acid: u32,
    pub double_stack: bool,
    pub os: Seq<char>,
    pub os_name: Seq<char>,
    pub retry_count: u32,
    pub retry_delay: u64,
    pub cert_verification: CertView,
}

/// The mathematical content of a list of users.
pub open spec fn users_view(users: Seq<User>) -> Seq<UserView> {
    Seq::new(users.len(), |i: int| users[i]@)
}

impl View for Config {
    type V = ConfigView;

    open spec fn view(&self) -> ConfigView {
        ConfigView {
            server: self.server@,
            server_ip: self.server_ip.deep_view(),
            verify_cert: self.verify_cert@,
            users: users_view(self.users@),
            strict_bind: self.strict_bind,
            enc: self.enc@,
            n: self.n,
            conn_type: self.conn_type,
            acid: self.acid,
            double_stack: self.double_stack,
            os: self.os@,
            os_name: self.os_name@,
            retry_count: self.retry_count,
            retry_delay: self.retry_delay,
            cert_verification: self.cert_verification@,
        }
    }
}

/// The configuration that holds where nothing is configured. `tls` says
/// whether TLS is available.
pub open spec fn default_config(tls: bool) -> ConfigView {
    ConfigView {
        server: "http://10.0.0.1"@,
        server_ip: None,
        verify_cert: "system"@,
        users: Seq::empty(),
        strict_bind: false,
        enc: "srun_bx1"@,
        n: 200,
        conn_type: 1,
        acid: 1,
        double_stack: false,
        os: "Linux"@,
        os_name: "Linux"@,
        retry_count: 10,
        retry_delay: 500,
        cert_verification: if tls {
            CertView::System
        } else {
            CertView::Unavailable
        },
    }
}

/// The example configuration: the defaults, a pinned server address, and
/// two users, one given by address and one by interface.
pub open spec fn example_config(tls: bool) -> ConfigView {
    ConfigView {
        server_ip: Some("10.0.0.1"@),
        verify_cert: if tls {
            "system"@
        } else {
            "skip"@
        },
        users: seq![
            UserView {
                username: "your_username"@,
                password: "your_password"@,
                ip: Some("your_ipv4_address"@),
                iface: None,
                bind_addr: None,
            },
            UserView {
                username: "your_username"@,
                password: "your_password"@,
                ip: None,
                iface: Some("your_interface_name"@),
                bind_addr: None,
            },
        ],
        ..default_config(tls)
    }
}

/// A setting of the command line where it was given, else the value that
/// stands.
pub open spec fn pick<T>(given: Option<T>, stands: T) -> T {
    match given {
        Some(value) => value,
        None => stands,
    }
}

/// A configuration with the command line's settings put over it. A user
/// name and a password on the command line, both together, replace the
/// configured users by that one user. The certificate policy is resolved
/// from the `verify_cert` setting that results.
pub open spec fn merged(base: ConfigView, cli: Cli, tls: bool) -> ConfigView {
    let verify_cert = pick(cli.verify_cert.deep_view(), base.verify_cert);
    ConfigView {
        server: pick(cli.server.deep_view(), base.server),
        server_ip: if cli.server_ip is Some {
            cli.server_ip.deep_view()
        } else {
            base.server_ip
        },
        verify_cert,
        users: if cli.username is Some && cli.password is Some {
            seq![
                UserView {
                    username: cli.username->Some_0@,
                    password: cli.password->Some_0@,
                    ip: cli.ip.deep_view(),
                    iface: cli.iface.deep_view(),
                    bind_addr: None,
                },
            ]
        } else {
            base.users
        },
        strict_bind: pick(cli.strict_bind, base.strict_bind),
        enc: pick(cli.enc.deep_view(), base.enc),
        n: pick(cli.n, base.n),
        conn_type: pick(cli.conn_type, base.conn_type),
        acid: pick(cli.acid, base.acid),
        double_stack: pick(cli.double_stack, base.double_stack),
        os: pick(cli.os.deep_view(), base.os),
        os_name: pick(cli.os_name.deep_view(), base.os_name),
        retry_count: pick(cli.retry_count, base.retry_count),
        retry_delay: pick(cli.retry_delay, base.retry_delay),
        cert_verification: cert_policy_of(verify_cert, tls),
    }
}

/// The address of a network interface, as far as the client reads it.
#[derive(Debug, Clone, Copy)]
pub enum IfAddr {
    V4(Ipv4),
    V6,
}

/// A network interface of this machine.
#[derive(Debug, Clone)]
pub struct Interface {
    pub name: String,
    pub addr: IfAddr,
}

/// The mathematical content of an `Interface`.
pub struct InterfaceView {
    pub name: Seq<char>,
    pub addr: IfAddr,
}

impl View for Interface {
    type V = InterfaceView;

    open spec fn view(&self) -> InterfaceView {
        InterfaceView { name: self.name@, addr: self.addr }
    }
}

/// The mathematical content of a list of interfaces.
pub open spec fn interfaces_view(interfaces: Seq<Interface>) -> Seq<InterfaceView> {
    Seq::new(interfaces.len(), |i: int| interfaces[i]@)
}

/// The IPv4 address of the first interface of that name that has one.
pub open spec fn named_v4(interfaces: Seq<InterfaceView>, name: Seq<char>) -> Option<Ipv4>
    decreases interfaces.len(),
{
    if interfaces.len() == 0 {
        None
    } else if interfaces[0].name == name && interfaces[0].addr is V4 {
        Some(interfaces[0].addr->V4_0)
    } else {
        named_v4(interfaces.drop_first(), name)
    }
}

/// Whether some interface has this IPv4 address.
pub open spec fn has_v4(interfaces: Seq<InterfaceView>, ip: Ipv4) -> bool {
    exists|i: int| 0 <= i < interfaces.len() && #[trigger] interfaces[i].addr == IfAddr::V4(ip)
}

/// A user with the bind address resolved against the machine's interfaces.
///
/// A configured interface decides: its IPv4 address becomes the user's
/// address and bind address. Else a configured address must be an IPv4
/// address of some interface, and becomes the bind address. With neither,
/// the user stays as it is. Under strict binding a user without a bind
/// address is refused. Every user is held against all the interfaces,
/// whatever the users before it matched.
pub open spec fn resolved_user(user: UserView, interfaces: Seq<InterfaceView>, strict: bool) -> Result<
    UserView,
    ConfigError,
> {
    let bound: Result<UserView, ConfigError> = match user.iface {
        Some(name) => match named_v4(interfaces, name) {
            Some(ip) => Ok(UserView { ip: Some(ip.text()), bind_addr: Some(ip), ..user }),
            None => Err(
                ConfigError::Validation("Network interface not found or no IPv4 address"),
            ),
        },
        None => match user.ip {
            Some(text) => match Ipv4::parsed(text) {
                None => Err(ConfigError::Validation("IP address is not an IPv4 address")),
                Some(ip) => if has_v4(interfaces, ip) {
                    Ok(UserView { bind_addr: Some(ip), ..user })
                } else {
                    Err(ConfigError::Validation("IP address not found on any interface"))
                },
            },
            None => Ok(user),
        },
    };
    match bound {
        Ok(found) => if strict && found.bind_addr is None {
            Err(ConfigError::Validation("IP or Interface required when strict_bind enabled"))
        } else {
            Ok(found)
        },
        Err(e) => Err(e),
    }
}

/// Whether resolving a user put the address of the configured interface in
/// the place of a configured address that differs from it.
pub open spec fn address_replaced(before: UserView, after: UserView) -> bool {
    before.iface is Some && before.ip is Some && after.ip is Some && before.ip != after.ip
}

/// What is wrong with the first user that has no name or no password.
pub open spec fn first_invalid(users: Seq<UserView>) -> Option<ConfigError>
    decreases users.len(),
{
    if users.len() == 0 {
        None
    } else if users[0].username.len() == 0 {
        Some(ConfigError::Validation("Username cannot be empty"))
    } else if users[0].password.len() == 0 {
        Some(ConfigError::Validation("Password cannot be empty"))
    } else {
        first_invalid(users.drop_first())
    }
}

/// The users, each resolved; the first refusal where one is refused.
pub open spec fn resolved_users(users: Seq<UserView>, interfaces: Seq<InterfaceView>, strict: bool) -> Result<
    Seq<UserView>,
    ConfigError,
>
    decreases users.len(),
{
    if users.len() == 0 {
        Ok(Seq::empty())
    } else {
        match resolved_user(users[0], interfaces, strict) {
            Err(e) => Err(e),
            Ok(user) => match resolved_users(users.drop_first(), interfaces, strict) {
                Err(e) => Err(e),
                Ok(rest) => Ok(seq![user] + rest),
            },
        }
    }
}

/// A configuration checked and resolved: there must be users, each with a
/// name and a password, and each must resolve.
pub open spec fn checked(config: ConfigView, interfaces: Seq<InterfaceView>) -> Result<
    ConfigView,
    ConfigError,
> {
    if config.users.len() == 0 {
        Err(ConfigError::Validation("No users configured"))
    } else if first_invalid(config.users) is Some {
        Err(first_invalid(config.users)->Some_0)
    } else {
        match resolved_users(config.users, interfaces, config.strict_bind) {
            Ok(users) => Ok(ConfigView { users, ..config }),
            Err(e) => Err(e),
        }
    }
}

/// A text that may be absent, as `Debug` shows it.
pub open spec fn shown(text: Option<Seq<char>>) -> Seq<char> {
    match text {
        Some(t) => "Some("@ + debug_text(t) + ")"@,
        None => "None"@,
    }
}

/// What is shown of a user: the name, stars for the password, the address
/// and the interface, as `Debug` shows a struct of these four fields.
pub open spec fn redacted(user: UserView) -> Seq<char> {
    "User { username: "@ + debug_text(user.username) + ", password: \"******\", ip: "@ + shown(
        user.ip,
    ) + ", iface: "@ + shown(user.iface) + " }"@
}

/// A copy of a text that may be absent.
fn copy_text(text: &Option<String>) -> (r: Option<String>)
    ensures
        r.deep_view() == text.deep_view(),
{
    match text {
        Some(s) => Some(s.clone()),
        None => None,
    }
}

/// Looks for the first interface of that name with an IPv4 address.
fn find_named_v4(interfaces: &Vec<Interface>, name: &str) -> (r: Option<Ipv4>)
    ensures
        r == named_v4(interfaces_view(interfaces@), name@),
{
    let ghost all = interfaces_view(interfaces@);
    let mut i: usize = 0;
    assert(all.skip(0) =~= all);
    while i < interfaces.len()
        invariant
            i <= interfaces.len(),
            all == interfaces_view(interfaces@),
            named_v4(all, name@) == named_v4(all.skip(i as int), name@),
        decreases interfaces.len() - i,
    {
        assert(all.skip(i as int)[0] == all[i as int]);
        assert(all.skip(i as int).drop_first() =~= all.skip(i + 1));
        if same_text(interfaces[i].name.as_str(), name) {
            match interfaces[i].addr {
                IfAddr::V4(ip) => {
                    return Some(ip);
                },
                IfAddr::V6 => {},
            }
        }
        i += 1;
    }
    None
}

/// Looks for an interface with that IPv4 address.
fn find_v4(interfaces: &Vec<Interface>, ip: Ipv4) -> (r: bool)
    ensures
        r == has_v4(interfaces_view(interfaces@), ip),
{
    let ghost all = interfaces_view(interfaces@);
    let mut i: usize = 0;
    while i < interfaces.len()
        invariant
            i <= interfaces.len(),
            all == interfaces_view(interfaces@),
            forall|j: int| 0 <= j < i ==> #[trigger] all[j].addr != IfAddr::V4(ip),
        decreases interfaces.len() - i,
    {
        match interfaces[i].addr {
            IfAddr::V4(found) => {
                if found == ip {
                    assert(all[i as int].addr == IfAddr::V4(ip));
                    return true;
                }
            },
            IfAddr::V6 => {},
        }
        i += 1;
    }
    false
}

/// Writes a text that may be absent as `Debug` shows it.
fn show(text: &Option<String>) -> (r: String)
    ensures
        r@ == shown(text.deep_view()),
{
    match text {
        Some(t) => {
            let mut r = String::from_str("Some(");
            r.append(quoted(t.as_str()).as_str());
            r.append(")");
            r
        },
        None => String::from_str("None"),
    }
}

impl User {
    /// A copy of the user.
    pub fn duplicate(&self) -> (r: User)
        ensures
            r@ == self@,
    {
        User {
            username: self.username.clone(),
            password: self.password.clone(),
            ip: copy_text(&self.ip),
            iface: copy_text(&self.iface),
            bind_addr: self.bind_addr,
        }
    }

    /// Writes what is shown of the user. The password is never part of it.
    pub fn to_text(&self) -> (r: String)
        ensures
            r@ == redacted(self@),
    {
        let mut r = String::from_str("User { username: ");
        r.append(quoted(self.username.as_str()).as_str());
        r.append(", password: \"******\", ip: ");
        r.append(show(&self.ip).as_str());
        r.append(", iface: ");
        r.append(show(&self.iface).as_str());
        r.append(" }");
        assert(r@ =~= redacted(self@));
        r
    }

    /// Resolves the user's bind address against the machine's interfaces.
    pub fn resolve(&self, interfaces: &Vec<Interface>, strict: bool) -> (r: Result<User, ConfigError>)
        ensures
            match resolved_user(self@, interfaces_view(interfaces@), strict) {
                Ok(user) => r is Ok && r->Ok_0@ == user,
                Err(e) => r == Err::<User, ConfigError>(e),
            },
    {
        let mut user = self.duplicate();
        match &self.iface {
            Some(name) => match find_named_v4(interfaces, name.as_str()) {
                Some(ip) => {
                    user.ip = Some(ip.to_text());
                    user.bind_addr = Some(ip);
                },
                None => {
                    return Err(
                        ConfigError::Validation("Network interface not found or no IPv4 address"),
                    );
                },
            },
            None => match &self.ip {
                Some(text) => match Ipv4::parse(text.as_str()) {
                    None => {
                        return Err(ConfigError::Validation("IP address is not an IPv4 address"));
                    },
                    Some(ip) => {
                        if find_v4(interfaces, ip) {
                            user.bind_addr = Some(ip);
                        } else {
                            return Err(
                                ConfigError::Validation("IP address not found on any interface"),
                            );
                        }
                    },
                },
                None => {},
            },
        }
        if strict && user.bind_addr.is_none() {
            return Err(
                ConfigError::Validation("IP or Interface required when strict_bind enabled"),
            );
        }
        Ok(user)
    }

    /// Says whether resolving put the interface's address in the place of
    /// a configured address that differs from it; `self` is the user as
    /// configured, `resolved` the user as resolved.
    pub fn address_replaced(&self, resolved: &User) -> (r: bool)
        ensures
            r == address_replaced(self@, resolved@),
    {
        match (&self.iface, &self.ip, &resolved.ip) {
            (Some(_), Some(before), Some(after)) => !same_text(before.as_str(), after.as_str()),
            _ => false,
        }
    }
}

/// The value that was given, else the one that stands.
fn take<T: Copy>(given: Option<T>, stands: T) -> (r: T)
    ensures
        r == pick(given, stands),
{
    match given {
        Some(value) => value,
        None => stands,
    }
}

/// The text that was given, else the one that stands.
fn take_text(given: Option<String>, stands: String) -> (r: String)
    ensures
        r@ == pick(given.deep_view(), stands@),
{
    match given {
        Some(value) => value,
        None => stands,
    }
}

/// The one user of the command line, where it names one, else the users
/// that stand.
fn take_users(
    username: Option<String>,
    password: Option<String>,
    ip: Option<String>,
    iface: Option<String>,
    stands: Vec<User>,
) -> (r: Vec<User>)
    ensures
        users_view(r@) == if username is Some && password is Some {
            seq![
                UserView {
                    username: username->Some_0@,
                    password: password->Some_0@,
                    ip: ip.deep_view(),
                    iface: iface.deep_view(),
                    bind_addr: None,
                },
            ]
        } else {
            users_view(stands@)
        },
{
    match (username, password) {
        (Some(username), Some(password)) => {
            let mut users: Vec<User> = Vec::new();
            users.push(User { username, password, ip, iface, bind_addr: None });
            assert(users_view(users@) =~= seq![users@[0]@]);
            users
        },
        _ => stands,
    }
}

/// Looks for the first user without a name or a password.
fn all_valid(users: &Vec<User>) -> (r: Option<ConfigError>)
    ensures
        r == first_invalid(users_view(users@)),
{
    let ghost all = users_view(users@);
    let mut i: usize = 0;
    assert(all.skip(0) =~= all);
    while i < users.len()
        invariant
            i <= users.len(),
            all == users_view(users@),
            first_invalid(all) == first_invalid(all.skip(i as int)),
        decreases users.len() - i,
    {
        assert(all.skip(i as int)[0] == all[i as int]);
        assert(all.skip(i as int).drop_first() =~= all.skip(i + 1));
        if users[i].username.as_str().is_empty() {
            return Some(ConfigError::Validation("Username cannot be empty"));
        }
        if users[i].password.as_str().is_empty() {
            return Some(ConfigError::Validation("Password cannot be empty"));
        }
        i += 1;
    }
    None
}

/// Resolves the users in turn.
fn resolve_all(users: &Vec<User>, interfaces: &Vec<Interface>, strict: bool) -> (r: Result<
    Vec<User>,
    ConfigError,
>)
    ensures
        match resolved_users(users_view(users@), interfaces_view(interfaces@), strict) {
            Ok(found) => r is Ok && users_view(r->Ok_0@) == found,
            Err(e) => r == Err::<Vec<User>, ConfigError>(e),
        },
{
    let ghost all = users_view(users@);
    let ghost ifs = interfaces_view(interfaces@);
    let mut found: Vec<User> = Vec::new();
    let mut i: usize = 0;
    assert(all.skip(0) =~= all);
    assert(users_view(found@) + resolved_users(all, ifs, strict)->Ok_0 =~= resolved_users(
        all,
        ifs,
        strict,
    )->Ok_0);
    while i < users.len()
        invariant
            i <= users.len(),
            all == users_view(users@),
            ifs == interfaces_view(interfaces@),
            match resolved_users(all.skip(i as int), ifs, strict) {
                Ok(rest) => resolved_users(all, ifs, strict) == Ok::<Seq<UserView>, ConfigError>(
                    users_view(found@) + rest,
                ),
                Err(e) => resolved_users(all, ifs, strict) == Err::<Seq<UserView>, ConfigError>(e),
            },
        decreases users.len() - i,
    {
        let ghost before = users_view(found@);
        assert(all.skip(i as int)[0] == all[i as int]);
        assert(all.skip(i as int).drop_first() =~= all.skip(i + 1));
        match users[i].resolve(interfaces, strict) {
            Err(e) => {
                return Err(e);
            },
            Ok(user) => {
                found.push(user);
                proof {
                    assert(users_view(found@) =~= before + seq![user@]);
                    match resolved_users(all.skip(i + 1), ifs, strict) {
                        Ok(rest) => {
                            assert(before + (seq![user@] + rest) =~= users_view(found@) + rest);
                        },
                        Err(_) => {},
                    }
                }
            },
        }
        i += 1;
    }
    assert(users_view(found@) + Seq::<UserView>::empty() =~= users_view(found@));
    Ok(found)
}

impl Config {
    /// The configuration that holds where nothing is configured.
    pub fn with_defaults(tls: bool) -> (r: Config)
        ensures
            r@ == default_config(tls),
    {
        let r = Config {
            server: String::from_str("http://10.0.0.1"),
            server_ip: None,
            verify_cert: String::from_str("system"),
            users: Vec::new(),
            strict_bind: false,
            enc: String::from_str("srun_bx1"),
            n: 200,
            conn_type: 1,
            acid: 1,
            double_stack: false,
            os: String::from_str("Linux"),
            os_name: String::from_str("Linux"),
            retry_count: 10,
            retry_delay: 500,
            cert_verification: if tls {
                CertVerification::System
            } else {
                CertVerification::Unavailable
            },
        };
        assert(r@.users =~= default_config(tls).users);
        r
    }

    /// The example configuration.
    pub fn example(tls: bool) -> (r: Config)
        ensures
            r@ == example_config(tls),
    {
        let mut r = Config::with_defaults(tls);
        r.server_ip = Some(String::from_str("10.0.0.1"));
        r.verify_cert = if tls {
            String::from_str("system")
        } else {
            String::from_str("skip")
        };
        let mut users: Vec<User> = Vec::new();
        users.push(
            User {
                username: String::from_str("your_username"),
                password: String::from_str("your_password"),
                ip: Some(String::from_str("your_ipv4_address")),
                iface: None,
                bind_addr: None,
            },
        );
        users.push(
            User {
                username: String::from_str("your_username"),
                password: String::from_str("your_password"),
                ip: None,
                iface: Some(String::from_str("your_interface_name")),
                bind_addr: None,
            },
        );
        r.users = users;
        assert(r@.users =~= example_config(tls).users);
        r
    }

    /// The configuration of a run: the loaded configuration, or the
    /// defaults where none was loaded, with the command line's settings put
    /// over it.
    pub fn from_cli(cli: Cli, loaded: Option<Config>, tls: bool) -> (r: Config)
        ensures
            r@ == merged(
                match loaded {
                    Some(config) => config@,
                    None => default_config(tls),
                },
                cli,
                tls,
            ),
    {
        let base = match loaded {
            Some(config) => config,
            None => Config::with_defaults(tls),
        };
        let verify_cert = take_text(cli.verify_cert, base.verify_cert);
        let cert_verification = CertVerification::from_setting(verify_cert.as_str(), tls);
        let users = take_users(cli.username, cli.password, cli.ip, cli.iface, base.users);
        Config {
            server: take_text(cli.server, base.server),
            server_ip: match cli.server_ip {
                Some(server_ip) => Some(server_ip),
                None => base.server_ip,
            },
            verify_cert,
            users,
            strict_bind: take(cli.strict_bind, base.strict_bind),
            enc: take_text(cli.enc, base.enc),
            n: take(cli.n, base.n),
            conn_type: take(cli.conn_type, base.conn_type),
            acid: take(cli.acid, base.acid),
            double_stack: take(cli.double_stack, base.double_stack),
            os: take_text(cli.os, base.os),
            os_name: take_text(cli.os_name, base.os_name),
            retry_count: take(cli.retry_count, base.retry_count),
            retry_delay: take(cli.retry_delay, base.retry_delay),
            cert_verification,
        }
    }

    /// Checks the configuration and resolves every user's bind address
    /// against the machine's interfaces. A configuration that is refused
    /// stays as it was.
    pub fn check(&mut self, interfaces: &Vec<Interface>) -> (r: Result<(), ConfigError>)
        ensures
            match checked(old(self)@, interfaces_view(interfaces@)) {
                Ok(config) => r is Ok && final(self)@ == config,
                Err(e) => r == Err::<(), ConfigError>(e) && final(self)@ == old(self)@,
            },
    {
        if self.users.len() == 0 {
            return Err(ConfigError::Validation("No users configured"));
        }
        match all_valid(&self.users) {
            Some(e) => {
                return Err(e);
            },
            None => {},
        }
        match resolve_all(&self.users, interfaces, self.strict_bind) {
            Ok(users) => {
                self.users = users;
                Ok(())
            },
            Err(e) => Err(e),
        }
    }
}

impl Default for Config {
    fn default() -> (r: Config)
        ensures
            r@ == default_config(true),
    {
        Config::with_defaults(true)
    }
}

/// Whether to log a user in: when the user is not online, or on demand.
pub fn needs_login(online: bool, force: bool) -> (r: bool)
    ensures
        r == (!online || force),
{
    !online || force
}

/// Whether to log a user out: when the user is online, or on demand.
pub fn needs_logout(online: bool, force: bool) -> (r: bool)
    ensures
        r == (online || force),
{
    online || force
}

} // verus!
