//! The portal protocol: the requests of a status query, a login and a
//! logout, and what the client makes of the portal's answers.
//!
//! Nothing here performs I/O. A request is handed out as a value; the caller
//! sends it, strips the JSONP wrapper from the answer, decodes the JSON and
//! hands the decoded answer back.

use crate::config::{Config, User, UserView};
use crate::error::SrunError;
use crate::ipv4::Ipv4;
use crate::jsonp::{callback_token, callback_token_of};
use crate::login::{started, Action, Login};
use crate::sign::{
    checksum, checksum_input, checksum_input_of, checksum_of, password_signature,
    password_signature_of,
};
use crate::text::{decimal, decimal_text, same_text};
use vstd::prelude::*;
use vstd::string::*;

verus! {

/// The time of a request: seconds and milliseconds since the epoch.
#[derive(Clone, Copy, Debug)]
pub struct Now {
    pub secs: u64,
    pub millis: u128,
}

/// The parameters of a session, fixed for a run.
#[derive(Clone, Debug)]
pub struct SessionParams {
    /// The access-control id.
    pub acid: u32,
    /// The rate class.
    pub n: u32,
    /// The connection type.
    pub conn_type: u32,
    pub os: String,
    pub os_name: String,
    pub double_stack: bool,
    pub strict_bind: bool,
    /// How many times a login is attempted.
    pub retry_count: u32,
    /// The pause after a failed attempt, in milliseconds.
    pub retry_delay: u64,
}

/// The mathematical content of `SessionParams`.
pub struct ParamsView {
    pub acid: u32,
    pub n: u32,
    pub conn_type: u32,
    pub os: Seq<char>,
    pub os_name: Seq<char>,
    pub double_stack: bool,
    pub strict_bind: bool,
    pub retry_count: u32,
    pub retry_delay: u64,
}

impl View for SessionParams {
    type V = ParamsView;

    open spec fn view(&self) -> ParamsView {
        ParamsView {
            acid: self.acid,
            n: self.n,
            conn_type: self.conn_type,
            os: self.os@,
            os_name: self.os_name@,
            double_stack: self.double_stack,
            strict_bind: self.strict_bind,
            retry_count: self.retry_count,
            retry_delay: self.retry_delay,
        }
    }
}

/// An error code of the portal, which some gateways send as a number and
/// others as text.
#[derive(Clone, Debug)]
pub enum ECode {
    I(i32),
    S(String),
}

impl Default for ECode {
    fn default() -> (r: ECode)
        ensures
            r == ECode::I(0),
    {
        ECode::I(0)
    }
}

/// The portal's answer to a request for a challenge.
#[derive(Clone, Debug)]
pub struct ChallengeResponse {
    pub challenge: Option<String>,
    pub client_ip: String,
    pub ecode: ECode,
    pub error: String,
    pub error_msg: String,
    pub expire: Option<String>,
    pub online_ip: String,
    pub res: String,
    pub srun_ver: String,
    pub st: u64,
}

/// The portal's answer to a status query.
#[derive(Clone, Debug)]
pub struct InfoResponse {
    pub online_ip: String,
    pub error: String,
    pub server_flag: Option<u32>,
    pub add_time: Option<u32>,
    pub all_bytes: Option<u64>,
    pub bytes_in: Option<u64>,
    pub bytes_out: Option<u64>,
    pub checkout_date: Option<u32>,
    pub domain: Option<String>,
    pub keepalive_time: Option<u32>,
    pub real_name: Option<String>,
    pub remain_seconds: Option<u32>,
    pub sum_bytes: Option<u64>,
    pub sum_seconds: Option<u32>,
    pub sysver: Option<String>,
    pub user_mac: Option<String>,
    pub user_name: Option<String>,
    pub client_ip: Option<String>,
    pub ecode: Option<u32>,
    pub error_msg: Option<String>,
    pub res: Option<String>,
    pub srun_ver: Option<String>,
    pub st: Option<u32>,
}

/// The portal's answer to a login or a logout.
#[derive(Clone, Debug)]
pub struct PortalResponse {
    pub server_flag: i32,
    pub services_intf_server_ip: String,
    pub services_intf_server_port: String,
    pub access_token: String,
    pub checkout_date: u64,
    pub ecode: ECode,
    pub error: String,
    pub error_msg: String,
    pub client_ip: String,
    pub online_ip: String,
    pub real_name: String,
    pub remain_flux: i32,
    pub remain_times: i32,
    pub res: String,
    pub srun_ver: String,
    pub suc_msg: String,
    pub sysver: String,
    pub username: String,
    pub wallet_balance: i32,
    pub st: u64,
}

impl Default for ChallengeResponse {
    fn default() -> (r: ChallengeResponse)
        ensures
            r.challenge is None,
            r.client_ip@ == Seq::<char>::empty(),
            r.ecode == ECode::I(0),
            r.error@ == Seq::<char>::empty(),
            r.error_msg@ == Seq::<char>::empty(),
            r.expire is None,
            r.online_ip@ == Seq::<char>::empty(),
            r.res@ == Seq::<char>::empty(),
            r.srun_ver@ == Seq::<char>::empty(),
            r.st == 0,
    {
        ChallengeResponse {
            challenge: None,
            client_ip: String::new(),
            ecode: ECode::I(0),
            error: String::new(),
            error_msg: String::new(),
            expire: None,
            online_ip: String::new(),
            res: String::new(),
            srun_ver: String::new(),
            st: 0,
        }
    }
}

impl Default for InfoResponse {
    fn default() -> (r: InfoResponse)
        ensures
            r.online_ip@ == Seq::<char>::empty(),
            r.error@ == Seq::<char>::empty(),
            r.server_flag is None && r.add_time is None && r.all_bytes is None,
            r.bytes_in is None && r.bytes_out is None && r.checkout_date is None,
            r.domain is None && r.keepalive_time is None && r.real_name is None,
            r.remain_seconds is None && r.sum_bytes is None && r.sum_seconds is None,
            r.sysver is None && r.user_mac is None && r.user_name is None,
            r.client_ip is None && r.ecode is None && r.error_msg is None,
            r.res is None && r.srun_ver is None && r.st is None,
    {
        InfoResponse {
            online_ip: String::new(),
            error: String::new(),
            server_flag: None,
            add_time: None,
            all_bytes: None,
            bytes_in: None,
            bytes_out: None,
            checkout_date: None,
            domain: None,
            keepalive_time: None,
            real_name: None,
            remain_seconds: None,
            sum_bytes: None,
            sum_seconds: None,
            sysver: None,
            user_mac: None,
            user_name: None,
            client_ip: None,
            ecode: None,
            error_msg: None,
            res: None,
            srun_ver: None,
            st: None,
        }
    }
}

impl Default for PortalResponse {
    fn default() -> (r: PortalResponse)
        ensures
            r.server_flag == 0,
            r.services_intf_server_ip@ == Seq::<char>::empty(),
            r.services_intf_server_port@ == Seq::<char>::empty(),
            r.access_token@ == Seq::<char>::empty(),
            r.checkout_date == 0,
            r.ecode == ECode::I(0),
            r.error@ == Seq::<char>::empty(),
            r.error_msg@ == Seq::<char>::empty(),
            r.client_ip@ == Seq::<char>::empty(),
            r.online_ip@ == Seq::<char>::empty(),
            r.real_name@ == Seq::<char>::empty(),
            r.remain_flux == 0,
            r.remain_times == 0,
            r.res@ == Seq::<char>::empty(),
            r.srun_ver@ == Seq::<char>::empty(),
            r.suc_msg@ == Seq::<char>::empty(),
            r.sysver@ == Seq::<char>::empty(),
            r.username@ == Seq::<char>::empty(),
            r.wallet_balance == 0,
            r.st == 0,
    {
        PortalResponse {
            server_flag: 0,
            services_intf_server_ip: String::new(),
            services_intf_server_port: String::new(),
            access_token: String::new(),
            checkout_date: 0,
            ecode: ECode::I(0),
            error: String::new(),
            error_msg: String::new(),
            client_ip: String::new(),
            online_ip: String::new(),
            real_name: String::new(),
            remain_flux: 0,
            remain_times: 0,
            res: String::new(),
            srun_ver: String::new(),
            suc_msg: String::new(),
            sysver: String::new(),
            username: String::new(),
            wallet_balance: 0,
            st: 0,
        }
    }
}

impl ChallengeResponse {
    /// The challenge of the answer; an error where the portal sent none.
    pub fn token(self) -> (r: Result<String, SrunError>)
        ensures
            match self.challenge {
                Some(challenge) => r is Ok && r->Ok_0@ == challenge@,
                None => r == Err::<String, SrunError>(
                    SrunError::Challenge("Server returned no challenge token"),
                ),
            },
    {
        match self.challenge {
            Some(challenge) => Ok(challenge),
            None => Err(SrunError::Challenge("Server returned no challenge token")),
        }
    }
}

impl PortalResponse {
    /// Whether the portal accepted the submission.
    pub fn is_accepted(&self) -> (r: bool)
        ensures
            r == accepted(self.res@, self.error@),
    {
        same_text(self.res.as_str(), "ok") && same_text(self.error.as_str(), "ok")
    }
}

/// A request to the portal: the path, the query parameters in order, and
/// the callback token by which the answer is unwrapped. The token is also
/// the last parameter.
#[derive(Clone, Debug)]
pub struct Request {
    pub path: String,
    pub query: Vec<(String, String)>,
    pub token: String,
}

/// The mathematical content of a `Request`.
pub struct RequestView {
    pub path: Seq<char>,
    pub query: Seq<(Seq<char>, Seq<char>)>,
    pub token: Seq<char>,
}

impl View for Request {
    type V = RequestView;

    open spec fn view(&self) -> RequestView {
        RequestView { path: self.path@, query: self.query.deep_view(), token: self.token@ }
    }
}

/// Whether the portal accepted a login or a logout: result code and error
/// code are both `ok`.
pub open spec fn accepted(res: Seq<char>, error: Seq<char>) -> bool {
    res == "ok"@ && error == "ok"@
}

/// The text of a flag as it goes into a query.
pub open spec fn flag_text(flag: bool) -> Seq<char> {
    if flag {
        "true"@
    } else {
        "false"@
    }
}

/// The status query: nothing but the callback.
pub open spec fn status_request_of(now: Now) -> RequestView {
    RequestView {
        path: "/cgi-bin/rad_user_info"@,
        query: seq![("callback"@, callback_token_of(now.millis as nat))],
        token: callback_token_of(now.millis as nat),
    }
}

/// The request for a challenge for `username` at `ip`.
pub open spec fn challenge_request_of(username: Seq<char>, ip: Seq<char>, now: Now) -> RequestView {
    RequestView {
        path: "/cgi-bin/get_challenge"@,
        query: seq![
            ("username"@, username),
            ("ip"@, ip),
            ("_"@, decimal(now.secs as nat)),
            ("callback"@, callback_token_of(now.millis as nat)),
        ],
        token: callback_token_of(now.millis as nat),
    }
}

/// The login submission. The password goes out only as its keyed signature
/// under the challenge; the checksum is taken over the very values that
/// stand in the query.
pub open spec fn login_request_of(
    params: ParamsView,
    username: Seq<char>,
    password: Seq<char>,
    ip: Seq<char>,
    challenge: Seq<char>,
    info: Seq<char>,
    now: Now,
) -> RequestView {
    let signature = password_signature_of(challenge, password);
    let acid = decimal(params.acid as nat);
    let n = decimal(params.n as nat);
    let kind = decimal(params.conn_type as nat);
    let sum = checksum_of(checksum_input_of(challenge, username, signature, acid, ip, n, kind, info));
    RequestView {
        path: "/cgi-bin/srun_portal"@,
        query: seq![
            ("action"@, "login"@),
            ("username"@, username),
            ("password"@, "{MD5}"@ + signature),
            ("ip"@, ip),
            ("ac_id"@, acid),
            ("n"@, n),
            ("type"@, kind),
            ("os"@, params.os),
            ("name"@, params.os_name),
            ("double_stack"@, flag_text(params.double_stack)),
            ("info"@, info),
            ("chksum"@, sum),
            ("_"@, decimal(now.secs as nat)),
            ("callback"@, callback_token_of(now.millis as nat)),
        ],
        token: callback_token_of(now.millis as nat),
    }
}

/// The logout submission.
pub open spec fn logout_request_of(acid: u32, username: Seq<char>, ip: Seq<char>, now: Now) -> RequestView {
    RequestView {
        path: "/cgi-bin/srun_portal"@,
        query: seq![
            ("action"@, "logout"@),
            ("username"@, username),
            ("ip"@, ip),
            ("ac_id"@, decimal(acid as nat)),
            ("_"@, decimal(now.secs as nat)),
            ("callback"@, callback_token_of(now.millis as nat)),
        ],
        token: callback_token_of(now.millis as nat),
    }
}

/// Adds one parameter to a query.
fn add_param(query: &mut Vec<(String, String)>, name: &str, value: &str)
    ensures
        final(query).deep_view() == old(query).deep_view().push((name@, value@)),
{
    query.push((String::from_str(name), String::from_str(value)));
    assert(query.deep_view() =~= old(query).deep_view().push((name@, value@)));
}

/// Adds the time and the callback to a query, and makes the request.
fn finish_request(path: &str, query: Vec<(String, String)>, now: Now) -> (r: Request)
    ensures
        r@ == (RequestView {
            path: path@,
            query: query.deep_view().push(
                ("_"@, decimal(now.secs as nat)),
            ).push(("callback"@, callback_token_of(now.millis as nat))),
            token: callback_token_of(now.millis as nat),
        }),
{
    let mut query = query;
    let token = callback_token(now.millis);
    add_param(&mut query, "_", decimal_text(now.secs as u128).as_str());
    add_param(&mut query, "callback", token.as_str());
    Request { path: String::from_str(path), query, token }
}

/// Builds the status query.
pub fn status_request(now: Now) -> (r: Request)
    ensures
        r@ == status_request_of(now),
{
    let mut query: Vec<(String, String)> = Vec::new();
    let token = callback_token(now.millis);
    add_param(&mut query, "callback", token.as_str());
    let r = Request { path: String::from_str("/cgi-bin/rad_user_info"), query, token };
    assert(r@.query =~= status_request_of(now).query);
    r
}

/// Builds the request for a challenge.
pub fn challenge_request(username: &str, ip: &str, now: Now) -> (r: Request)
    ensures
        r@ == challenge_request_of(username@, ip@, now),
{
    let mut query: Vec<(String, String)> = Vec::new();
    add_param(&mut query, "username", username);
    add_param(&mut query, "ip", ip);
    let r = finish_request("/cgi-bin/get_challenge", query, now);
    assert(r@.query =~= challenge_request_of(username@, ip@, now).query);
    r
}

/// Builds the login submission for a challenge and the payload encoded
/// under it.
pub fn login_request(
    params: &SessionParams,
    username: &str,
    password: &str,
    ip: &str,
    challenge: &str,
    info: &str,
    now: Now,
) -> (r: Request)
    ensures
        r@ == login_request_of(params@, username@, password@, ip@, challenge@, info@, now),
{
    let signature = password_signature(challenge, password);
    let acid = decimal_text(params.acid as u128);
    let n = decimal_text(params.n as u128);
    let kind = decimal_text(params.conn_type as u128);
    let input = checksum_input(
        challenge,
        username,
        signature.as_str(),
        acid.as_str(),
        ip,
        n.as_str(),
        kind.as_str(),
        info,
    );
    let sum = checksum(input.as_str());
    let tagged = String::from_str("{MD5}").concat(signature.as_str());
    let mut query: Vec<(String, String)> = Vec::new();
    add_param(&mut query, "action", "login");
    add_param(&mut query, "username", username);
    add_param(&mut query, "password", tagged.as_str());
    add_param(&mut query, "ip", ip);
    add_param(&mut query, "ac_id", acid.as_str());
    add_param(&mut query, "n", n.as_str());
    add_param(&mut query, "type", kind.as_str());
    add_param(&mut query, "os", params.os.as_str());
    add_param(&mut query, "name", params.os_name.as_str());
    add_param(
        &mut query,
        "double_stack",
        if params.double_stack {
            "true"
        } else {
            "false"
        },
    );
    add_param(&mut query, "info", info);
    add_param(&mut query, "chksum", sum.as_str());
    let r = finish_request("/cgi-bin/srun_portal", query, now);
    assert(r@.query =~= login_request_of(
        params@,
        username@,
        password@,
        ip@,
        challenge@,
        info@,
        now,
    ).query);
    r
}

/// Builds the logout submission.
pub fn logout_request(acid: u32, username: &str, ip: &str, now: Now) -> (r: Request)
    ensures
        r@ == logout_request_of(acid, username@, ip@, now),
{
    let mut query: Vec<(String, String)> = Vec::new();
    add_param(&mut query, "action", "logout");
    add_param(&mut query, "username", username);
    add_param(&mut query, "ip", ip);
    add_param(&mut query, "ac_id", decimal_text(acid as u128).as_str());
    let r = finish_request("/cgi-bin/srun_portal", query, now);
    assert(r@.query =~= logout_request_of(acid, username@, ip@, now).query);
    r
}

impl SessionParams {
    /// A copy of the parameters.
    pub fn duplicate(&self) -> (r: SessionParams)
        ensures
            r@ == self@,
    {
        SessionParams {
            acid: self.acid,
            n: self.n,
            conn_type: self.conn_type,
            os: self.os.clone(),
            os_name: self.os_name.clone(),
            double_stack: self.double_stack,
            strict_bind: self.strict_bind,
            retry_count: self.retry_count,
            retry_delay: self.retry_delay,
        }
    }
}

/// The protocol's side of a client for one user: the session parameters
/// and the user, whose bind address a status query may fill in.
#[derive(Clone)]
pub struct SrunClient {
    pub params: SessionParams,
    pub user: User,
}

/// The mathematical content of an `SrunClient`.
pub struct ClientView {
    pub params: ParamsView,
    pub user: UserView,
}

impl View for SrunClient {
    type V = ClientView;

    open spec fn view(&self) -> ClientView {
        ClientView { params: self.params@, user: self.user@ }
    }
}

/// What a status report says: whether the user is online, and the bind
/// address to go on with.
///
/// With a bind address, the user is online when the report's error field
/// is `ok` and its address is the bind address. Without one, the error
/// field alone decides, and the report's address becomes the bind address
/// where it is an IPv4 address; where it is none, the bind address stays
/// unknown.
pub open spec fn status_of(bind_addr: Option<Ipv4>, online_ip: Seq<char>, error: Seq<char>) -> (
    bool,
    Option<Ipv4>,
) {
    match bind_addr {
        Some(ip) => (error == "ok"@ && online_ip == ip.text(), Some(ip)),
        None => (error == "ok"@, Ipv4::parsed(online_ip)),
    }
}

/// How a logout ends: a configuration error without a bind address, a
/// network error where the exchange failed, else by the portal's verdict.
pub open spec fn logout_outcome(bind_addr: Option<Ipv4>, answer: Option<(Seq<char>, Seq<char>)>) -> Result<
    (),
    SrunError,
> {
    match bind_addr {
        None => Err(SrunError::Config("No IP address configured")),
        Some(_) => match answer {
            None => Err(SrunError::Network("Failed to communicate with server")),
            Some((res, error)) => if accepted(res, error) {
                Ok(())
            } else {
                Err(SrunError::Logout("Server rejected logout request"))
            },
        },
    }
}

impl SessionParams {
    /// The session parameters of a configuration.
    pub fn of(config: &Config) -> (r: SessionParams)
        ensures
            r@ == (ParamsView {
                acid: config.acid,
                n: config.n,
                conn_type: config.conn_type,
                os: config.os@,
                os_name: config.os_name@,
                double_stack: config.double_stack,
                strict_bind: config.strict_bind,
                retry_count: config.retry_count,
                retry_delay: config.retry_delay,
            }),
    {
        SessionParams {
            acid: config.acid,
            n: config.n,
            conn_type: config.conn_type,
            os: config.os.clone(),
            os_name: config.os_name.clone(),
            double_stack: config.double_stack,
            strict_bind: config.strict_bind,
            retry_count: config.retry_count,
            retry_delay: config.retry_delay,
        }
    }
}

impl SrunClient {
    /// The client of `user` under `config`.
    pub fn new(config: &Config, user: User) -> (r: SrunClient)
        ensures
            r@ == (ClientView {
                params: ParamsView {
                    acid: config.acid,
                    n: config.n,
                    conn_type: config.conn_type,
                    os: config.os@,
                    os_name: config.os_name@,
                    double_stack: config.double_stack,
                    strict_bind: config.strict_bind,
                    retry_count: config.retry_count,
                    retry_delay: config.retry_delay,
                },
                user: user@,
            }),
    {
        SrunClient { params: SessionParams::of(config), user }
    }

    /// Takes the portal's status report, and says whether the user is
    /// online. Where no bind address was known, the report's address
    /// becomes the bind address. Every report is taken: there is no error.
    pub fn check_status(&mut self, report: InfoResponse) -> (r: Result<(bool, InfoResponse), SrunError>)
        ensures
            ({
                let (online, bind_addr) = status_of(
                    old(self).user.bind_addr,
                    report.online_ip@,
                    report.error@,
                );
                &&& r == Ok::<(bool, InfoResponse), SrunError>((online, report))
                &&& final(self)@ == (ClientView {
                    user: UserView { bind_addr, ..old(self).user@ },
                    ..old(self)@
                })
            }),
    {
        let ok = same_text(report.error.as_str(), "ok");
        match self.user.bind_addr {
            Some(ip) => {
                let here = ip.to_text();
                let online = ok && same_text(report.online_ip.as_str(), here.as_str());
                Ok((online, report))
            },
            None => {
                self.user.bind_addr = Ipv4::parse(report.online_ip.as_str());
                Ok((ok, report))
            },
        }
    }

    /// Begins a login: a configuration error without a bind address, else
    /// the login and its first action.
    pub fn login(&self, now: Now) -> (r: Result<(Login, Action), SrunError>)
        ensures
            match self.user.bind_addr {
                None => r == Err::<(Login, Action), SrunError>(
                    SrunError::Config("No IP address configured"),
                ),
                Some(ip) => r is Ok && (r->Ok_0.0@, r->Ok_0.1@) == started(
                    self.params@,
                    self.user.username@,
                    self.user.password@,
                    ip.text(),
                    now,
                ),
            },
    {
        match self.user.bind_addr {
            None => Err(SrunError::Config("No IP address configured")),
            Some(ip) => Ok(
                Login::start(
                    self.params.duplicate(),
                    self.user.username.clone(),
                    self.user.password.clone(),
                    ip.to_text(),
                    now,
                ),
            ),
        }
    }

    /// Builds the logout submission: a configuration error without a bind
    /// address.
    pub fn begin_logout(&self, now: Now) -> (r: Result<Request, SrunError>)
        ensures
            match self.user.bind_addr {
                None => r == Err::<Request, SrunError>(SrunError::Config("No IP address configured")),
                Some(ip) => r is Ok && r->Ok_0@ == logout_request_of(
                    self.params.acid,
                    self.user.username@,
                    ip.text(),
                    now,
                ),
            },
    {
        match self.user.bind_addr {
            None => Err(SrunError::Config("No IP address configured")),
            Some(ip) => Ok(
                logout_request(self.params.acid, self.user.username.as_str(), ip.to_text().as_str(), now),
            ),
        }
    }

    /// Takes the portal's answer to the logout submission, or `None` where
    /// the exchange failed, and says how the logout ended.
    pub fn logout(&self, answer: Option<PortalResponse>) -> (r: Result<(), SrunError>)
        ensures
            r == logout_outcome(
                self.user.bind_addr,
                match answer {
                    Some(a) => Some((a.res@, a.error@)),
                    None => None,
                },
            ),
    {
        if self.user.bind_addr.is_none() {
            return Err(SrunError::Config("No IP address configured"));
        }
        match answer {
            None => Err(SrunError::Network("Failed to communicate with server")),
            Some(a) => {
                if a.is_accepted() {
                    Ok(())
                } else {
                    Err(SrunError::Logout("Server rejected logout request"))
                }
            },
        }
    }
}

/// What a status report says of the user, in three cases: a report that
/// is `ok` for the bind address says online; one that is not `ok` never
/// says online, whatever its address and whether a bind address is known
/// or not; and without a bind address the report's address becomes the
/// bind address.
pub proof fn lemma_status_inference(bind_addr: Option<Ipv4>, online_ip: Seq<char>, error: Seq<char>)
    ensures
        bind_addr is Some && error == "ok"@ && online_ip == bind_addr->Some_0.text() ==> status_of(
            bind_addr,
            online_ip,
            error,
        ) == (true, bind_addr),
        error != "ok"@ ==> !status_of(bind_addr, online_ip, error).0,
        bind_addr is None ==> status_of(bind_addr, online_ip, error).0 == (error == "ok"@),
        forall|ip: Ipv4| (#[trigger] status_of(None, ip.text(), error)).1 == Some(ip),
{
    assert forall|ip: Ipv4| (#[trigger] status_of(None, ip.text(), error)).1 == Some(ip) by {
        crate::ipv4::lemma_parsed_text(ip);
    }
}

/// What a login submission carries is what it signs: the password field
/// is the tagged signature of the password under the challenge, and the
/// checksum is taken over the user name, that signature, the
/// access-control id, the address, the rate class, the connection type and
/// the payload exactly as they stand in the query.
pub proof fn lemma_login_request_signs_its_fields(
    params: ParamsView,
    username: Seq<char>,
    password: Seq<char>,
    ip: Seq<char>,
    challenge: Seq<char>,
    info: Seq<char>,
    now: Now,
)
    ensures
        ({
            let query = login_request_of(params, username, password, ip, challenge, info, now).query;
            let signature = password_signature_of(challenge, password);
            &&& query.len() == 14
            &&& query[2] == ("password"@, "{MD5}"@ + signature)
            &&& query[11] == (
                "chksum"@,
                checksum_of(
                    checksum_input_of(
                        challenge,
                        query[1].1,
                        signature,
                        query[4].1,
                        query[3].1,
                        query[5].1,
                        query[6].1,
                        query[10].1,
                    ),
                ),
            )
        }),
{
}

/// A login submission is a function of what it is made from: the same
/// parameters, credentials, address, challenge, payload and time give the
/// same request, with the same checksum and password field. The payload is the
/// caller's; that it is the same in both is the encoder's matter.
pub proof fn lemma_login_request_determined(
    params: ParamsView,
    username: Seq<char>,
    password: Seq<char>,
    ip: Seq<char>,
    challenge: Seq<char>,
    info: Seq<char>,
    now: Now,
    other_params: ParamsView,
    other_username: Seq<char>,
    other_password: Seq<char>,
    other_ip: Seq<char>,
    other_challenge: Seq<char>,
    other_info: Seq<char>,
    other_now: Now,
)
    requires
        params == other_params,
        username == other_username,
        password == other_password,
        ip == other_ip,
        challenge == other_challenge,
        info == other_info,
        now == other_now,
    ensures
        login_request_of(params, username, password, ip, challenge, info, now) == login_request_of(
            other_params,
            other_username,
            other_password,
            other_ip,
            other_challenge,
            other_info,
            other_now,
        ),
{
}

} // verus!
