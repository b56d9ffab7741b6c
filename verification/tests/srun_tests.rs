use srun_client::config::{Config, User};
use srun_client::error::SrunError;
use srun_client::ipv4::Ipv4;
use srun_client::sign::{checksum, checksum_input, password_signature};
use srun_client::login::{Action, Event, Login, Phase};
use srun_client::srun::{
    challenge_request, login_request, logout_request, status_request, ChallengeResponse, ECode,
    InfoResponse, Now, PortalResponse, Request, SessionParams, SrunClient,
};

const NOW: Now = Now { secs: 1700000000, millis: 1700000000123 };
const LATER: Now = Now { secs: 1700000001, millis: 1700000001456 };

fn pairs(list: &[(&str, &str)]) -> Vec<(String, String)> {
    list.iter().map(|(k, v)| (k.to_string(), v.to_string())).collect()
}

fn user(bind_addr: Option<Ipv4>) -> User {
    User {
        username: "u1".to_string(),
        password: "hunter2".to_string(),
        ip: None,
        iface: None,
        bind_addr,
    }
}

fn client(retry_count: u32, bind_addr: Option<Ipv4>) -> SrunClient {
    let mut config = Config::with_defaults(true);
    config.retry_count = retry_count;
    config.retry_delay = 250;
    SrunClient::new(&config, user(bind_addr))
}

fn home() -> Ipv4 {
    Ipv4 { a: 10, b: 0, c: 0, d: 5 }
}

fn challenge(token: Option<&str>) -> Event {
    let mut answer = ChallengeResponse::default();
    answer.challenge = token.map(|t| t.to_string());
    Event::Challenge(answer)
}

fn portal(res: &str, error: &str) -> PortalResponse {
    let mut answer = PortalResponse::default();
    answer.res = res.to_string();
    answer.error = error.to_string();
    answer
}

fn report(error: &str, online_ip: &str) -> InfoResponse {
    let mut answer = InfoResponse::default();
    answer.error = error.to_string();
    answer.online_ip = online_ip.to_string();
    answer
}

fn sent(action: Action) -> Request {
    match action {
        Action::Send(request) => request,
        other => panic!("not a request: {:?}", other),
    }
}

#[test]
fn status_request_carries_the_callback_alone() {
    let request = status_request(NOW);
    assert_eq!(request.path, "/cgi-bin/rad_user_info");
    assert_eq!(request.query, pairs(&[("callback", "jsonp_1700000000123")]));
    assert_eq!(request.token, "jsonp_1700000000123");
}

#[test]
fn challenge_request_names_the_user_and_the_address() {
    let request = challenge_request("u1", "10.0.0.5", NOW);
    assert_eq!(request.path, "/cgi-bin/get_challenge");
    assert_eq!(
        request.query,
        pairs(&[
            ("username", "u1"),
            ("ip", "10.0.0.5"),
            ("_", "1700000000"),
            ("callback", "jsonp_1700000000123"),
        ])
    );
    assert_eq!(request.token, "jsonp_1700000000123");
}

#[test]
fn login_request_signs_what_it_sends() {
    let mut config = Config::with_defaults(true);
    config.acid = 7;
    config.n = 200;
    config.conn_type = 1;
    config.double_stack = true;
    config.os = "Windows 10".to_string();
    config.os_name = "Windows".to_string();
    let params = SessionParams::of(&config);
    let request = login_request(&params, "u1", "hunter2", "10.0.0.5", "CH", "{SRBX1}XYZ", NOW);
    let signature = password_signature("CH", "hunter2");
    let sum = checksum(&checksum_input(
        "CH", "u1", &signature, "7", "10.0.0.5", "200", "1", "{SRBX1}XYZ",
    ));
    let password = format!("{{MD5}}{}", signature);
    assert_eq!(request.path, "/cgi-bin/srun_portal");
    assert_eq!(
        request.query,
        pairs(&[
            ("action", "login"),
            ("username", "u1"),
            ("password", &password),
            ("ip", "10.0.0.5"),
            ("ac_id", "7"),
            ("n", "200"),
            ("type", "1"),
            ("os", "Windows 10"),
            ("name", "Windows"),
            ("double_stack", "true"),
            ("info", "{SRBX1}XYZ"),
            ("chksum", &sum),
            ("_", "1700000000"),
            ("callback", "jsonp_1700000000123"),
        ])
    );
    assert_eq!(request.token, "jsonp_1700000000123");
    assert!(request.query.iter().all(|(_, value)| value != "hunter2"));
}

#[test]
fn login_request_changes_with_the_challenge() {
    let params = SessionParams::of(&Config::with_defaults(true));
    let one = login_request(&params, "u1", "hunter2", "10.0.0.5", "CH1", "XYZ", NOW);
    let two = login_request(&params, "u1", "hunter2", "10.0.0.5", "CH2", "XYZ", NOW);
    let again = login_request(&params, "u1", "hunter2", "10.0.0.5", "CH1", "XYZ", NOW);
    assert_eq!(one.query, again.query);
    assert_ne!(one.query[2], two.query[2]);
    assert_ne!(one.query[11], two.query[11]);
    assert_eq!(one.query[9], ("double_stack".to_string(), "false".to_string()));
}

#[test]
fn logout_request_names_the_user_the_address_and_the_acid() {
    let request = logout_request(3, "u1", "10.0.0.5", NOW);
    assert_eq!(request.path, "/cgi-bin/srun_portal");
    assert_eq!(
        request.query,
        pairs(&[
            ("action", "logout"),
            ("username", "u1"),
            ("ip", "10.0.0.5"),
            ("ac_id", "3"),
            ("_", "1700000000"),
            ("callback", "jsonp_1700000000123"),
        ])
    );
}

#[test]
fn check_status_with_a_bind_address_compares_the_report_with_it() {
    let mut c = client(3, Some(home()));
    let (online, answer) = c.check_status(report("ok", "10.0.0.5")).unwrap();
    assert!(online);
    assert_eq!(answer.online_ip, "10.0.0.5");
    assert_eq!(c.user.bind_addr, Some(home()));
    let (online, _) = c.check_status(report("ok", "10.0.0.6")).unwrap();
    assert!(!online);
    assert_eq!(c.user.bind_addr, Some(home()));
    let (online, _) = c.check_status(report("not_online_error", "10.0.0.5")).unwrap();
    assert!(!online);
    let (online, _) = c.check_status(report("ok", "not an address")).unwrap();
    assert!(!online);
    let (online, _) = c.check_status(report("OK", "10.0.0.5")).unwrap();
    assert!(!online);
}

#[test]
fn check_status_without_a_bind_address_learns_it_from_the_report() {
    let mut c = client(3, None);
    let (online, _) = c.check_status(report("not_online_error", "10.0.0.9")).unwrap();
    assert!(!online);
    assert_eq!(c.user.bind_addr, Some(Ipv4 { a: 10, b: 0, c: 0, d: 9 }));
    let mut c = client(3, None);
    let (online, _) = c.check_status(report("ok", "192.168.1.12")).unwrap();
    assert!(online);
    assert_eq!(c.user.bind_addr, Some(Ipv4 { a: 192, b: 168, c: 1, d: 12 }));
    let (online, _) = c.check_status(report("ok", "10.0.0.9")).unwrap();
    assert!(!online);
    assert_eq!(c.user.bind_addr, Some(Ipv4 { a: 192, b: 168, c: 1, d: 12 }));
}

#[test]
fn check_status_without_a_bind_address_takes_a_report_without_an_address() {
    for text in ["", "fe80::1", "10.0.0", "010.0.0.1"] {
        let mut c = client(3, None);
        let (online, answer) = c.check_status(report("not_online_error", text)).unwrap();
        assert!(!online);
        assert_eq!(answer.online_ip, text);
        assert_eq!(c.user.bind_addr, None);
        let (online, _) = c.check_status(report("ok", text)).unwrap();
        assert!(online);
        assert_eq!(c.user.bind_addr, None);
        assert_eq!(c.login(NOW).map(|_| ()), Err(SrunError::Config("No IP address configured")));
    }
}

#[test]
fn check_status_never_says_online_for_a_report_that_is_not_ok() {
    for bind in [None, Some(home())] {
        for error in ["", "not_online_error", "OK", "ok ", "error"] {
            for ip in ["10.0.0.5", "10.0.0.6", "", "::1", "nonsense"] {
                let mut c = client(3, bind);
                let (online, _) = c.check_status(report(error, ip)).unwrap();
                assert!(!online, "{:?} {:?} {:?}", bind, error, ip);
            }
        }
    }
}

#[test]
fn login_without_a_bind_address_is_a_configuration_error() {
    let refused = client(3, None).login(NOW).map(|_| ());
    assert_eq!(refused, Err(SrunError::Config("No IP address configured")));
}

#[test]
fn login_without_attempts_is_over_at_once() {
    let (login, action) = client(0, Some(home())).login(NOW).unwrap();
    assert!(matches!(login.phase, Phase::Exhausted));
    assert!(matches!(
        action,
        Action::Done(Err(SrunError::Login("Exceeded maximum retry attempts")))
    ));
}

#[test]
fn login_succeeds_when_the_portal_accepts() {
    let (mut login, action) = client(3, Some(home())).login(NOW).unwrap();
    assert!(matches!(login.phase, Phase::ChallengeRequested { attempt: 1 }));
    let request = sent(action);
    assert_eq!(request.query, challenge_request("u1", "10.0.0.5", NOW).query);

    match login.advance(challenge(Some("CH")), NOW) {
        Action::Encode { username, password, ip, acid, challenge } => {
            assert_eq!(username, "u1");
            assert_eq!(password, "hunter2");
            assert_eq!(ip, "10.0.0.5");
            assert_eq!(acid, 1);
            assert_eq!(challenge, "CH");
        }
        other => panic!("not an encoding: {:?}", other),
    }
    assert!(matches!(&login.phase, Phase::ChallengeReceived { attempt: 1, challenge } if challenge == "CH"));

    let request = sent(login.advance(Event::Encoded("XYZ".to_string()), LATER));
    let expected =
        login_request(&login.params, "u1", "hunter2", "10.0.0.5", "CH", "XYZ", LATER);
    assert_eq!(request.path, "/cgi-bin/srun_portal");
    assert_eq!(request.query, expected.query);
    assert_eq!(request.token, "jsonp_1700000001456");
    assert!(matches!(login.phase, Phase::Submitted { attempt: 1 }));

    let action = login.advance(Event::Portal(portal("ok", "ok")), LATER);
    assert!(matches!(action, Action::Done(Ok(()))));
    assert!(matches!(login.phase, Phase::Succeeded));
    assert!(matches!(login.advance(Event::Slept, LATER), Action::Done(Ok(()))));
    assert!(matches!(login.phase, Phase::Succeeded));
}

fn rejected_round(login: &mut Login, attempt: u32, token: &str) -> Action {
    assert!(matches!(login.phase, Phase::ChallengeRequested { attempt: a } if a == attempt));
    let action = login.advance(challenge(Some(token)), NOW);
    assert!(matches!(&action, Action::Encode { challenge, .. } if challenge == token));
    let request = sent(login.advance(Event::Encoded("XYZ".to_string()), NOW));
    assert_eq!(request.path, "/cgi-bin/srun_portal");
    login.advance(Event::Portal(portal("login_error", "login_error")), NOW)
}

#[test]
fn login_that_is_always_rejected_makes_exactly_retry_count_attempts() {
    for retry_count in 1..=5u32 {
        let (mut login, first) = client(retry_count, Some(home())).login(NOW).unwrap();
        assert_eq!(sent(first).path, "/cgi-bin/get_challenge");
        let mut challenges = 1;
        let mut submissions = 0;
        let mut pauses = 0;
        for attempt in 1..=retry_count {
            let after = rejected_round(&mut login, attempt, &format!("CH{}", attempt));
            submissions += 1;
            if attempt < retry_count {
                assert!(matches!(after, Action::Sleep(250)));
                assert!(matches!(login.phase, Phase::RetryPending { attempt: a } if a == attempt));
                pauses += 1;
                let request = sent(login.advance(Event::Slept, LATER));
                assert_eq!(request.query, challenge_request("u1", "10.0.0.5", LATER).query);
                challenges += 1;
            } else {
                assert!(matches!(
                    after,
                    Action::Done(Err(SrunError::Login("Exceeded maximum retry attempts")))
                ));
            }
        }
        assert_eq!((challenges, submissions, pauses), (retry_count, retry_count, retry_count - 1));
        assert!(matches!(login.phase, Phase::Exhausted));
        assert!(matches!(
            login.advance(Event::Slept, LATER),
            Action::Done(Err(SrunError::Login("Exceeded maximum retry attempts")))
        ));
    }
}

#[test]
fn login_with_one_attempt_never_pauses() {
    let (mut login, _) = client(1, Some(home())).login(NOW).unwrap();
    assert!(matches!(
        login.advance(Event::Failed, NOW),
        Action::Done(Err(SrunError::Login("Exceeded maximum retry attempts")))
    ));
    assert!(matches!(login.phase, Phase::Exhausted));
    let (mut login, _) = client(1, Some(home())).login(NOW).unwrap();
    assert!(matches!(
        login.advance(challenge(None), NOW),
        Action::Done(Err(SrunError::Login("Exceeded maximum retry attempts")))
    ));
}

#[test]
fn login_retries_after_every_kind_of_failure() {
    let (mut login, _) = client(4, Some(home())).login(NOW).unwrap();
    // No challenge in the answer.
    assert!(matches!(login.advance(challenge(None), NOW), Action::Sleep(250)));
    assert!(matches!(login.phase, Phase::RetryPending { attempt: 1 }));
    sent(login.advance(Event::Slept, NOW));
    // The exchange for the challenge fails.
    assert!(matches!(login.advance(Event::Failed, NOW), Action::Sleep(250)));
    assert!(matches!(login.phase, Phase::RetryPending { attempt: 2 }));
    sent(login.advance(Event::Slept, NOW));
    // The submission fails in transport.
    login.advance(challenge(Some("CH3")), NOW);
    sent(login.advance(Event::Encoded("XYZ".to_string()), NOW));
    assert!(matches!(login.advance(Event::Failed, NOW), Action::Sleep(250)));
    assert!(matches!(login.phase, Phase::RetryPending { attempt: 3 }));
    sent(login.advance(Event::Slept, NOW));
    // Half a verdict is a rejection; it is the last attempt, so the login ends.
    login.advance(challenge(Some("CH4")), NOW);
    sent(login.advance(Event::Encoded("XYZ".to_string()), NOW));
    assert!(matches!(
        login.advance(Event::Portal(portal("ok", "fail")), NOW),
        Action::Done(Err(SrunError::Login("Exceeded maximum retry attempts")))
    ));
    assert!(matches!(login.phase, Phase::Exhausted));
}

#[test]
fn login_succeeds_on_a_later_attempt_with_a_fresh_challenge() {
    let (mut login, _) = client(3, Some(home())).login(NOW).unwrap();
    assert!(matches!(rejected_round(&mut login, 1, "CH1"), Action::Sleep(250)));
    sent(login.advance(Event::Slept, LATER));
    login.advance(challenge(Some("CH2")), NOW);
    let request = sent(login.advance(Event::Encoded("XYZ".to_string()), NOW));
    let expected = login_request(&login.params, "u1", "hunter2", "10.0.0.5", "CH2", "XYZ", NOW);
    assert_eq!(request.query, expected.query);
    assert!(matches!(login.advance(Event::Portal(portal("ok", "ok")), NOW), Action::Done(Ok(()))));
}

#[test]
fn login_can_be_started_from_plain_values() {
    let mut config = Config::with_defaults(true);
    config.retry_count = 2;
    let (login, action) = Login::start(
        SessionParams::of(&config),
        "u1".to_string(),
        "pw".to_string(),
        "10.0.0.5".to_string(),
        NOW,
    );
    assert!(matches!(login.phase, Phase::ChallengeRequested { attempt: 1 }));
    assert_eq!((login.username.as_str(), login.password.as_str(), login.ip.as_str()), ("u1", "pw", "10.0.0.5"));
    assert_eq!(sent(action).query, challenge_request("u1", "10.0.0.5", NOW).query);
}

#[test]
fn login_hands_the_encoder_the_acid_that_it_sends() {
    for acid in [0u32, 1, 2147483647, 2147483648, 4294967295] {
        let mut config = Config::with_defaults(true);
        config.acid = acid;
        let (mut login, _) = SrunClient::new(&config, user(Some(home()))).login(NOW).unwrap();
        match login.advance(challenge(Some("CH")), NOW) {
            Action::Encode { acid: handed, .. } => assert_eq!(handed, acid),
            other => panic!("not an encoding: {:?}", other),
        }
        let request = sent(login.advance(Event::Encoded("XYZ".to_string()), NOW));
        assert_eq!(request.query[4], ("ac_id".to_string(), acid.to_string()));
    }
}

#[test]
fn logout_needs_a_bind_address() {
    let c = client(3, None);
    assert_eq!(c.begin_logout(NOW).map(|_| ()), Err(SrunError::Config("No IP address configured")));
    assert_eq!(c.logout(Some(portal("ok", "ok"))), Err(SrunError::Config("No IP address configured")));
    assert_eq!(c.logout(None), Err(SrunError::Config("No IP address configured")));
}

#[test]
fn logout_ends_by_the_portal_s_verdict() {
    let c = client(3, Some(home()));
    let request = c.begin_logout(NOW).unwrap();
    assert_eq!(request.query, logout_request(1, "u1", "10.0.0.5", NOW).query);
    assert_eq!(c.logout(Some(portal("ok", "ok"))), Ok(()));
    let rejected = Err(SrunError::Logout("Server rejected logout request"));
    assert_eq!(c.logout(Some(portal("ok", "error"))), rejected);
    assert_eq!(c.logout(Some(portal("error", "ok"))), rejected);
    assert_eq!(c.logout(Some(portal("", ""))), rejected);
    assert_eq!(c.logout(None), Err(SrunError::Network("Failed to communicate with server")));
}

#[test]
fn answers_say_what_the_protocol_reads_of_them() {
    assert!(portal("ok", "ok").is_accepted());
    assert!(!portal("ok", "").is_accepted());
    assert!(!portal("Ok", "ok").is_accepted());
    let mut answer = ChallengeResponse::default();
    assert_eq!(
        answer.clone().token(),
        Err(SrunError::Challenge("Server returned no challenge token"))
    );
    answer.challenge = Some("abc".to_string());
    assert_eq!(answer.token(), Ok("abc".to_string()));
    assert!(matches!(ECode::default(), ECode::I(0)));
}

#[test]
fn session_params_are_taken_from_the_configuration() {
    let mut config = Config::with_defaults(true);
    config.strict_bind = true;
    config.retry_delay = 9;
    let params = SessionParams::of(&config);
    assert_eq!((params.acid, params.n, params.conn_type), (1, 200, 1));
    assert_eq!((params.os.as_str(), params.os_name.as_str()), ("Linux", "Linux"));
    assert_eq!((params.double_stack, params.strict_bind), (false, true));
    assert_eq!((params.retry_count, params.retry_delay), (10, 9));
    let copy = params.duplicate();
    assert_eq!((copy.acid, copy.os.as_str(), copy.retry_delay), (1, "Linux", 9));
}
