//! A login, as a state machine.
//!
//! A login asks for a challenge, has the payload encoded under it, submits,
//! and on a failure pauses and tries again, as often as the retry count
//! allows. Each of these steps is outside work. The machine does none of
//! it: `Login::advance` takes what happened and says what to do next.

use crate::error::SrunError;
use crate::srun::{
    accepted, challenge_request, challenge_request_of, login_request, login_request_of,
    ChallengeResponse, Now, ParamsView, PortalResponse, Request, RequestView, SessionParams,
};
use crate::text::decimal;
use vstd::prelude::*;
use vstd::string::*;

verus! {

/// Where a login stands: what it is waiting for, and in which attempt.
/// Attempts count from 1.
#[derive(Clone, Debug)]
pub enum Phase {
    /// A challenge was asked for.
    ChallengeRequested { attempt: u32 },
    /// The challenge came, and the payload is being encoded under it.
    ChallengeReceived { attempt: u32, challenge: String },
    /// The signed submission went out.
    Submitted { attempt: u32 },
    /// The attempt failed, and the pause before the next is running.
    RetryPending { attempt: u32 },
    /// The portal accepted the login.
    Succeeded,
    /// Every attempt failed.
    Exhausted,
}

/// The mathematical content of a `Phase`.
pub enum PhaseView {
    ChallengeRequested { attempt: u32 },
    ChallengeReceived { attempt: u32, challenge: Seq<char> },
    Submitted { attempt: u32 },
    RetryPending { attempt: u32 },
    Succeeded,
    Exhausted,
}

impl View for Phase {
    type V = PhaseView;

    open spec fn view(&self) -> PhaseView {
        match self {
            Phase::ChallengeRequested { attempt } => PhaseView::ChallengeRequested {
                attempt: *attempt,
            },
            Phase::ChallengeReceived { attempt, challenge } => PhaseView::ChallengeReceived {
                attempt: *attempt,
                challenge: challenge@,
            },
            Phase::Submitted { attempt } => PhaseView::Submitted { attempt: *attempt },
            Phase::RetryPending { attempt } => PhaseView::RetryPending { attempt: *attempt },
            Phase::Succeeded => PhaseView::Succeeded,
            Phase::Exhausted => PhaseView::Exhausted,
        }
    }
}

/// What happened since the last action.
#[derive(Clone, Debug)]
pub enum Event {
    /// The portal answered the request for a challenge.
    Challenge(ChallengeResponse),
    /// The payload was encoded.
    Encoded(String),
    /// The portal answered the submission.
    Portal(PortalResponse),
    /// The exchange failed: in transport, in framing or in decoding.
    Failed,
    /// The pause is over.
    Slept,
}

/// What the protocol reads of an event: of a challenge answer the token,
/// of a portal answer the result code and the error code.
pub enum EventView {
    Challenge(Option<Seq<char>>),
    Encoded(Seq<char>),
    Portal { res: Seq<char>, error: Seq<char> },
    Failed,
    Slept,
}

impl View for Event {
    type V = EventView;

    open spec fn view(&self) -> EventView {
        match self {
            Event::Challenge(answer) => EventView::Challenge(answer.challenge.deep_view()),
            Event::Encoded(info) => EventView::Encoded(info@),
            Event::Portal(answer) => EventView::Portal { res: answer.res@, error: answer.error@ },
            Event::Failed => EventView::Failed,
            Event::Slept => EventView::Slept,
        }
    }
}

/// What the caller is to do next.
#[derive(Debug)]
pub enum Action {
    /// Send this request, and come back with the answer or with `Failed`.
    Send(Request),
    /// Encode the payload of these credentials under the challenge, and
    /// come back with it.
    Encode { username: String, password: String, ip: String, acid: u32, challenge: String },
    /// Pause for so many milliseconds, and come back.
    Sleep(u64),
    /// The login is over.
    Done(Result<(), SrunError>),
}

/// The mathematical content of an `Action`.
pub enum ActionView {
    Send(RequestView),
    Encode {
        username: Seq<char>,
        password: Seq<char>,
        ip: Seq<char>,
        acid: u32,
        challenge: Seq<char>,
    },
    Sleep(u64),
    Done(Result<(), SrunError>),
}

impl View for Action {
    type V = ActionView;

    open spec fn view(&self) -> ActionView {
        match self {
            Action::Send(request) => ActionView::Send(request@),
            Action::Encode { username, password, ip, acid, challenge } => ActionView::Encode {
                username: username@,
                password: password@,
                ip: ip@,
                acid: *acid,
                challenge: challenge@,
            },
            Action::Sleep(millis) => ActionView::Sleep(*millis),
            Action::Done(outcome) => ActionView::Done(*outcome),
        }
    }
}

/// A login in progress.
#[derive(Clone, Debug)]
pub struct Login {
    pub params: SessionParams,
    pub username: String,
    pub password: String,
    /// The address that is logged in.
    pub ip: String,
    pub phase: Phase,
}

/// The mathematical content of a `Login`.
pub struct LoginView {
    pub params: ParamsView,
    pub username: Seq<char>,
    pub password: Seq<char>,
    pub ip: Seq<char>,
    pub phase: PhaseView,
}

impl View for Login {
    type V = LoginView;

    open spec fn view(&self) -> LoginView {
        LoginView {
            params: self.params@,
            username: self.username@,
            password: self.password@,
            ip: self.ip@,
            phase: self.phase@,
        }
    }
}

/// The error of a login that has used up its attempts.
pub open spec fn exhausted() -> (PhaseView, ActionView) {
    (
        PhaseView::Exhausted,
        ActionView::Done(Err(SrunError::Login("Exceeded maximum retry attempts"))),
    )
}

/// A failed attempt: the pause for the retry delay where another attempt is
/// allowed, else the end of the login at once. The delay lies between
/// attempts; none follows the last.
pub open spec fn retried(l: LoginView, attempt: u32) -> (PhaseView, ActionView) {
    if attempt < l.params.retry_count {
        (PhaseView::RetryPending { attempt }, ActionView::Sleep(l.params.retry_delay))
    } else {
        exhausted()
    }
}

/// After attempt number `attempt`: the next attempt begins with a request
/// for a fresh challenge, unless `attempt` was the last one allowed.
pub open spec fn resumed(l: LoginView, attempt: u32, now: Now) -> (PhaseView, ActionView) {
    if attempt < l.params.retry_count {
        (
            PhaseView::ChallengeRequested { attempt: (attempt + 1) as u32 },
            ActionView::Send(challenge_request_of(l.username, l.ip, now)),
        )
    } else {
        exhausted()
    }
}

/// The next phase and the next action of a login, for what happened.
///
/// An attempt asks for a challenge, has the payload encoded under it, and
/// submits. It succeeds when the portal accepts the submission. Whatever
/// else happens in an attempt fails it: no challenge in the answer, a
/// rejection, a failed exchange, or an event that the phase does not
/// expect. A failed attempt is followed by the pause and the pause by the
/// next attempt; the last attempt allowed has no pause behind it, and its
/// failure ends the login. A login that is over stays as it is.
pub open spec fn decided(l: LoginView, event: EventView, now: Now) -> (PhaseView, ActionView) {
    match l.phase {
        PhaseView::ChallengeRequested { attempt } => match event {
            EventView::Challenge(Some(challenge)) => (
                PhaseView::ChallengeReceived { attempt, challenge },
                ActionView::Encode {
                    username: l.username,
                    password: l.password,
                    ip: l.ip,
                    acid: l.params.acid,
                    challenge,
                },
            ),
            _ => retried(l, attempt),
        },
        PhaseView::ChallengeReceived { attempt, challenge } => match event {
            EventView::Encoded(info) => (
                PhaseView::Submitted { attempt },
                ActionView::Send(
                    login_request_of(l.params, l.username, l.password, l.ip, challenge, info, now),
                ),
            ),
            _ => retried(l, attempt),
        },
        PhaseView::Submitted { attempt } => match event {
            EventView::Portal { res, error } => if accepted(res, error) {
                (PhaseView::Succeeded, ActionView::Done(Ok(())))
            } else {
                retried(l, attempt)
            },
            _ => retried(l, attempt),
        },
        PhaseView::RetryPending { attempt } => resumed(l, attempt, now),
        PhaseView::Succeeded => (PhaseView::Succeeded, ActionView::Done(Ok(()))),
        PhaseView::Exhausted => exhausted(),
    }
}

/// The login after an event, and the action to take.
pub open spec fn advanced(l: LoginView, event: EventView, now: Now) -> (LoginView, ActionView) {
    let (phase, action) = decided(l, event, now);
    (LoginView { phase, ..l }, action)
}

/// A login as it begins, and its first action: the first attempt, or the
/// end at once where no attempt is allowed.
pub open spec fn started(
    params: ParamsView,
    username: Seq<char>,
    password: Seq<char>,
    ip: Seq<char>,
    now: Now,
) -> (LoginView, ActionView) {
    let l = LoginView { params, username, password, ip, phase: PhaseView::RetryPending { attempt: 0 } };
    let (phase, action) = resumed(l, 0, now);
    (LoginView { phase, ..l }, action)
}

impl Login {
    /// Ends an attempt in failure.
    fn retry(&self, attempt: u32) -> (r: (Phase, Action))
        ensures
            (r.0@, r.1@) == retried(self@, attempt),
    {
        if attempt < self.params.retry_count {
            (Phase::RetryPending { attempt }, Action::Sleep(self.params.retry_delay))
        } else {
            (Phase::Exhausted, Action::Done(Err(SrunError::Login("Exceeded maximum retry attempts"))))
        }
    }

    /// Goes on after attempt number `attempt`.
    fn resume(&self, attempt: u32, now: Now) -> (r: (Phase, Action))
        ensures
            (r.0@, r.1@) == resumed(self@, attempt, now),
    {
        if attempt < self.params.retry_count {
            (
                Phase::ChallengeRequested { attempt: attempt + 1 },
                Action::Send(challenge_request(self.username.as_str(), self.ip.as_str(), now)),
            )
        } else {
            (Phase::Exhausted, Action::Done(Err(SrunError::Login("Exceeded maximum retry attempts"))))
        }
    }

    /// Decides the next phase and the next action.
    fn decide(&self, event: Event, now: Now) -> (r: (Phase, Action))
        ensures
            (r.0@, r.1@) == decided(self@, event@, now),
    {
        match &self.phase {
            Phase::ChallengeRequested { attempt } => match event {
                Event::Challenge(answer) => match answer.token() {
                    Ok(challenge) => {
                        (
                            Phase::ChallengeReceived {
                                attempt: *attempt,
                                challenge: challenge.clone(),
                            },
                            Action::Encode {
                                username: self.username.clone(),
                                password: self.password.clone(),
                                ip: self.ip.clone(),
                                acid: self.params.acid,
                                challenge,
                            },
                        )
                    },
                    Err(_) => self.retry(*attempt),
                },
                _ => self.retry(*attempt),
            },
            Phase::ChallengeReceived { attempt, challenge } => match event {
                Event::Encoded(info) => (
                    Phase::Submitted { attempt: *attempt },
                    Action::Send(
                        login_request(
                            &self.params,
                            self.username.as_str(),
                            self.password.as_str(),
                            self.ip.as_str(),
                            challenge.as_str(),
                            info.as_str(),
                            now,
                        ),
                    ),
                ),
                _ => self.retry(*attempt),
            },
            Phase::Submitted { attempt } => match event {
                Event::Portal(answer) => {
                    if answer.is_accepted() {
                        (Phase::Succeeded, Action::Done(Ok(())))
                    } else {
                        self.retry(*attempt)
                    }
                },
                _ => self.retry(*attempt),
            },
            Phase::RetryPending { attempt } => self.resume(*attempt, now),
            Phase::Succeeded => (Phase::Succeeded, Action::Done(Ok(()))),
            Phase::Exhausted => (
                Phase::Exhausted,
                Action::Done(Err(SrunError::Login("Exceeded maximum retry attempts"))),
            ),
        }
    }

    /// Begins a login, and says what to do first.
    pub fn start(
        params: SessionParams,
        username: String,
        password: String,
        ip: String,
        now: Now,
    ) -> (r: (Login, Action))
        ensures
            (r.0@, r.1@) == started(params@, username@, password@, ip@, now),
    {
        let mut login = Login { params, username, password, ip, phase: Phase::RetryPending { attempt: 0 } };
        let (phase, action) = login.resume(0, now);
        login.phase = phase;
        (login, action)
    }

    /// Takes what happened since the last action, and says what to do next.
    pub fn advance(&mut self, event: Event, now: Now) -> (action: Action)
        ensures
            (final(self)@, action@) == advanced(old(self)@, event@, now),
    {
        let (phase, action) = self.decide(event, now);
        self.phase = phase;
        action
    }
}

/// The login after a series of events, and the actions it asked for.
pub open spec fn run(l: LoginView, events: Seq<(EventView, Now)>) -> (LoginView, Seq<ActionView>)
    decreases events.len(),
{
    if events.len() == 0 {
        (l, Seq::empty())
    } else {
        let (next, action) = advanced(l, events.first().0, events.first().1);
        let (last, actions) = run(next, events.drop_first());
        (last, seq![action] + actions)
    }
}

/// One attempt that the portal rejects, as the caller lives it: the
/// challenge that came, the payload encoded under it, the portal's verdict,
/// and the times of the events.
pub struct Rejection {
    pub challenge: Seq<char>,
    pub info: Seq<char>,
    pub res: Seq<char>,
    pub error: Seq<char>,
    pub times: (Now, Now, Now, Now),
}

impl Rejection {
    /// Whether the verdict is indeed a rejection.
    pub open spec fn rejects(self) -> bool {
        !accepted(self.res, self.error)
    }

    /// The events of the attempt: the challenge, the payload, the verdict,
    /// and, where the login goes on, the end of the pause.
    pub open spec fn events(self, goes_on: bool) -> Seq<(EventView, Now)> {
        let exchange = seq![
            (EventView::Challenge(Some(self.challenge)), self.times.0),
            (EventView::Encoded(self.info), self.times.1),
            (EventView::Portal { res: self.res, error: self.error }, self.times.2),
        ];
        if goes_on {
            exchange.push((EventView::Slept, self.times.3))
        } else {
            exchange
        }
    }
}

/// The events of a series of rejected attempts, one after the other: a
/// pause lies behind each but the last.
pub open spec fn script(rounds: Seq<Rejection>) -> Seq<(EventView, Now)>
    decreases rounds.len(),
{
    if rounds.len() == 0 {
        Seq::empty()
    } else {
        rounds.first().events(rounds.len() > 1) + script(rounds.drop_first())
    }
}

/// How many of the actions ask the portal for a challenge.
pub open spec fn challenges(actions: Seq<ActionView>) -> nat
    decreases actions.len(),
{
    if actions.len() == 0 {
        0
    } else {
        challenges(actions.drop_last()) + if actions.last() matches ActionView::Send(request)
            && request.path == "/cgi-bin/get_challenge"@ {
            1nat
        } else {
            0nat
        }
    }
}

/// How many of the actions submit a login or a logout to the portal.
pub open spec fn submissions(actions: Seq<ActionView>) -> nat
    decreases actions.len(),
{
    if actions.len() == 0 {
        0
    } else {
        submissions(actions.drop_last()) + if actions.last() matches ActionView::Send(request)
            && request.path == "/cgi-bin/srun_portal"@ {
            1nat
        } else {
            0nat
        }
    }
}

/// How many of the actions are a pause of `delay` milliseconds.
pub open spec fn pauses(actions: Seq<ActionView>, delay: u64) -> nat
    decreases actions.len(),
{
    if actions.len() == 0 {
        0
    } else {
        pauses(actions.drop_last(), delay) + if actions.last() == ActionView::Sleep(delay) {
            1nat
        } else {
            0nat
        }
    }
}

/// How many of the actions end the login.
pub open spec fn endings(actions: Seq<ActionView>) -> nat
    decreases actions.len(),
{
    if actions.len() == 0 {
        0
    } else {
        endings(actions.drop_last()) + if actions.last() is Done {
            1nat
        } else {
            0nat
        }
    }
}

/// The counts of a series of actions are the sums of the counts of its
/// parts.
proof fn lemma_counts_concat(a: Seq<ActionView>, b: Seq<ActionView>, delay: u64)
    ensures
        challenges(a + b) == challenges(a) + challenges(b),
        submissions(a + b) == submissions(a) + submissions(b),
        pauses(a + b, delay) == pauses(a, delay) + pauses(b, delay),
        endings(a + b) == endings(a) + endings(b),
    decreases b.len(),
{
    if b.len() == 0 {
        assert(a + b =~= a);
    } else {
        assert((a + b).drop_last() =~= a + b.drop_last());
        assert((a + b).last() == b.last());
        lemma_counts_concat(a, b.drop_last(), delay);
    }
}

/// Running a series of events is running its first part and then the rest.
proof fn lemma_run_concat(l: LoginView, first: Seq<(EventView, Now)>, then: Seq<(EventView, Now)>)
    ensures
        run(l, first + then) == ({
            let (mid, a) = run(l, first);
            let (last, b) = run(mid, then);
            (last, a + b)
        }),
    decreases first.len(),
{
    if first.len() == 0 {
        assert(first + then =~= then);
        assert(Seq::<ActionView>::empty() + run(l, then).1 =~= run(l, then).1);
    } else {
        let (next, action) = advanced(l, first.first().0, first.first().1);
        assert((first + then).first() == first.first());
        assert((first + then).drop_first() =~= first.drop_first() + then);
        lemma_run_concat(next, first.drop_first(), then);
        let (mid, a) = run(next, first.drop_first());
        let (last, b) = run(mid, then);
        assert(seq![action] + (a + b) =~= (seq![action] + a) + b);
    }
}

/// The two paths of the portal are different texts.
proof fn lemma_paths_differ()
    ensures
        "/cgi-bin/srun_portal"@ != "/cgi-bin/get_challenge"@,
{
    reveal_strlit("/cgi-bin/srun_portal");
    reveal_strlit("/cgi-bin/get_challenge");
    assert("/cgi-bin/srun_portal"@.len() != "/cgi-bin/get_challenge"@.len());
}

/// One rejected attempt that is not the last: a submission and a pause,
/// and then the request for the next challenge.
proof fn lemma_rejected_round(l: LoginView, round: Rejection, attempt: u32)
    requires
        l.phase == (PhaseView::ChallengeRequested { attempt }),
        attempt < l.params.retry_count,
        round.rejects(),
    ensures
        ({
            let (end, actions) = run(l, round.events(true));
            &&& end == (LoginView {
                phase: PhaseView::ChallengeRequested { attempt: (attempt + 1) as u32 },
                ..l
            })
            &&& actions.len() == 4
            &&& challenges(actions) == 1
            &&& submissions(actions) == 1
            &&& pauses(actions, l.params.retry_delay) == 1
            &&& endings(actions) == 0
        }),
{
    reveal_with_fuel(run, 5);
    reveal_with_fuel(challenges, 5);
    reveal_with_fuel(submissions, 5);
    reveal_with_fuel(pauses, 5);
    reveal_with_fuel(endings, 5);
    lemma_paths_differ();
    let e = round.events(true);
    let e1 = e.drop_first();
    let e2 = e1.drop_first();
    let e3 = e2.drop_first();
    assert(e3.drop_first() =~= Seq::<(EventView, Now)>::empty());
    let (l1, a1) = advanced(l, e[0].0, e[0].1);
    let (l2, a2) = advanced(l1, e[1].0, e[1].1);
    let (l3, a3) = advanced(l2, e[2].0, e[2].1);
    let (l4, a4) = advanced(l3, e[3].0, e[3].1);
    assert(e1.first() == e[1] && e2.first() == e[2] && e3.first() == e[3]);
    let actions = run(l, e).1;
    assert(actions =~= seq![a1, a2, a3, a4]);
    assert(run(l, e).0 == l4);
    let s3 = actions.drop_last();
    let s2 = s3.drop_last();
    let s1 = s2.drop_last();
    assert(s3 =~= seq![a1, a2, a3]);
    assert(s2 =~= seq![a1, a2]);
    assert(s1 =~= seq![a1]);
    assert(s1.drop_last() =~= Seq::<ActionView>::empty());
}

/// The rejected attempt that is the last: a submission, and then the end.
proof fn lemma_last_rejected_round(l: LoginView, round: Rejection, attempt: u32)
    requires
        l.phase == (PhaseView::ChallengeRequested { attempt }),
        attempt >= l.params.retry_count,
        round.rejects(),
    ensures
        ({
            let (end, actions) = run(l, round.events(false));
            &&& end == (LoginView { phase: PhaseView::Exhausted, ..l })
            &&& actions.len() == 3
            &&& actions.last() == ActionView::Done(
                Err(SrunError::Login("Exceeded maximum retry attempts")),
            )
            &&& challenges(actions) == 0
            &&& submissions(actions) == 1
            &&& pauses(actions, l.params.retry_delay) == 0
            &&& endings(actions) == 1
        }),
{
    reveal_with_fuel(run, 4);
    reveal_with_fuel(challenges, 4);
    reveal_with_fuel(submissions, 4);
    reveal_with_fuel(pauses, 4);
    reveal_with_fuel(endings, 4);
    lemma_paths_differ();
    let e = round.events(false);
    let e1 = e.drop_first();
    let e2 = e1.drop_first();
    assert(e2.drop_first() =~= Seq::<(EventView, Now)>::empty());
    let (l1, a1) = advanced(l, e[0].0, e[0].1);
    let (l2, a2) = advanced(l1, e[1].0, e[1].1);
    let (l3, a3) = advanced(l2, e[2].0, e[2].1);
    assert(e1.first() == e[1] && e2.first() == e[2]);
    let actions = run(l, e).1;
    assert(actions =~= seq![a1, a2, a3]);
    assert(run(l, e).0 == l3);
    let s2 = actions.drop_last();
    let s1 = s2.drop_last();
    assert(s2 =~= seq![a1, a2]);
    assert(s1 =~= seq![a1]);
    assert(s1.drop_last() =~= Seq::<ActionView>::empty());
}

/// From attempt number `attempt` on, rejections use up the attempts that
/// are left and no more.
proof fn lemma_rejections_from(l: LoginView, rounds: Seq<Rejection>, attempt: u32)
    requires
        l.phase == (PhaseView::ChallengeRequested { attempt }),
        1 <= attempt <= l.params.retry_count,
        rounds.len() == l.params.retry_count - attempt + 1,
        forall|i: int| 0 <= i < rounds.len() ==> (#[trigger] rounds[i]).rejects(),
    ensures
        ({
            let (end, actions) = run(l, script(rounds));
            &&& end == (LoginView { phase: PhaseView::Exhausted, ..l })
            &&& actions.len() >= 1
            &&& actions.last() == ActionView::Done(
                Err(SrunError::Login("Exceeded maximum retry attempts")),
            )
            &&& challenges(actions) == rounds.len() - 1
            &&& submissions(actions) == rounds.len()
            &&& pauses(actions, l.params.retry_delay) == rounds.len() - 1
            &&& endings(actions) == 1
        }),
    decreases rounds.len(),
{
    let round = rounds.first();
    let rest = rounds.drop_first();
    assert(round.rejects());
    let goes_on = rounds.len() > 1;
    lemma_run_concat(l, round.events(goes_on), script(rest));
    let (mid, a) = run(l, round.events(goes_on));
    let (end, b) = run(mid, script(rest));
    lemma_counts_concat(a, b, l.params.retry_delay);
    if goes_on {
        lemma_rejected_round(l, round, attempt);
        assert forall|i: int| 0 <= i < rest.len() implies (#[trigger] rest[i]).rejects() by {
            assert(rest[i] == rounds[i + 1]);
        }
        lemma_rejections_from(mid, rest, (attempt + 1) as u32);
        assert((a + b).last() == b.last());
    } else {
        lemma_last_rejected_round(l, round, attempt);
        assert(script(rest) =~= Seq::<(EventView, Now)>::empty());
        assert(a + b =~= a);
    }
}

/// A login whose every submission the portal rejects makes exactly as many
/// attempts as the retry count allows: from its beginning on it asks for so
/// many challenges and submits so many times, pauses for the retry delay
/// between each two attempts and not after the last, and ends once, at the
/// very end, with the error that the attempts are used up.
pub proof fn lemma_rejected_login_exhausts_retries(
    params: ParamsView,
    username: Seq<char>,
    password: Seq<char>,
    ip: Seq<char>,
    now: Now,
    rounds: Seq<Rejection>,
)
    requires
        rounds.len() == params.retry_count,
        forall|i: int| 0 <= i < rounds.len() ==> (#[trigger] rounds[i]).rejects(),
    ensures
        ({
            let (l, first) = started(params, username, password, ip, now);
            let (end, then) = run(l, script(rounds));
            let actions = seq![first] + then;
            &&& end.phase == PhaseView::Exhausted
            &&& actions.last() == ActionView::Done(
                Err(SrunError::Login("Exceeded maximum retry attempts")),
            )
            &&& challenges(actions) == params.retry_count
            &&& submissions(actions) == params.retry_count
            &&& pauses(actions, params.retry_delay) == if params.retry_count >= 1 {
                params.retry_count - 1
            } else {
                0
            }
            &&& endings(actions) == 1
        }),
{
    reveal_with_fuel(challenges, 2);
    reveal_with_fuel(submissions, 2);
    reveal_with_fuel(pauses, 2);
    reveal_with_fuel(endings, 2);
    lemma_paths_differ();
    let (l, first) = started(params, username, password, ip, now);
    let (end, then) = run(l, script(rounds));
    lemma_counts_concat(seq![first], then, params.retry_delay);
    assert(seq![first].drop_last() =~= Seq::<ActionView>::empty());
    if params.retry_count >= 1 {
        lemma_rejections_from(l, rounds, 1);
        assert((seq![first] + then).last() == then.last());
    } else {
        assert(script(rounds) =~= Seq::<(EventView, Now)>::empty());
        assert(seq![first] + then =~= seq![first]);
    }
}

/// How many submissions a login may still make: one for the attempt that is
/// under way until it is submitted, and one for each attempt that is left.
pub open spec fn submissions_left(l: LoginView) -> int {
    match l.phase {
        PhaseView::ChallengeRequested { attempt } => l.params.retry_count - attempt + 1,
        PhaseView::ChallengeReceived { attempt, challenge } => l.params.retry_count - attempt + 1,
        PhaseView::Submitted { attempt } => l.params.retry_count - attempt,
        PhaseView::RetryPending { attempt } => l.params.retry_count - attempt,
        PhaseView::Succeeded => 0,
        PhaseView::Exhausted => 0,
    }
}

/// Whether the attempt that a login is in is one of those allowed.
pub open spec fn within_attempts(l: LoginView) -> bool {
    match l.phase {
        PhaseView::ChallengeRequested { attempt } => 1 <= attempt <= l.params.retry_count,
        PhaseView::ChallengeReceived { attempt, challenge } => 1 <= attempt <= l.params.retry_count,
        PhaseView::Submitted { attempt } => 1 <= attempt <= l.params.retry_count,
        PhaseView::RetryPending { attempt } => attempt <= l.params.retry_count,
        PhaseView::Succeeded => true,
        PhaseView::Exhausted => true,
    }
}

/// From any state within the attempts allowed, a login submits no more
/// often than it has submissions left.
proof fn lemma_submissions_bounded_from(l: LoginView, events: Seq<(EventView, Now)>)
    requires
        within_attempts(l),
    ensures
        within_attempts(run(l, events).0),
        submissions(run(l, events).1) + submissions_left(run(l, events).0) <= submissions_left(l),
        submissions_left(run(l, events).0) >= 0,
    decreases events.len(),
{
    reveal_with_fuel(submissions, 2);
    lemma_paths_differ();
    if events.len() > 0 {
        let (next, action) = advanced(l, events.first().0, events.first().1);
        let (last, actions) = run(next, events.drop_first());
        lemma_submissions_bounded_from(next, events.drop_first());
        lemma_counts_concat(seq![action], actions, 0);
        assert(seq![action].drop_last() =~= Seq::<ActionView>::empty());
    }
}

/// Whatever happens, a login submits at most as many times as the retry
/// count allows.
pub proof fn lemma_submissions_bounded(
    params: ParamsView,
    username: Seq<char>,
    password: Seq<char>,
    ip: Seq<char>,
    now: Now,
    events: Seq<(EventView, Now)>,
)
    ensures
        ({
            let (l, first) = started(params, username, password, ip, now);
            submissions(seq![first] + run(l, events).1) <= params.retry_count
        }),
{
    reveal_with_fuel(submissions, 2);
    lemma_paths_differ();
    let (l, first) = started(params, username, password, ip, now);
    lemma_submissions_bounded_from(l, events);
    lemma_counts_concat(seq![first], run(l, events).1, 0);
    assert(seq![first].drop_last() =~= Seq::<ActionView>::empty());
}

/// What the encoder is handed is what the submission carries: the user
/// name, the address and the access-control id that go to the encoder
/// with a challenge are those of the request that follows, the id there in
/// decimal; the payload that comes back stands in that request as it came,
/// and the request is signed under the same challenge.
pub proof fn lemma_encoder_gets_what_is_sent(
    l: LoginView,
    attempt: u32,
    challenge: Seq<char>,
    info: Seq<char>,
    then: Now,
    later: Now,
)
    requires
        l.phase == (PhaseView::ChallengeRequested { attempt }),
    ensures
        ({
            let (asked, encode) = advanced(l, EventView::Challenge(Some(challenge)), then);
            let (sent, submit) = advanced(asked, EventView::Encoded(info), later);
            &&& encode == (ActionView::Encode {
                username: l.username,
                password: l.password,
                ip: l.ip,
                acid: l.params.acid,
                challenge,
            })
            &&& submit == ActionView::Send(
                login_request_of(l.params, l.username, l.password, l.ip, challenge, info, later),
            )
            &&& submit->Send_0.query[1] == ("username"@, encode->username)
            &&& submit->Send_0.query[3] == ("ip"@, encode->ip)
            &&& submit->Send_0.query[4] == ("ac_id"@, decimal(encode->acid as nat))
            &&& submit->Send_0.query[10] == ("info"@, info)
        }),
{
}

} // verus!
