//! The authenticated executor: one attempt, at most one refresh, at most
//! one replay.

use crate::interfaces::{credentials_view, ApiTokens, LoginDto, LoginView, TokensView};
use crate::outcome::{outcome_of, Attempt, Failure, Outcome, UNAUTHORIZED};
use crate::retry::RetryOutcome;
use vstd::prelude::*;

verus! {

/// Where the executor stands with one request.
#[derive(Clone, Copy, Debug, PartialEq, Eq, Structural)]
pub enum AuthPhase {
    /// The login with the request's own credentials is under way.
    AwaitingLogin,
    /// The shared pair is being read.
    AwaitingTokens,
    /// The first attempt is under way, with the request's own pair.
    FirstAttemptInline,
    /// The first attempt is under way, with the shared pair.
    FirstAttemptShared,
    /// The refresh is under way.
    AwaitingRefresh,
    /// The attempt after the refresh is under way.
    RetriedAttempt,
    /// The outcome has been given.
    Done,
}

/// What happened since the last action.
#[derive(Debug)]
pub enum AuthEvent {
    LoggedIn(ApiTokens),
    LoginFailed,
    SharedTokens(ApiTokens),
    Executed(RetryOutcome),
    Refreshed(ApiTokens),
    RefreshFailed,
}

/// Mathematical content of an event.
pub enum AuthEventView {
    LoggedIn(TokensView),
    LoginFailed,
    SharedTokens(TokensView),
    Executed(RetryOutcome),
    Refreshed(TokensView),
    RefreshFailed,
}

impl View for AuthEvent {
    type V = AuthEventView;

    open spec fn view(&self) -> AuthEventView {
        match self {
            AuthEvent::LoggedIn(tokens) => AuthEventView::LoggedIn(tokens@),
            AuthEvent::LoginFailed => AuthEventView::LoginFailed,
            AuthEvent::SharedTokens(tokens) => AuthEventView::SharedTokens(tokens@),
            AuthEvent::Executed(outcome) => AuthEventView::Executed(*outcome),
            AuthEvent::Refreshed(tokens) => AuthEventView::Refreshed(tokens@),
            AuthEvent::RefreshFailed => AuthEventView::RefreshFailed,
        }
    }
}

/// What the driver of a request does next.
#[derive(Debug)]
pub enum AuthAction {
    /// Log in with these credentials; the pair is for this request alone.
    Login(LoginDto),
    /// Read the current pair of the shared store.
    ReadTokens,
    /// Run the retrying executor with this bearer token.
    Execute { bearer: String },
    /// Refresh with the refresh token of `observed`, and offer the fresh
    /// pair to the shared store for `observed`.
    Refresh { observed: ApiTokens },
    /// The request is over.
    Finish(Outcome),
}

/// Mathematical content of an action.
pub enum AuthActionView {
    Login(LoginView),
    ReadTokens,
    Execute { bearer: Seq<char> },
    Refresh { observed: TokensView },
    Finish(Outcome),
}

impl View for AuthAction {
    type V = AuthActionView;

    open spec fn view(&self) -> AuthActionView {
        match self {
            AuthAction::Login(login) => AuthActionView::Login(login@),
            AuthAction::ReadTokens => AuthActionView::ReadTokens,
            AuthAction::Execute { bearer } => AuthActionView::Execute { bearer: bearer@ },
            AuthAction::Refresh { observed } => AuthActionView::Refresh { observed: observed@ },
            AuthAction::Finish(outcome) => AuthActionView::Finish(*outcome),
        }
    }
}

/// Mathematical state of the executor: the phase, and the pair in use while
/// an attempt or a refresh is under way.
pub struct AuthView {
    pub phase: AuthPhase,
    pub used: Option<TokensView>,
}

/// A state together with the action that led to it.
pub struct AuthStep {
    pub state: AuthView,
    pub action: AuthActionView,
}

/// The phases in which a pair is in use.
pub open spec fn phase_holds_tokens(phase: AuthPhase) -> bool {
    phase is FirstAttemptInline || phase is FirstAttemptShared || phase is AwaitingRefresh
        || phase is RetriedAttempt
}

/// The last step of a request: this outcome, and nothing more to do.
pub open spec fn finished_with(outcome: Outcome) -> AuthStep {
    AuthStep {
        state: AuthView { phase: AuthPhase::Done, used: None },
        action: AuthActionView::Finish(outcome),
    }
}

/// A step into `phase`: a run of the retrying executor with the access
/// token of `tokens`.
pub open spec fn executing(phase: AuthPhase, tokens: TokensView) -> AuthStep {
    AuthStep {
        state: AuthView { phase, used: Some(tokens) },
        action: AuthActionView::Execute { bearer: tokens.token },
    }
}

impl AuthView {
    /// A pair is held exactly in the phases that use one.
    pub open spec fn wf(self) -> bool {
        phase_holds_tokens(self.phase) <==> self.used is Some
    }

    /// The first step for a request: a login of its own if it carries
    /// credentials, else a read of the shared pair.
    pub open spec fn begin(auth: Option<LoginView>) -> AuthStep {
        match auth {
            Some(login) => AuthStep {
                state: AuthView { phase: AuthPhase::AwaitingLogin, used: None },
                action: AuthActionView::Login(login),
            },
            None => AuthStep {
                state: AuthView { phase: AuthPhase::AwaitingTokens, used: None },
                action: AuthActionView::ReadTokens,
            },
        }
    }

    /// The step that an event leads to; `None` for an event that the phase
    /// does not wait for.
    pub open spec fn step(self, event: AuthEventView) -> Option<AuthStep> {
        match (self.phase, event) {
            (AuthPhase::AwaitingLogin, AuthEventView::LoggedIn(tokens)) => Some(
                executing(AuthPhase::FirstAttemptInline, tokens),
            ),
            (AuthPhase::AwaitingLogin, AuthEventView::LoginFailed) => Some(
                finished_with(Outcome::Failure(Failure::RefreshFailed)),
            ),
            (AuthPhase::AwaitingTokens, AuthEventView::SharedTokens(tokens)) => Some(
                executing(AuthPhase::FirstAttemptShared, tokens),
            ),
            (AuthPhase::FirstAttemptInline, AuthEventView::Executed(outcome)) => Some(
                finished_with(outcome_of(outcome.last())),
            ),
            (AuthPhase::FirstAttemptShared, AuthEventView::Executed(outcome)) => {
                if outcome.last() == Attempt::Response(UNAUTHORIZED) && self.used is Some {
                    Some(
                        AuthStep {
                            state: AuthView { phase: AuthPhase::AwaitingRefresh, used: self.used },
                            action: AuthActionView::Refresh { observed: self.used->0 },
                        },
                    )
                } else {
                    Some(finished_with(outcome_of(outcome.last())))
                }
            },
            (AuthPhase::AwaitingRefresh, AuthEventView::Refreshed(tokens)) => Some(
                executing(AuthPhase::RetriedAttempt, tokens),
            ),
            (AuthPhase::AwaitingRefresh, AuthEventView::RefreshFailed) => Some(
                finished_with(Outcome::Failure(Failure::RefreshFailed)),
            ),
            (AuthPhase::RetriedAttempt, AuthEventView::Executed(outcome)) => Some(
                finished_with(outcome_of(outcome.last())),
            ),
            _ => None,
        }
    }

    /// The state after a sequence of events; an event that the phase does
    /// not wait for changes nothing.
    pub open spec fn after(self, events: Seq<AuthEventView>) -> AuthView
        decreases events.len(),
    {
        if events.len() == 0 {
            self
        } else {
            match self.step(events.first()) {
                Some(step) => step.state.after(events.drop_first()),
                None => self.after(events.drop_first()),
            }
        }
    }

    /// The actions that a sequence of events leads to, in order.
    pub open spec fn actions(self, events: Seq<AuthEventView>) -> Seq<AuthActionView>
        decreases events.len(),
    {
        if events.len() == 0 {
            Seq::empty()
        } else {
            match self.step(events.first()) {
                Some(step) => seq![step.action] + step.state.actions(events.drop_first()),
                None => self.actions(events.drop_first()),
            }
        }
    }
}

/// Number of refreshes among some actions.
pub open spec fn refresh_count(actions: Seq<AuthActionView>) -> nat
    decreases actions.len(),
{
    if actions.len() == 0 {
        0
    } else {
        refresh_count(actions.drop_first()) + if actions.first() is Refresh {
            1nat
        } else {
            0nat
        }
    }
}

/// Number of runs of the retrying executor among some actions.
pub open spec fn execute_count(actions: Seq<AuthActionView>) -> nat
    decreases actions.len(),
{
    if actions.len() == 0 {
        0
    } else {
        execute_count(actions.drop_first()) + if actions.first() is Execute {
            1nat
        } else {
            0nat
        }
    }
}

/// Refreshes that a phase can still lead to.
pub open spec fn refreshes_left(phase: AuthPhase) -> nat {
    match phase {
        AuthPhase::AwaitingTokens => 1,
        AuthPhase::FirstAttemptShared => 1,
        _ => 0,
    }
}

/// Runs of the retrying executor that a phase can still lead to.
pub open spec fn executions_left(phase: AuthPhase) -> nat {
    match phase {
        AuthPhase::AwaitingLogin => 1,
        AuthPhase::AwaitingTokens => 2,
        AuthPhase::FirstAttemptInline => 0,
        AuthPhase::FirstAttemptShared => 1,
        AuthPhase::AwaitingRefresh => 1,
        AuthPhase::RetriedAttempt => 0,
        AuthPhase::Done => 0,
    }
}

proof fn lemma_counts_of_cons(first: AuthActionView, rest: Seq<AuthActionView>)
    ensures
        refresh_count(seq![first] + rest) == refresh_count(rest) + if first is Refresh {
            1nat
        } else {
            0nat
        },
        execute_count(seq![first] + rest) == execute_count(rest) + if first is Execute {
            1nat
        } else {
            0nat
        },
{
    assert((seq![first] + rest).drop_first() =~= rest);
}

/// Whatever events arrive, a request leads to no more refreshes and no more
/// runs of the retrying executor than its phase has left: from the start,
/// at most one refresh and at most two runs, and none of either for a
/// request with credentials of its own beyond its single run.
pub proof fn lemma_actions_bounded(state: AuthView, events: Seq<AuthEventView>)
    ensures
        refresh_count(state.actions(events)) <= refreshes_left(state.phase),
        execute_count(state.actions(events)) <= executions_left(state.phase),
    decreases events.len(),
{
    if events.len() > 0 {
        match state.step(events.first()) {
            Some(step) => {
                lemma_actions_bounded(step.state, events.drop_first());
                lemma_counts_of_cons(step.action, step.state.actions(events.drop_first()));
            },
            None => {
                lemma_actions_bounded(state, events.drop_first());
            },
        }
    }
}

/// A 401 on the first attempt with the shared pair leads to exactly one
/// refresh, for the pair that was used, and to exactly one more attempt,
/// with the fresh token; whatever that attempt returns, a 401 too, is the
/// outcome.
pub proof fn lemma_unauthorized_refreshes_once(
    shared: TokensView,
    first: RetryOutcome,
    fresh: TokensView,
    second: RetryOutcome,
)
    requires
        first.last() == Attempt::Response(UNAUTHORIZED),
    ensures
        ({
            let begun = AuthView::begin(None);
            let events = seq![
                AuthEventView::SharedTokens(shared),
                AuthEventView::Executed(first),
                AuthEventView::Refreshed(fresh),
                AuthEventView::Executed(second),
            ];
            &&& begun.action == AuthActionView::ReadTokens
            &&& begun.state.actions(events) == seq![
                AuthActionView::Execute { bearer: shared.token },
                AuthActionView::Refresh { observed: shared },
                AuthActionView::Execute { bearer: fresh.token },
                AuthActionView::Finish(outcome_of(second.last())),
            ]
            &&& begun.state.after(events).phase == AuthPhase::Done
        }),
{
    let begun = AuthView::begin(None);
    let e0 = AuthEventView::SharedTokens(shared);
    let e1 = AuthEventView::Executed(first);
    let e2 = AuthEventView::Refreshed(fresh);
    let e3 = AuthEventView::Executed(second);
    let events = seq![e0, e1, e2, e3];
    let s1 = begun.state.step(e0)->0.state;
    let s2 = s1.step(e1)->0.state;
    let s3 = s2.step(e2)->0.state;
    let s4 = s3.step(e3)->0.state;
    let t1 = events.drop_first();
    let t2 = t1.drop_first();
    let t3 = t2.drop_first();
    let t4 = t3.drop_first();
    assert(t1 =~= seq![e1, e2, e3]);
    assert(t2 =~= seq![e2, e3]);
    assert(t3 =~= seq![e3]);
    assert(t4 =~= Seq::<AuthEventView>::empty());
    assert(s4.actions(t4) =~= Seq::<AuthActionView>::empty());
    assert(s3.actions(t3) =~= seq![AuthActionView::Finish(outcome_of(second.last()))]);
    assert(s2.actions(t2) =~= seq![
        AuthActionView::Execute { bearer: fresh.token },
        AuthActionView::Finish(outcome_of(second.last())),
    ]);
    assert(s1.actions(t1) =~= seq![
        AuthActionView::Refresh { observed: shared },
        AuthActionView::Execute { bearer: fresh.token },
        AuthActionView::Finish(outcome_of(second.last())),
    ]);
    assert(begun.state.actions(events) =~= seq![
        AuthActionView::Execute { bearer: shared.token },
        AuthActionView::Refresh { observed: shared },
        AuthActionView::Execute { bearer: fresh.token },
        AuthActionView::Finish(outcome_of(second.last())),
    ]);
    assert(s4.after(t4) == s4);
    assert(s3.after(t3) == s4);
    assert(s2.after(t2) == s4);
    assert(s1.after(t1) == s4);
}

/// Drives one request through login or token read, the first attempt, and
/// at most one refresh and replay.
#[derive(Debug)]
pub struct AuthExecutor {
    phase: AuthPhase,
    used: Option<ApiTokens>,
}

impl View for AuthExecutor {
    type V = AuthView;

    closed spec fn view(&self) -> AuthView {
        AuthView {
            phase: self.phase,
            used: match self.used {
                Some(tokens) => Some(tokens@),
                None => None,
            },
        }
    }
}

impl AuthExecutor {
    /// Starts the executor for a request with these inline credentials, if
    /// any, and says what to do first.
    pub fn begin(auth: &Option<LoginDto>) -> (start: (AuthExecutor, AuthAction))
        ensures
            start.0@.wf(),
            start.0@ == AuthView::begin(credentials_view(*auth)).state,
            start.1@ == AuthView::begin(credentials_view(*auth)).action,
    {
        match auth {
            Some(login) => (
                AuthExecutor { phase: AuthPhase::AwaitingLogin, used: None },
                AuthAction::Login(login.clone()),
            ),
            None => (
                AuthExecutor { phase: AuthPhase::AwaitingTokens, used: None },
                AuthAction::ReadTokens,
            ),
        }
    }

    /// The phase the executor is in.
    pub fn phase(&self) -> (phase: AuthPhase)
        ensures
            phase == self@.phase,
    {
        self.phase
    }

    fn finish(&mut self, outcome: Outcome) -> (action: AuthAction)
        ensures
            final(self)@ == finished_with(outcome).state,
            action@ == finished_with(outcome).action,
    {
        self.phase = AuthPhase::Done;
        self.used = None;
        AuthAction::Finish(outcome)
    }

    fn execute(&mut self, phase: AuthPhase, tokens: ApiTokens) -> (action: AuthAction)
        ensures
            final(self)@ == executing(phase, tokens@).state,
            action@ == executing(phase, tokens@).action,
    {
        let bearer = tokens.token.clone();
        self.phase = phase;
        self.used = Some(tokens);
        AuthAction::Execute { bearer }
    }

    /// Takes an event and says what to do next. An event that the phase
    /// does not wait for is refused: `None`, and nothing changes.
    pub fn step(&mut self, event: AuthEvent) -> (action: Option<AuthAction>)
        requires
            old(self)@.wf(),
        ensures
            final(self)@.wf(),
            match old(self)@.step(event@) {
                Some(step) => action matches Some(a) && a@ == step.action && final(self)@
                    == step.state,
                None => action is None && final(self)@ == old(self)@,
            },
    {
        match (self.phase, event) {
            (AuthPhase::AwaitingLogin, AuthEvent::LoggedIn(tokens)) => Some(
                self.execute(AuthPhase::FirstAttemptInline, tokens),
            ),
            (AuthPhase::AwaitingLogin, AuthEvent::LoginFailed) => Some(
                self.finish(Outcome::Failure(Failure::RefreshFailed)),
            ),
            (AuthPhase::AwaitingTokens, AuthEvent::SharedTokens(tokens)) => Some(
                self.execute(AuthPhase::FirstAttemptShared, tokens),
            ),
            (AuthPhase::FirstAttemptInline, AuthEvent::Executed(outcome)) => Some(
                self.finish(Outcome::from_attempt(outcome.last_attempt())),
            ),
            (AuthPhase::FirstAttemptShared, AuthEvent::Executed(outcome)) => {
                let last = outcome.last_attempt();
                let unauthorized = match last {
                    Attempt::Response(status) => status == UNAUTHORIZED,
                    _ => false,
                };
                if unauthorized {
                    match &self.used {
                        Some(tokens) => {
                            let observed = tokens.clone();
                            self.phase = AuthPhase::AwaitingRefresh;
                            Some(AuthAction::Refresh { observed })
                        },
                        None => Some(self.finish(Outcome::from_attempt(last))),
                    }
                } else {
                    Some(self.finish(Outcome::from_attempt(last)))
                }
            },
            (AuthPhase::AwaitingRefresh, AuthEvent::Refreshed(tokens)) => Some(
                self.execute(AuthPhase::RetriedAttempt, tokens),
            ),
            (AuthPhase::AwaitingRefresh, AuthEvent::RefreshFailed) => Some(
                self.finish(Outcome::Failure(Failure::RefreshFailed)),
            ),
            (AuthPhase::RetriedAttempt, AuthEvent::Executed(outcome)) => Some(
                self.finish(Outcome::from_attempt(outcome.last_attempt())),
            ),
            _ => None,
        }
    }
}

} // verus!
