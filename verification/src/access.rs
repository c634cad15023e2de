//! The decisions of login and registration, as state machines: the handler
//! performs each action and hands back what came of it.

use vstd::prelude::*;
use crate::model::{User, UserID};
use crate::errors::{
    AuthError, UserError, LoginError, RegistrationError, auth_error_message, auth_error_chain,
    user_error_message,
};
use crate::text::{error_chain_fmt, error_chain_text};

verus! {

/// Where a login stands.
pub enum LoginState {
    AwaitingName,
    AwaitingPassword,
    AwaitingCredentials,
    AwaitingSession,
    /// The typed name is being kept for the login form; `error` is what went
    /// wrong.
    AwaitingCache { error: LoginError },
    Finished,
}

/// What came of the last action of a login.
pub enum LoginEvent {
    NameParsed(Result<(), String>),
    PasswordParsed(Result<(), String>),
    CredentialsChecked(Result<UserID, AuthError>),
    SessionStarted(Result<(), String>),
    /// The typed name was kept, or could not be (with the failure's
    /// description).
    FormCached(Result<(), String>),
}

/// What a login handler is to do next.
pub enum LoginAction {
    ParseName,
    ParsePassword,
    CheckCredentials,
    /// Renew the session and record `user_id` in it.
    StartSession { user_id: UserID },
    /// Keep the typed name for the login form.
    CacheForm,
    /// Stop: flash the error and send the browser back to `/login`.
    Fail(LoginError),
    /// Stop: send the browser to `/blog_posts/all`.
    Succeed,
}

/// The descriptions of the causes of a login error, outermost first.
pub open spec fn login_error_causes(e: LoginError) -> Seq<Seq<char>> {
    match e {
        LoginError::InvalidName(m) => seq![m@],
        LoginError::InvalidPassword(m) => seq![m@],
        LoginError::AuthError(a) => auth_error_chain(a),
        LoginError::UnexpectedError(m) => seq![m@],
    }
}

/// The description of a login error with its causes, as its debug form
/// writes it.
pub open spec fn login_error_debug(e: LoginError) -> Seq<char> {
    match e {
        LoginError::InvalidName(m) => error_chain_text("Invalid name"@, seq![m@]),
        LoginError::InvalidPassword(m) => error_chain_text("Invalid password"@, seq![m@]),
        LoginError::AuthError(a) => error_chain_text("Authentication failed"@, auth_error_chain(a)),
        LoginError::UnexpectedError(m) => error_chain_text("Something went wrong"@, seq![m@]),
    }
}

/// The description of a login error with its causes, as its debug form
/// writes it.
pub fn login_error_debug_text(e: &LoginError) -> (r: String)
    ensures
        r@ == login_error_debug(*e),
{
    let mut causes: Vec<String> = Vec::new();
    let message = e.message();
    match e {
        LoginError::InvalidName(m) => causes.push(m.clone()),
        LoginError::InvalidPassword(m) => causes.push(m.clone()),
        LoginError::AuthError(a) => match a {
            AuthError::InvalidCredentials(m) => {
                causes.push(String::from_str("Invalid credentials"));
                causes.push(m.clone());
            },
            AuthError::UnexpectedError(m) => causes.push(m.clone()),
        },
        LoginError::UnexpectedError(m) => causes.push(m.clone()),
    }
    proof {
        reveal_strlit("Invalid credentials");
        let chain = login_error_causes(*e);
        assert(causes@.map_values(|c: String| c@) =~= chain);
    }
    error_chain_fmt(message, &causes)
}

/// The login stops with `error`, once the typed name is kept for the form.
pub open spec fn login_fails_with(next: LoginState, action: LoginAction, error: LoginError) -> bool {
    next == LoginState::AwaitingCache { error } && action is CacheForm
}

/// The event answers the action that led to the state.
pub open spec fn login_expects(state: LoginState, event: LoginEvent) -> bool {
    match state {
        LoginState::AwaitingName => event is NameParsed,
        LoginState::AwaitingPassword => event is PasswordParsed,
        LoginState::AwaitingCredentials => event is CredentialsChecked,
        LoginState::AwaitingSession => event is SessionStarted,
        LoginState::AwaitingCache { .. } => event is FormCached,
        LoginState::Finished => false,
    }
}

/// The next state and action of a login. Every failure first keeps the typed
/// name for the form; if that fails too, the error becomes an unexpected one
/// that describes both failures.
pub open spec fn login_next_is(
    state: LoginState,
    event: LoginEvent,
    next: LoginState,
    action: LoginAction,
) -> bool {
    match (state, event) {
        (LoginState::AwaitingName, LoginEvent::NameParsed(res)) => match res {
            Err(m) => login_fails_with(next, action, LoginError::InvalidName(m)),
            Ok(_) => next is AwaitingPassword && action is ParsePassword,
        },
        (LoginState::AwaitingPassword, LoginEvent::PasswordParsed(res)) => match res {
            Err(m) => login_fails_with(next, action, LoginError::InvalidPassword(m)),
            Ok(_) => next is AwaitingCredentials && action is CheckCredentials,
        },
        (LoginState::AwaitingCredentials, LoginEvent::CredentialsChecked(res)) => match res {
            Ok(id) => next is AwaitingSession && action == LoginAction::StartSession { user_id: id },
            Err(e) => match e {
                AuthError::InvalidCredentials(_) => login_fails_with(
                    next,
                    action,
                    LoginError::AuthError(e),
                ),
                AuthError::UnexpectedError(_) => {
                    &&& next matches LoginState::AwaitingCache {
                        error: LoginError::UnexpectedError(m),
                    }
                    &&& m@ == auth_error_message(e)
                    &&& action is CacheForm
                },
            },
        },
        (LoginState::AwaitingSession, LoginEvent::SessionStarted(res)) => match res {
            Err(m) => login_fails_with(next, action, LoginError::UnexpectedError(m)),
            Ok(_) => next is Finished && action is Succeed,
        },
        (LoginState::AwaitingCache { error }, LoginEvent::FormCached(res)) => match res {
            Ok(_) => next is Finished && action == LoginAction::Fail(error),
            Err(cache_failure) => {
                &&& next is Finished
                &&& action matches LoginAction::Fail(LoginError::UnexpectedError(m))
                &&& m@ == "Failed to execute request: "@ + login_error_debug(error)
                    + " & failed to cache data: "@ + cache_failure@
            },
        },
        _ => false,
    }
}

/// Starts a login.
pub fn start_login() -> (r: (LoginState, LoginAction))
    ensures
        r.0 is AwaitingName,
        r.1 is ParseName,
{
    (LoginState::AwaitingName, LoginAction::ParseName)
}

/// Takes what came of the last action of a login and decides the next one.
pub fn login_step(state: LoginState, event: LoginEvent) -> (r: (LoginState, LoginAction))
    requires
        login_expects(state, event),
    ensures
        login_next_is(state, event, r.0, r.1),
{
    match state {
        LoginState::AwaitingName => match event {
            LoginEvent::NameParsed(Err(m)) => (
                LoginState::AwaitingCache { error: LoginError::InvalidName(m) },
                LoginAction::CacheForm,
            ),
            _ => (LoginState::AwaitingPassword, LoginAction::ParsePassword),
        },
        LoginState::AwaitingPassword => match event {
            LoginEvent::PasswordParsed(Err(m)) => (
                LoginState::AwaitingCache { error: LoginError::InvalidPassword(m) },
                LoginAction::CacheForm,
            ),
            _ => (LoginState::AwaitingCredentials, LoginAction::CheckCredentials),
        },
        LoginState::AwaitingCredentials => match event {
            LoginEvent::CredentialsChecked(Ok(id)) => (
                LoginState::AwaitingSession,
                LoginAction::StartSession { user_id: id },
            ),
            LoginEvent::CredentialsChecked(Err(e)) => {
                match e {
                    AuthError::InvalidCredentials(_) => (
                        LoginState::AwaitingCache { error: LoginError::AuthError(e) },
                        LoginAction::CacheForm,
                    ),
                    AuthError::UnexpectedError(m) => (
                        LoginState::AwaitingCache { error: LoginError::UnexpectedError(m) },
                        LoginAction::CacheForm,
                    ),
                }
            },
            _ => (LoginState::Finished, LoginAction::Succeed),
        },
        LoginState::AwaitingSession => match event {
            LoginEvent::SessionStarted(Err(m)) => (
                LoginState::AwaitingCache { error: LoginError::UnexpectedError(m) },
                LoginAction::CacheForm,
            ),
            _ => (LoginState::Finished, LoginAction::Succeed),
        },
        LoginState::AwaitingCache { error } => match event {
            LoginEvent::FormCached(Err(cache_failure)) => {
                let mut m = String::new();
                m.append("Failed to execute request: ");
                let d = login_error_debug_text(&error);
                m.append(d.as_str());
                m.append(" & failed to cache data: ");
                m.append(cache_failure.as_str());
                (LoginState::Finished, LoginAction::Fail(LoginError::UnexpectedError(m)))
            },
            _ => (LoginState::Finished, LoginAction::Fail(error)),
        },
        LoginState::Finished => (LoginState::Finished, LoginAction::Succeed),
    }
}

/// `states`, `events` and `actions` form a run of a login.
pub open spec fn is_login_run(
    states: Seq<LoginState>,
    events: Seq<LoginEvent>,
    actions: Seq<LoginAction>,
) -> bool {
    &&& states.len() == events.len() + 1
    &&& actions.len() == events.len() + 1
    &&& states[0] is AwaitingName
    &&& actions[0] is ParseName
    &&& forall|i: int|
        0 <= i < events.len() ==> {
            &&& login_expects(states[i], #[trigger] events[i])
            &&& login_next_is(states[i], events[i], states[i + 1], actions[i + 1])
        }
}

/// A session is only ever started for the user whose credentials were just
/// checked, as the fourth action, after the name and the password had the
/// right form; success is only reported as the fifth action, once the
/// session was started.
pub proof fn lemma_session_only_after_credentials(
    states: Seq<LoginState>,
    events: Seq<LoginEvent>,
    actions: Seq<LoginAction>,
    k: int,
)
    requires
        is_login_run(states, events, actions),
        0 <= k < actions.len(),
        actions[k] is StartSession || actions[k] is Succeed,
    ensures
        actions[k] is StartSession ==> k == 3,
        actions[k] is Succeed ==> k == 4 && events[3] matches LoginEvent::SessionStarted(Ok(_)),
        events[0] matches LoginEvent::NameParsed(Ok(_)),
        events[1] matches LoginEvent::PasswordParsed(Ok(_)),
        events[2] matches LoginEvent::CredentialsChecked(Ok(id)) && (actions[3]
            == LoginAction::StartSession { user_id: id }),
{
    let j = if actions[k] is Succeed {
        k - 1
    } else {
        k
    };
    if actions[k] is Succeed {
        assert(k > 0);
        assert(login_expects(states[k - 1], events[k - 1]));
        assert(states[k - 1] is AwaitingSession);
    }
    assert(j > 0);
    assert(login_expects(states[j - 1], events[j - 1]));
    assert(states[j - 1] is AwaitingCredentials);
    assert(j - 1 > 0);
    assert(login_expects(states[j - 2], events[j - 2]));
    assert(states[j - 2] is AwaitingPassword);
    assert(j - 2 > 0);
    assert(login_expects(states[j - 3], events[j - 3]));
    assert(states[j - 3] is AwaitingName);
    if j - 3 > 0 {
        assert(login_expects(states[j - 4], events[j - 4]));
        assert(false);
    }
}

/// Where a registration stands.
pub enum RegistrationState {
    AwaitingName,
    AwaitingPassword,
    AwaitingInsert,
    AwaitingSession,
    Finished,
}

/// What came of the last action of a registration.
pub enum RegistrationEvent {
    NameParsed(Result<(), String>),
    PasswordParsed(Result<(), String>),
    UserInserted(Result<User, UserError>),
    SessionStarted(Result<(), String>),
}

/// What a registration handler is to do next.
pub enum RegistrationAction {
    ParseName,
    ParsePassword,
    /// Store the new user.
    InsertUser,
    /// Renew the session and record `user_id` in it.
    StartSession { user_id: UserID },
    /// Stop: flash the error and send the browser back to the registration
    /// form, filled in with the name tried.
    Fail(RegistrationError),
    /// Stop: send the browser to `/blog_posts/all`.
    Succeed,
}

/// The first step, on the submitted form: the password must be repeated
/// exactly.
pub open spec fn registration_start_is(
    password: Seq<char>,
    repeat_password: Seq<char>,
    state: RegistrationState,
    action: RegistrationAction,
) -> bool {
    if password != repeat_password {
        state is Finished && action matches RegistrationAction::Fail(
            RegistrationError::PasswordsDontMatch,
        )
    } else {
        state is AwaitingName && action is ParseName
    }
}

/// The event answers the action that led to the state.
pub open spec fn registration_expects(state: RegistrationState, event: RegistrationEvent) -> bool {
    match state {
        RegistrationState::AwaitingName => event is NameParsed,
        RegistrationState::AwaitingPassword => event is PasswordParsed,
        RegistrationState::AwaitingInsert => event is UserInserted,
        RegistrationState::AwaitingSession => event is SessionStarted,
        RegistrationState::Finished => false,
    }
}

/// The next state and action of a registration. A taken name is reported as
/// such; any other failure to store the user is unexpected.
pub open spec fn registration_next_is(
    state: RegistrationState,
    event: RegistrationEvent,
    next: RegistrationState,
    action: RegistrationAction,
) -> bool {
    match (state, event) {
        (RegistrationState::AwaitingName, RegistrationEvent::NameParsed(res)) => match res {
            Err(m) => next is Finished && action == RegistrationAction::Fail(
                RegistrationError::InvalidName(m),
            ),
            Ok(_) => next is AwaitingPassword && action is ParsePassword,
        },
        (RegistrationState::AwaitingPassword, RegistrationEvent::PasswordParsed(res)) => match res {
            Err(m) => next is Finished && action == RegistrationAction::Fail(
                RegistrationError::InvalidPassword(m),
            ),
            Ok(_) => next is AwaitingInsert && action is InsertUser,
        },
        (RegistrationState::AwaitingInsert, RegistrationEvent::UserInserted(res)) => match res {
            Ok(u) => next is AwaitingSession && action == RegistrationAction::StartSession {
                user_id: u.id,
            },
            Err(e) => match e {
                UserError::TakenName => next is Finished && action matches RegistrationAction::Fail(
                    RegistrationError::TakenName,
                ),
                _ => {
                    &&& next is Finished
                    &&& action matches RegistrationAction::Fail(
                        RegistrationError::UnexpectedError(m),
                    )
                    &&& m@ == user_error_message(e)
                },
            },
        },
        (RegistrationState::AwaitingSession, RegistrationEvent::SessionStarted(res)) => match res {
            Err(m) => next is Finished && action == RegistrationAction::Fail(
                RegistrationError::UnexpectedError(m),
            ),
            Ok(_) => next is Finished && action is Succeed,
        },
        _ => false,
    }
}

/// Starts a registration on the submitted password and its repetition.
pub fn start_registration(password: &String, repeat_password: &String) -> (r: (
    RegistrationState,
    RegistrationAction,
))
    ensures
        registration_start_is(password@, repeat_password@, r.0, r.1),
{
    if *password != *repeat_password {
        (
            RegistrationState::Finished,
            RegistrationAction::Fail(RegistrationError::PasswordsDontMatch),
        )
    } else {
        (RegistrationState::AwaitingName, RegistrationAction::ParseName)
    }
}

/// Takes what came of the last action of a registration and decides the
/// next one.
pub fn registration_step(state: RegistrationState, event: RegistrationEvent) -> (r: (
    RegistrationState,
    RegistrationAction,
))
    requires
        registration_expects(state, event),
    ensures
        registration_next_is(state, event, r.0, r.1),
{
    match state {
        RegistrationState::AwaitingName => match event {
            RegistrationEvent::NameParsed(Err(m)) => (
                RegistrationState::Finished,
                RegistrationAction::Fail(RegistrationError::InvalidName(m)),
            ),
            _ => (RegistrationState::AwaitingPassword, RegistrationAction::ParsePassword),
        },
        RegistrationState::AwaitingPassword => match event {
            RegistrationEvent::PasswordParsed(Err(m)) => (
                RegistrationState::Finished,
                RegistrationAction::Fail(RegistrationError::InvalidPassword(m)),
            ),
            _ => (RegistrationState::AwaitingInsert, RegistrationAction::InsertUser),
        },
        RegistrationState::AwaitingInsert => match event {
            RegistrationEvent::UserInserted(Ok(u)) => (
                RegistrationState::AwaitingSession,
                RegistrationAction::StartSession { user_id: u.id },
            ),
            RegistrationEvent::UserInserted(Err(e)) => {
                match e {
                    UserError::TakenName => (
                        RegistrationState::Finished,
                        RegistrationAction::Fail(RegistrationError::TakenName),
                    ),
                    _ => {
                        let text = e.message();
                        (
                            RegistrationState::Finished,
                            RegistrationAction::Fail(
                                RegistrationError::UnexpectedError(String::from_str(text)),
                            ),
                        )
                    },
                }
            },
            _ => (RegistrationState::Finished, RegistrationAction::Succeed),
        },
        RegistrationState::AwaitingSession => match event {
            RegistrationEvent::SessionStarted(Err(m)) => (
                RegistrationState::Finished,
                RegistrationAction::Fail(RegistrationError::UnexpectedError(m)),
            ),
            _ => (RegistrationState::Finished, RegistrationAction::Succeed),
        },
        RegistrationState::Finished => (RegistrationState::Finished, RegistrationAction::Succeed),
    }
}

} // verus!

verus! {

/// `states`, `events` and `actions` form a run of a registration from the
/// submitted form.
pub open spec fn is_registration_run(
    password: Seq<char>,
    repeat_password: Seq<char>,
    states: Seq<RegistrationState>,
    events: Seq<RegistrationEvent>,
    actions: Seq<RegistrationAction>,
) -> bool {
    &&& states.len() == events.len() + 1
    &&& actions.len() == events.len() + 1
    &&& registration_start_is(password, repeat_password, states[0], actions[0])
    &&& forall|i: int|
        0 <= i < events.len() ==> {
            &&& registration_expects(states[i], #[trigger] events[i])
            &&& registration_next_is(states[i], events[i], states[i + 1], actions[i + 1])
        }
}

/// A user is only ever stored as the third action, after the password was
/// repeated exactly and the name and password had the right form; a session
/// is only started, as the fourth action, for the user just stored.
pub proof fn lemma_user_stored_only_after_checks(
    password: Seq<char>,
    repeat_password: Seq<char>,
    states: Seq<RegistrationState>,
    events: Seq<RegistrationEvent>,
    actions: Seq<RegistrationAction>,
    k: int,
)
    requires
        is_registration_run(password, repeat_password, states, events, actions),
        0 <= k < actions.len(),
        actions[k] is InsertUser || actions[k] is StartSession,
    ensures
        password == repeat_password,
        actions[k] is InsertUser ==> k == 2,
        actions[k] is StartSession ==> k == 3,
        actions[k] is StartSession ==> (events[2] matches RegistrationEvent::UserInserted(Ok(u))
            && (actions[3] == RegistrationAction::StartSession { user_id: u.id })),
        events[0] matches RegistrationEvent::NameParsed(Ok(_)),
        events[1] matches RegistrationEvent::PasswordParsed(Ok(_)),
{
    let j = if actions[k] is StartSession {
        k - 1
    } else {
        k
    };
    if actions[k] is StartSession {
        assert(k > 0);
        assert(registration_expects(states[k - 1], events[k - 1]));
        assert(states[k - 1] is AwaitingInsert);
    }
    assert(j > 0);
    assert(registration_expects(states[j - 1], events[j - 1]));
    assert(states[j - 1] is AwaitingPassword);
    assert(j - 1 > 0);
    assert(registration_expects(states[j - 2], events[j - 2]));
    assert(states[j - 2] is AwaitingName);
    if j - 2 > 0 {
        assert(registration_expects(states[j - 3], events[j - 3]));
        assert(false);
    }
}

} // verus!
