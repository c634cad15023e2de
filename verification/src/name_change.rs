//! The decisions of the password-checked name change, as a state machine:
//! the handler performs each action and hands back what came of it.

use vstd::prelude::*;
use crate::model::{User, UserID};
use crate::errors::{AuthError, ChangeNameError, auth_error_message};

verus! {

/// Where a name change stands; `name` is the user's current name.
pub enum NameChangeState {
    AwaitingUser,
    AwaitingCurrentPassword { name: String },
    AwaitingCredentials { name: String },
    AwaitingNewName { name: String },
    AwaitingNameCheck { name: String, new_name: String },
    AwaitingRename,
    Finished,
}

/// What came of the last action of a name change.
pub enum NameChangeEvent {
    UserLoaded(Result<Option<User>, String>),
    CurrentPasswordParsed(Result<(), String>),
    CredentialsChecked(Result<UserID, AuthError>),
    /// The new name, as parsed, or why it is not a valid name.
    NewNameParsed(Result<String, String>),
    /// Whether some user already has the new name.
    NameChecked(Result<bool, String>),
    Renamed(Result<(), String>),
}

/// What a name-change handler is to do next.
pub enum NameChangeAction {
    LoadUser,
    ParseCurrentPassword,
    /// Check the offered password against the stored credentials of `name`.
    CheckCredentials { name: String },
    ParseNewName,
    /// Look for a user called `new_name`.
    CheckNameTaken { new_name: String },
    /// Rename the user called `from` to `to`.
    Rename { from: String, to: String },
    /// Stop: flash the error and send the browser to `/change_name`.
    Fail(ChangeNameError),
    /// Stop: flash `Your name has been changed` and send the browser to
    /// `/account`.
    Succeed,
}

/// The event answers the action that led to the state.
pub open spec fn name_change_expects(state: NameChangeState, event: NameChangeEvent) -> bool {
    match state {
        NameChangeState::AwaitingUser => event is UserLoaded,
        NameChangeState::AwaitingCurrentPassword { .. } => event is CurrentPasswordParsed,
        NameChangeState::AwaitingCredentials { .. } => event is CredentialsChecked,
        NameChangeState::AwaitingNewName { .. } => event is NewNameParsed,
        NameChangeState::AwaitingNameCheck { .. } => event is NameChecked,
        NameChangeState::AwaitingRename => event is Renamed,
        NameChangeState::Finished => false,
    }
}

/// The change stops with an unexpected error whose text is `text`.
pub open spec fn name_change_fails_unexpectedly(
    next: NameChangeState,
    action: NameChangeAction,
    text: Seq<char>,
) -> bool {
    &&& next is Finished
    &&& action matches NameChangeAction::Fail(ChangeNameError::UnexpectedError(m))
    &&& m@ == text
}

/// The next state and action of a name change. A failure to read or write
/// storage is unexpected; a current password of the wrong form, or one that
/// does not match, is an invalid current password; a new name of the wrong
/// form is an invalid name; a name some user already has is taken.
pub open spec fn name_change_next_is(
    state: NameChangeState,
    event: NameChangeEvent,
    next: NameChangeState,
    action: NameChangeAction,
) -> bool {
    match (state, event) {
        (NameChangeState::AwaitingUser, NameChangeEvent::UserLoaded(res)) => match res {
            Err(m) => name_change_fails_unexpectedly(next, action, m@),
            Ok(None) => name_change_fails_unexpectedly(next, action, "Failed to get user name"@),
            Ok(Some(u)) => next == NameChangeState::AwaitingCurrentPassword { name: u.name }
                && action is ParseCurrentPassword,
        },
        (
            NameChangeState::AwaitingCurrentPassword { name },
            NameChangeEvent::CurrentPasswordParsed(res),
        ) => match res {
            Err(m) => next is Finished && action == NameChangeAction::Fail(
                ChangeNameError::InvalidCurrentPassword(m),
            ),
            Ok(_) => next == NameChangeState::AwaitingCredentials { name } && action
                == NameChangeAction::CheckCredentials { name },
        },
        (NameChangeState::AwaitingCredentials { name }, NameChangeEvent::CredentialsChecked(res)) => match res {
            Err(e) => match e {
                AuthError::InvalidCredentials(_) => {
                    &&& next is Finished
                    &&& action matches NameChangeAction::Fail(
                        ChangeNameError::InvalidCurrentPassword(m),
                    )
                    &&& m@ == auth_error_message(e)
                },
                AuthError::UnexpectedError(_) => name_change_fails_unexpectedly(
                    next,
                    action,
                    auth_error_message(e),
                ),
            },
            Ok(_) => next == NameChangeState::AwaitingNewName { name } && action is ParseNewName,
        },
        (NameChangeState::AwaitingNewName { name }, NameChangeEvent::NewNameParsed(res)) => match res {
            Err(m) => next is Finished && action == NameChangeAction::Fail(
                ChangeNameError::InvalidName(m),
            ),
            Ok(new_name) => next == NameChangeState::AwaitingNameCheck { name, new_name }
                && action == NameChangeAction::CheckNameTaken { new_name },
        },
        (
            NameChangeState::AwaitingNameCheck { name, new_name },
            NameChangeEvent::NameChecked(res),
        ) => match res {
            Err(m) => name_change_fails_unexpectedly(next, action, m@),
            Ok(taken) => if taken {
                next is Finished && action matches NameChangeAction::Fail(ChangeNameError::TakenName)
            } else {
                next is AwaitingRename && action == NameChangeAction::Rename {
                    from: name,
                    to: new_name,
                }
            },
        },
        (NameChangeState::AwaitingRename, NameChangeEvent::Renamed(res)) => match res {
            Err(m) => name_change_fails_unexpectedly(next, action, m@),
            Ok(_) => next is Finished && action is Succeed,
        },
        _ => false,
    }
}

/// Starts a name change.
pub fn start_name_change() -> (r: (NameChangeState, NameChangeAction))
    ensures
        r.0 is AwaitingUser,
        r.1 is LoadUser,
{
    (NameChangeState::AwaitingUser, NameChangeAction::LoadUser)
}

/// Takes what came of the last action of a name change and decides the next
/// one.
pub fn name_change_step(state: NameChangeState, event: NameChangeEvent) -> (r: (
    NameChangeState,
    NameChangeAction,
))
    requires
        name_change_expects(state, event),
    ensures
        name_change_next_is(state, event, r.0, r.1),
{
    match state {
        NameChangeState::AwaitingUser => match event {
            NameChangeEvent::UserLoaded(Err(m)) => (
                NameChangeState::Finished,
                NameChangeAction::Fail(ChangeNameError::UnexpectedError(m)),
            ),
            NameChangeEvent::UserLoaded(Ok(None)) => (
                NameChangeState::Finished,
                NameChangeAction::Fail(
                    ChangeNameError::UnexpectedError(String::from_str("Failed to get user name")),
                ),
            ),
            NameChangeEvent::UserLoaded(Ok(Some(u))) => (
                NameChangeState::AwaitingCurrentPassword { name: u.name },
                NameChangeAction::ParseCurrentPassword,
            ),
            _ => (NameChangeState::Finished, NameChangeAction::Succeed),
        },
        NameChangeState::AwaitingCurrentPassword { name } => match event {
            NameChangeEvent::CurrentPasswordParsed(Err(m)) => (
                NameChangeState::Finished,
                NameChangeAction::Fail(ChangeNameError::InvalidCurrentPassword(m)),
            ),
            _ => {
                let asked = name.clone();
                (
                    NameChangeState::AwaitingCredentials { name },
                    NameChangeAction::CheckCredentials { name: asked },
                )
            },
        },
        NameChangeState::AwaitingCredentials { name } => match event {
            NameChangeEvent::CredentialsChecked(Err(e)) => {
                let text = e.message();
                match e {
                    AuthError::InvalidCredentials(_) => (
                        NameChangeState::Finished,
                        NameChangeAction::Fail(ChangeNameError::InvalidCurrentPassword(text)),
                    ),
                    AuthError::UnexpectedError(_) => (
                        NameChangeState::Finished,
                        NameChangeAction::Fail(ChangeNameError::UnexpectedError(text)),
                    ),
                }
            },
            _ => (NameChangeState::AwaitingNewName { name }, NameChangeAction::ParseNewName),
        },
        NameChangeState::AwaitingNewName { name } => match event {
            NameChangeEvent::NewNameParsed(Err(m)) => (
                NameChangeState::Finished,
                NameChangeAction::Fail(ChangeNameError::InvalidName(m)),
            ),
            NameChangeEvent::NewNameParsed(Ok(new_name)) => {
                let asked = new_name.clone();
                (
                    NameChangeState::AwaitingNameCheck { name, new_name },
                    NameChangeAction::CheckNameTaken { new_name: asked },
                )
            },
            _ => (NameChangeState::Finished, NameChangeAction::Succeed),
        },
        NameChangeState::AwaitingNameCheck { name, new_name } => match event {
            NameChangeEvent::NameChecked(Err(m)) => (
                NameChangeState::Finished,
                NameChangeAction::Fail(ChangeNameError::UnexpectedError(m)),
            ),
            NameChangeEvent::NameChecked(Ok(true)) => (
                NameChangeState::Finished,
                NameChangeAction::Fail(ChangeNameError::TakenName),
            ),
            _ => (
                NameChangeState::AwaitingRename,
                NameChangeAction::Rename { from: name, to: new_name },
            ),
        },
        NameChangeState::AwaitingRename => match event {
            NameChangeEvent::Renamed(Err(m)) => (
                NameChangeState::Finished,
                NameChangeAction::Fail(ChangeNameError::UnexpectedError(m)),
            ),
            _ => (NameChangeState::Finished, NameChangeAction::Succeed),
        },
        NameChangeState::Finished => (NameChangeState::Finished, NameChangeAction::Succeed),
    }
}

/// `states`, `events` and `actions` form a run of a name change.
pub open spec fn is_name_change_run(
    states: Seq<NameChangeState>,
    events: Seq<NameChangeEvent>,
    actions: Seq<NameChangeAction>,
) -> bool {
    &&& states.len() == events.len() + 1
    &&& actions.len() == events.len() + 1
    &&& states[0] is AwaitingUser
    &&& actions[0] is LoadUser
    &&& forall|i: int|
        0 <= i < events.len() ==> {
            &&& name_change_expects(states[i], #[trigger] events[i])
            &&& name_change_next_is(states[i], events[i], states[i + 1], actions[i + 1])
        }
}

/// A user is only ever renamed as the sixth action, after the user was
/// loaded, the current password had the right form and matched, the new
/// name had the right form and no user had it; the user renamed is the one
/// loaded, and the new name is the one parsed.
pub proof fn lemma_rename_only_after_checks(
    states: Seq<NameChangeState>,
    events: Seq<NameChangeEvent>,
    actions: Seq<NameChangeAction>,
    k: int,
)
    requires
        is_name_change_run(states, events, actions),
        0 <= k < actions.len(),
        actions[k] is Rename,
    ensures
        k == 5,
        events[0] matches NameChangeEvent::UserLoaded(Ok(Some(u))) && (actions[5] matches NameChangeAction::Rename { from, to } && from == u.name),
        events[1] matches NameChangeEvent::CurrentPasswordParsed(Ok(_)),
        events[2] matches NameChangeEvent::CredentialsChecked(Ok(_)),
        events[3] matches NameChangeEvent::NewNameParsed(Ok(n)) && (actions[5] matches NameChangeAction::Rename { from, to } && to == n),
        events[4] matches NameChangeEvent::NameChecked(Ok(false)),
{
    assert(k > 0);
    assert(name_change_expects(states[k - 1], events[k - 1]));
    assert(states[k - 1] is AwaitingNameCheck);
    assert(k - 1 > 0);
    assert(name_change_expects(states[k - 2], events[k - 2]));
    assert(states[k - 2] is AwaitingNewName);
    assert(k - 2 > 0);
    assert(name_change_expects(states[k - 3], events[k - 3]));
    assert(states[k - 3] is AwaitingCredentials);
    assert(k - 3 > 0);
    assert(name_change_expects(states[k - 4], events[k - 4]));
    assert(states[k - 4] is AwaitingCurrentPassword);
    assert(k - 4 > 0);
    assert(name_change_expects(states[k - 5], events[k - 5]));
    assert(states[k - 5] is AwaitingUser);
    if k - 5 > 0 {
        assert(name_change_expects(states[k - 6], events[k - 6]));
        assert(false);
    }
}

} // verus!
