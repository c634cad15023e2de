//! The decisions of the account page's password change, as a state machine:
//! the handler performs each action (a storage read, a check of a password's
//! form, a credentials check, a write) and hands back what came of it.

use vstd::prelude::*;
use crate::model::{User, UserID, UpdateUser};
use crate::services::password_changes;
use crate::errors::{
    AuthError, UserError, ChangePasswordError, auth_error_message, user_error_message,
};

verus! {

/// Where a password change stands.
pub enum PasswordChangeState {
    /// Waiting for the user of the session.
    AwaitingUser,
    /// Waiting for the check of the offered current password's form.
    AwaitingCurrentPassword { user: User },
    /// Waiting for the check of the current password against the stored one.
    AwaitingCredentials { user: User },
    /// Waiting for the check of the new password's form.
    AwaitingNewPassword { user: User },
    /// Waiting for the new password, hashed with the user's salt.
    AwaitingHash { user: User },
    /// Waiting for the new password to be stored.
    AwaitingStore,
    /// Nothing more to do.
    Finished,
}

/// What came of the last action.
pub enum PasswordChangeEvent {
    UserLoaded(Result<Option<User>, String>),
    CurrentPasswordParsed(Result<(), String>),
    CredentialsChecked(Result<UserID, AuthError>),
    NewPasswordParsed(Result<(), String>),
    /// The new password, hashed with the salt asked for.
    NewPasswordHashed(String),
    Stored(Result<(), UserError>),
}

/// What the handler is to do next.
pub enum PasswordChangeAction {
    /// Load the user of the session.
    LoadUser,
    /// Check the form of the offered current password.
    ParseCurrentPassword,
    /// Check the offered current password against the stored credentials of
    /// the user called `name`.
    CheckCredentials { name: String },
    /// Check the form of the new password.
    ParseNewPassword,
    /// Hash the new password with `salt`.
    HashNewPassword { salt: String },
    /// Write `changes` to the users table.
    StoreNewPassword { changes: UpdateUser },
    /// Stop: flash the error and send the browser to the account page.
    Fail(ChangePasswordError),
    /// Stop: flash `Your password has been changed` and send the browser to
    /// the account page.
    Succeed,
}

/// The first step, on the submitted form: the new password must be repeated
/// exactly.
pub open spec fn password_change_start_is(
    new_password: Seq<char>,
    repeat_new_password: Seq<char>,
    state: PasswordChangeState,
    action: PasswordChangeAction,
) -> bool {
    if new_password != repeat_new_password {
        state is Finished && action matches PasswordChangeAction::Fail(
            ChangePasswordError::RepeatPasswordDoesntMatch,
        )
    } else {
        state is AwaitingUser && action is LoadUser
    }
}

/// The event answers the action that led to the state.
pub open spec fn password_change_expects(state: PasswordChangeState, event: PasswordChangeEvent) -> bool {
    match state {
        PasswordChangeState::AwaitingUser => event is UserLoaded,
        PasswordChangeState::AwaitingCurrentPassword { .. } => event is CurrentPasswordParsed,
        PasswordChangeState::AwaitingCredentials { .. } => event is CredentialsChecked,
        PasswordChangeState::AwaitingNewPassword { .. } => event is NewPasswordParsed,
        PasswordChangeState::AwaitingHash { .. } => event is NewPasswordHashed,
        PasswordChangeState::AwaitingStore => event is Stored,
        PasswordChangeState::Finished => false,
    }
}

/// The change stops with an error whose text is `text`.
pub open spec fn fails_unexpectedly(
    state: PasswordChangeState,
    action: PasswordChangeAction,
    text: Seq<char>,
) -> bool {
    &&& state is Finished
    &&& action matches PasswordChangeAction::Fail(ChangePasswordError::UnexpectedError(m))
    &&& m@ == text
}

/// The next state and action. A failure to read or write storage is an
/// unexpected error; a current password of the wrong form, or one that does
/// not match the stored one, is an invalid current password; a new password
/// of the wrong form is an invalid new password. The new password is hashed
/// with the loaded user's salt, and the one change written sets that user's
/// password column to the hash.
pub open spec fn password_change_next_is(
    state: PasswordChangeState,
    event: PasswordChangeEvent,
    next: PasswordChangeState,
    action: PasswordChangeAction,
) -> bool {
    match (state, event) {
        (PasswordChangeState::AwaitingUser, PasswordChangeEvent::UserLoaded(res)) => match res {
            Err(m) => fails_unexpectedly(next, action, m@),
            Ok(None) => fails_unexpectedly(next, action, "Failed to get user by id"@),
            Ok(Some(u)) => next == PasswordChangeState::AwaitingCurrentPassword { user: u }
                && action is ParseCurrentPassword,
        },
        (
            PasswordChangeState::AwaitingCurrentPassword { user },
            PasswordChangeEvent::CurrentPasswordParsed(res),
        ) => match res {
            Err(m) => next is Finished && action == PasswordChangeAction::Fail(
                ChangePasswordError::InvalidCurrentPassword(m),
            ),
            Ok(_) => next == PasswordChangeState::AwaitingCredentials { user } && action
                == PasswordChangeAction::CheckCredentials { name: user.name },
        },
        (
            PasswordChangeState::AwaitingCredentials { user },
            PasswordChangeEvent::CredentialsChecked(res),
        ) => match res {
            Err(e) => match e {
                AuthError::InvalidCredentials(_) => {
                    &&& next is Finished
                    &&& action matches PasswordChangeAction::Fail(
                        ChangePasswordError::InvalidCurrentPassword(m),
                    )
                    &&& m@ == auth_error_message(e)
                },
                AuthError::UnexpectedError(_) => fails_unexpectedly(
                    next,
                    action,
                    auth_error_message(e),
                ),
            },
            Ok(_) => next == PasswordChangeState::AwaitingNewPassword { user }
                && action is ParseNewPassword,
        },
        (
            PasswordChangeState::AwaitingNewPassword { user },
            PasswordChangeEvent::NewPasswordParsed(res),
        ) => match res {
            Err(m) => next is Finished && action == PasswordChangeAction::Fail(
                ChangePasswordError::InvalidNewPassword(m),
            ),
            Ok(_) => next == PasswordChangeState::AwaitingHash { user } && action
                == PasswordChangeAction::HashNewPassword { salt: user.password_salt },
        },
        (
            PasswordChangeState::AwaitingHash { user },
            PasswordChangeEvent::NewPasswordHashed(hash),
        ) => next is AwaitingStore && action == PasswordChangeAction::StoreNewPassword {
            changes: UpdateUser {
                id: user.id,
                name: None,
                email: None,
                password: Some(hash),
                password_salt: None,
                is_banned: None,
            },
        },
        (PasswordChangeState::AwaitingStore, PasswordChangeEvent::Stored(res)) => match res {
            Err(e) => fails_unexpectedly(next, action, user_error_message(e)),
            Ok(_) => next is Finished && action is Succeed,
        },
        _ => false,
    }
}

/// Starts a password change on the submitted new password and its
/// repetition.
pub fn start_password_change(new_password: &String, repeat_new_password: &String) -> (r: (
    PasswordChangeState,
    PasswordChangeAction,
))
    ensures
        password_change_start_is(new_password@, repeat_new_password@, r.0, r.1),
{
    if *new_password != *repeat_new_password {
        (
            PasswordChangeState::Finished,
            PasswordChangeAction::Fail(ChangePasswordError::RepeatPasswordDoesntMatch),
        )
    } else {
        (PasswordChangeState::AwaitingUser, PasswordChangeAction::LoadUser)
    }
}

/// Takes what came of the last action and decides the next one.
pub fn password_change_step(state: PasswordChangeState, event: PasswordChangeEvent) -> (r: (
    PasswordChangeState,
    PasswordChangeAction,
))
    requires
        password_change_expects(state, event),
    ensures
        password_change_next_is(state, event, r.0, r.1),
{
    match state {
        PasswordChangeState::AwaitingUser => match event {
            PasswordChangeEvent::UserLoaded(Err(m)) => (
                PasswordChangeState::Finished,
                PasswordChangeAction::Fail(ChangePasswordError::UnexpectedError(m)),
            ),
            PasswordChangeEvent::UserLoaded(Ok(None)) => (
                PasswordChangeState::Finished,
                PasswordChangeAction::Fail(
                    ChangePasswordError::UnexpectedError(
                        String::from_str("Failed to get user by id"),
                    ),
                ),
            ),
            PasswordChangeEvent::UserLoaded(Ok(Some(u))) => (
                PasswordChangeState::AwaitingCurrentPassword { user: u },
                PasswordChangeAction::ParseCurrentPassword,
            ),
            _ => (PasswordChangeState::Finished, PasswordChangeAction::Succeed),
        },
        PasswordChangeState::AwaitingCurrentPassword { user } => match event {
            PasswordChangeEvent::CurrentPasswordParsed(Err(m)) => (
                PasswordChangeState::Finished,
                PasswordChangeAction::Fail(ChangePasswordError::InvalidCurrentPassword(m)),
            ),
            _ => {
                let name = user.name.clone();
                (
                    PasswordChangeState::AwaitingCredentials { user },
                    PasswordChangeAction::CheckCredentials { name },
                )
            },
        },
        PasswordChangeState::AwaitingCredentials { user } => match event {
            PasswordChangeEvent::CredentialsChecked(Err(e)) => {
                let text = e.message();
                match e {
                    AuthError::InvalidCredentials(_) => (
                        PasswordChangeState::Finished,
                        PasswordChangeAction::Fail(
                            ChangePasswordError::InvalidCurrentPassword(text),
                        ),
                    ),
                    AuthError::UnexpectedError(_) => (
                        PasswordChangeState::Finished,
                        PasswordChangeAction::Fail(ChangePasswordError::UnexpectedError(text)),
                    ),
                }
            },
            _ => (
                PasswordChangeState::AwaitingNewPassword { user },
                PasswordChangeAction::ParseNewPassword,
            ),
        },
        PasswordChangeState::AwaitingNewPassword { user } => match event {
            PasswordChangeEvent::NewPasswordParsed(Err(m)) => (
                PasswordChangeState::Finished,
                PasswordChangeAction::Fail(ChangePasswordError::InvalidNewPassword(m)),
            ),
            _ => {
                let salt = user.password_salt.clone();
                (
                    PasswordChangeState::AwaitingHash { user },
                    PasswordChangeAction::HashNewPassword { salt },
                )
            },
        },
        PasswordChangeState::AwaitingHash { user } => match event {
            PasswordChangeEvent::NewPasswordHashed(hash) => (
                PasswordChangeState::AwaitingStore,
                PasswordChangeAction::StoreNewPassword { changes: password_changes(&user.id, hash) },
            ),
            _ => (PasswordChangeState::Finished, PasswordChangeAction::Succeed),
        },
        PasswordChangeState::AwaitingStore => match event {
            PasswordChangeEvent::Stored(Err(e)) => {
                let text = e.message();
                (
                    PasswordChangeState::Finished,
                    PasswordChangeAction::Fail(
                        ChangePasswordError::UnexpectedError(String::from_str(text)),
                    ),
                )
            },
            _ => (PasswordChangeState::Finished, PasswordChangeAction::Succeed),
        },
        PasswordChangeState::Finished => (PasswordChangeState::Finished, PasswordChangeAction::Succeed),
    }
}

/// `states`, `events` and `actions` form a run of the password change from
/// the submitted form: it starts as `start_password_change` does and each
/// event answers the action before it, leading to the next state and action.
pub open spec fn is_password_change_run(
    new_password: Seq<char>,
    repeat_new_password: Seq<char>,
    states: Seq<PasswordChangeState>,
    events: Seq<PasswordChangeEvent>,
    actions: Seq<PasswordChangeAction>,
) -> bool {
    &&& states.len() == events.len() + 1
    &&& actions.len() == events.len() + 1
    &&& password_change_start_is(new_password, repeat_new_password, states[0], actions[0])
    &&& forall|i: int|
        0 <= i < events.len() ==> {
            &&& password_change_expects(states[i], #[trigger] events[i])
            &&& password_change_next_is(states[i], events[i], states[i + 1], actions[i + 1])
        }
}

/// A new password is only ever stored as the sixth action, after the new
/// password was repeated exactly, the session's user was loaded, the
/// current password had the right form and matched the stored one, the new
/// password had the right form and was hashed with the loaded user's salt;
/// what is written is that hash in the loaded user's password column, and
/// nothing else. Success is only ever reported as the seventh action, once
/// the write succeeded.
pub proof fn lemma_password_stored_only_after_checks(
    new_password: Seq<char>,
    repeat_new_password: Seq<char>,
    states: Seq<PasswordChangeState>,
    events: Seq<PasswordChangeEvent>,
    actions: Seq<PasswordChangeAction>,
    k: int,
)
    requires
        is_password_change_run(new_password, repeat_new_password, states, events, actions),
        0 <= k < actions.len(),
        actions[k] is StoreNewPassword || actions[k] is Succeed,
    ensures
        new_password == repeat_new_password,
        actions[k] is StoreNewPassword ==> k == 5,
        actions[k] is Succeed ==> k == 6 && events[5] matches PasswordChangeEvent::Stored(Ok(_)),
        events[0] matches PasswordChangeEvent::UserLoaded(Ok(Some(u))) && (actions[4]
            == PasswordChangeAction::HashNewPassword { salt: u.password_salt }) && (
        events[4] matches PasswordChangeEvent::NewPasswordHashed(hash) && actions[5]
            == PasswordChangeAction::StoreNewPassword {
            changes: UpdateUser {
                id: u.id,
                name: None,
                email: None,
                password: Some(hash),
                password_salt: None,
                is_banned: None,
            },
        }),
        events[1] matches PasswordChangeEvent::CurrentPasswordParsed(Ok(_)),
        events[2] matches PasswordChangeEvent::CredentialsChecked(Ok(_)),
        events[3] matches PasswordChangeEvent::NewPasswordParsed(Ok(_)),
{
    let j = if actions[k] is Succeed {
        k - 1
    } else {
        k
    };
    if actions[k] is Succeed {
        assert(k > 0);
        assert(password_change_expects(states[k - 1], events[k - 1]));
        assert(states[k - 1] is AwaitingStore);
    }
    assert(j > 0);
    assert(password_change_expects(states[j - 1], events[j - 1]));
    assert(states[j - 1] is AwaitingHash);
    assert(j - 1 > 0);
    assert(password_change_expects(states[j - 2], events[j - 2]));
    assert(states[j - 2] is AwaitingNewPassword);
    assert(j - 2 > 0);
    assert(password_change_expects(states[j - 3], events[j - 3]));
    assert(states[j - 3] is AwaitingCredentials);
    assert(j - 3 > 0);
    assert(password_change_expects(states[j - 4], events[j - 4]));
    assert(states[j - 4] is AwaitingCurrentPassword);
    assert(j - 4 > 0);
    assert(password_change_expects(states[j - 5], events[j - 5]));
    assert(states[j - 5] is AwaitingUser);
    if j - 5 > 0 {
        assert(password_change_expects(states[j - 6], events[j - 6]));
        assert(false);
    }
    assert(j == 5);
}

} // verus!
