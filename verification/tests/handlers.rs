use holosite::errors::ProjectError;
use holosite::model::NewProject;
use holosite::project_creation::{
    project_creation_step, start_project_creation, ProjectCreationAction, ProjectCreationEvent,
};
use holosite::name_change::{
    name_change_step, start_name_change, NameChangeAction, NameChangeEvent, NameChangeState,
};
use holosite::access::{
    login_step, registration_step, start_login, start_registration, LoginAction, LoginEvent,
    LoginState, RegistrationAction, RegistrationEvent, RegistrationState,
};
use holosite::errors::{
    AuthError, ChangeNameError, ChangePasswordError, EditCommentError, LoginError,
    RegistrationError, UserError,
};
use holosite::handlers::{
    authorize_comment_delete, authorize_comment_edit, blog_post_edit_changes,
    change_name_error_from_user_error, comment_delete_changes, comment_edit_changes,
    shows_account_link, BlogPostDisplay,
};
use holosite::locations::{
    blog_post_location, comment_location, edit_blog_post_location, registration_location,
};
use holosite::model::{BlogPost, Comment, User};
use holosite::password_change::{
    password_change_step, start_password_change, PasswordChangeAction, PasswordChangeEvent,
    PasswordChangeState,
};

fn user() -> User {
    User {
        id: "id-1".to_string(),
        name: "ann".to_string(),
        email: "a@x".to_string(),
        created_at: "".to_string(),
        password: "h".to_string(),
        password_salt: "salt".to_string(),
        is_banned: false,
        role: "user".to_string(),
    }
}

#[test]
fn locations() {
    assert_eq!(comment_location("p1", "c2"), "/blog_posts/p1/view#comment-c2");
    assert_eq!(blog_post_location("p1"), "/blog_posts/p1");
    assert_eq!(edit_blog_post_location("p1"), "/blog_posts/p1/edit");
    assert_eq!(registration_location("ann"), "/registration?name=ann");
}

#[test]
fn password_change_happy_path() {
    let new = "n3w-password".to_string();
    let (s, a) = start_password_change(&new, &new);
    assert!(matches!(a, PasswordChangeAction::LoadUser));
    let (s, a) = password_change_step(s, PasswordChangeEvent::UserLoaded(Ok(Some(user()))));
    assert!(matches!(a, PasswordChangeAction::ParseCurrentPassword));
    let (s, a) = password_change_step(s, PasswordChangeEvent::CurrentPasswordParsed(Ok(())));
    match &a {
        PasswordChangeAction::CheckCredentials { name } => assert_eq!(name, "ann"),
        _ => panic!("expected a credentials check"),
    }
    let (s, a) =
        password_change_step(s, PasswordChangeEvent::CredentialsChecked(Ok("id-1".to_string())));
    assert!(matches!(a, PasswordChangeAction::ParseNewPassword));
    let (s, a) = password_change_step(s, PasswordChangeEvent::NewPasswordParsed(Ok(())));
    match &a {
        PasswordChangeAction::HashNewPassword { salt } => assert_eq!(salt, "salt"),
        _ => panic!("expected a hash"),
    }
    let (s, a) =
        password_change_step(s, PasswordChangeEvent::NewPasswordHashed("h4sh".to_string()));
    match &a {
        PasswordChangeAction::StoreNewPassword { changes } => {
            assert_eq!(changes.id, "id-1");
            assert_eq!(changes.password.as_deref(), Some("h4sh"));
            assert!(changes.name.is_none() && changes.email.is_none());
            assert!(changes.password_salt.is_none() && changes.is_banned.is_none());
        }
        _ => panic!("expected a store"),
    }
    let (s, a) = password_change_step(s, PasswordChangeEvent::Stored(Ok(())));
    assert!(matches!(a, PasswordChangeAction::Succeed));
    assert!(matches!(s, PasswordChangeState::Finished));
}

#[test]
fn password_change_failures() {
    let (s, a) = start_password_change(&"a".to_string(), &"b".to_string());
    assert!(matches!(s, PasswordChangeState::Finished));
    assert!(matches!(
        a,
        PasswordChangeAction::Fail(ChangePasswordError::RepeatPasswordDoesntMatch)
    ));

    let (_, a) =
        password_change_step(PasswordChangeState::AwaitingUser, PasswordChangeEvent::UserLoaded(Ok(None)));
    match a {
        PasswordChangeAction::Fail(ChangePasswordError::UnexpectedError(m)) => {
            assert_eq!(m, "Failed to get user by id")
        }
        _ => panic!("expected an unexpected error"),
    }

    let (_, a) = password_change_step(
        PasswordChangeState::AwaitingCredentials { user: user() },
        PasswordChangeEvent::CredentialsChecked(Err(AuthError::InvalidCredentials(
            "Passwords don't match".to_string(),
        ))),
    );
    match a {
        PasswordChangeAction::Fail(ChangePasswordError::InvalidCurrentPassword(m)) => {
            assert_eq!(m, "Invalid credentials")
        }
        _ => panic!("expected an invalid current password"),
    }

    let (_, a) = password_change_step(
        PasswordChangeState::AwaitingNewPassword { user: user() },
        PasswordChangeEvent::NewPasswordParsed(Err("too short".to_string())),
    );
    match a {
        PasswordChangeAction::Fail(ChangePasswordError::InvalidNewPassword(m)) => {
            assert_eq!(m, "too short")
        }
        _ => panic!("expected an invalid new password"),
    }

    let (_, a) = password_change_step(
        PasswordChangeState::AwaitingStore,
        PasswordChangeEvent::Stored(Err(UserError::TakenName)),
    );
    match a {
        PasswordChangeAction::Fail(ChangePasswordError::UnexpectedError(m)) => {
            assert_eq!(m, "Name is already taken")
        }
        _ => panic!("expected an unexpected error"),
    }
}

#[test]
fn login_happy_path_and_cached_failure() {
    let (s, a) = start_login();
    assert!(matches!(a, LoginAction::ParseName));
    let (s, _) = login_step(s, LoginEvent::NameParsed(Ok(())));
    let (s, a) = login_step(s, LoginEvent::PasswordParsed(Ok(())));
    assert!(matches!(a, LoginAction::CheckCredentials));
    let (s, a) = login_step(s, LoginEvent::CredentialsChecked(Ok("id-1".to_string())));
    match &a {
        LoginAction::StartSession { user_id } => assert_eq!(user_id, "id-1"),
        _ => panic!("expected a session start"),
    }
    let (_, a) = login_step(s, LoginEvent::SessionStarted(Ok(())));
    assert!(matches!(a, LoginAction::Succeed));

    let (s, a) = login_step(
        LoginState::AwaitingCredentials,
        LoginEvent::CredentialsChecked(Err(AuthError::InvalidCredentials("x".to_string()))),
    );
    assert!(matches!(a, LoginAction::CacheForm));
    let (_, a) = login_step(s, LoginEvent::FormCached(Ok(())));
    match a {
        LoginAction::Fail(LoginError::AuthError(AuthError::InvalidCredentials(m))) => {
            assert_eq!(m, "x")
        }
        _ => panic!("expected an authentication failure"),
    }

    let (s, _) = login_step(
        LoginState::AwaitingCredentials,
        LoginEvent::CredentialsChecked(Err(AuthError::InvalidCredentials(
            "Passwords don't match".to_string(),
        ))),
    );
    let (_, a) = login_step(s, LoginEvent::FormCached(Err("no session".to_string())));
    match a {
        LoginAction::Fail(LoginError::UnexpectedError(m)) => assert_eq!(
            m,
            "Failed to execute request: Authentication failed\n\nCaused by:\n\tInvalid credentials\nCaused by:\n\tPasswords don't match\n & failed to cache data: no session"
        ),
        _ => panic!("expected an unexpected error"),
    }

    let (s, _) = login_step(LoginState::AwaitingName, LoginEvent::NameParsed(Err("empty".to_string())));
    let (_, a) = login_step(s, LoginEvent::FormCached(Err("no session".to_string())));
    match a {
        LoginAction::Fail(LoginError::UnexpectedError(m)) => assert_eq!(
            m,
            "Failed to execute request: Invalid name\n\nCaused by:\n\tempty\n & failed to cache data: no session"
        ),
        _ => panic!("expected an unexpected error"),
    }
}

#[test]
fn registration_paths() {
    let (_, a) = start_registration(&"a".to_string(), &"b".to_string());
    assert!(matches!(a, RegistrationAction::Fail(RegistrationError::PasswordsDontMatch)));

    let (s, _) = start_registration(&"pw".to_string(), &"pw".to_string());
    let (s, _) = registration_step(s, RegistrationEvent::NameParsed(Ok(())));
    let (s, a) = registration_step(s, RegistrationEvent::PasswordParsed(Ok(())));
    assert!(matches!(a, RegistrationAction::InsertUser));
    let (s, a) = registration_step(s, RegistrationEvent::UserInserted(Ok(user())));
    match &a {
        RegistrationAction::StartSession { user_id } => assert_eq!(user_id, "id-1"),
        _ => panic!("expected a session start"),
    }
    let (_, a) = registration_step(s, RegistrationEvent::SessionStarted(Ok(())));
    assert!(matches!(a, RegistrationAction::Succeed));

    let (_, a) = registration_step(
        RegistrationState::AwaitingInsert,
        RegistrationEvent::UserInserted(Err(UserError::TakenName)),
    );
    assert!(matches!(a, RegistrationAction::Fail(RegistrationError::TakenName)));
    let (_, a) = registration_step(
        RegistrationState::AwaitingInsert,
        RegistrationEvent::UserInserted(Err(UserError::TakenEmail)),
    );
    match a {
        RegistrationAction::Fail(RegistrationError::UnexpectedError(m)) => {
            assert_eq!(m, "Email is already taken")
        }
        _ => panic!("expected an unexpected error"),
    }
}

fn comment_by(author: &str) -> Comment {
    Comment {
        id: "c".to_string(),
        contents: "x".to_string(),
        author_id: author.to_string(),
        post_id: "p".to_string(),
        reply_to_id: None,
        created_at: "".to_string(),
        updated_at: "".to_string(),
        is_deleted: false,
    }
}

#[test]
fn only_authors_change_their_comments() {
    let me = "me".to_string();
    let t = "token".to_string();
    assert!(authorize_comment_edit(&t, &t, &Some(comment_by("me")), &me).is_ok());
    assert!(matches!(
        authorize_comment_edit(&t, &"other".to_string(), &Some(comment_by("me")), &me),
        Err(EditCommentError::CSRFError)
    ));
    assert!(matches!(
        authorize_comment_edit(&t, &t, &Some(comment_by("you")), &me),
        Err(EditCommentError::CantChangeOthersComment)
    ));
    assert!(authorize_comment_edit(&t, &t, &None, &me).is_ok());
    assert!(matches!(
        authorize_comment_delete(&Some(comment_by("you")), &me),
        Err(EditCommentError::CantChangeOthersComment)
    ));
    assert!(authorize_comment_delete(&None, &me).is_ok());
}

#[test]
fn changesets() {
    let e = comment_edit_changes(&"c".to_string(), &"new".to_string());
    assert_eq!((e.contents, e.is_deleted), (Some("new".to_string()), None));
    let d = comment_delete_changes(&"c".to_string());
    assert_eq!((d.contents, d.is_deleted), (None, Some(true)));
    let b = blog_post_edit_changes(&"b".to_string(), &"t".to_string(), &"br".to_string(), &"c".to_string());
    assert_eq!(b.brief, Some("br".to_string()));
    assert!(matches!(change_name_error_from_user_error(UserError::TakenName), ChangeNameError::TakenName));
    match change_name_error_from_user_error(UserError::TakenEmail) {
        ChangeNameError::UnexpectedError(m) => assert_eq!(m, "Email is already taken"),
        _ => panic!("expected an unexpected error"),
    }
}

#[test]
fn pages_show_what_they_should() {
    assert!(shows_account_link(&Some("u".to_string()), &"u".to_string()));
    assert!(!shows_account_link(&Some("v".to_string()), &"u".to_string()));
    assert!(!shows_account_link(&None, &"u".to_string()));
    let post = BlogPost {
        id: "1".to_string(),
        title: "T".to_string(),
        brief: "B".to_string(),
        contents: "C".to_string(),
        author_id: "a".to_string(),
        created_at: "".to_string(),
        visibility: "all".to_string(),
    };
    let d = BlogPostDisplay::new(&post);
    assert_eq!((d.title, d.brief, d.contents), ("T", "B", "C"));
    let u = BlogPostDisplay::default();
    assert_eq!((u.title, u.brief, u.contents), ("Untitled", "", ""));
}

#[test]
fn name_change_paths() {
    let (s, a) = start_name_change();
    assert!(matches!(a, NameChangeAction::LoadUser));
    let (s, _) = name_change_step(s, NameChangeEvent::UserLoaded(Ok(Some(user()))));
    let (s, a) = name_change_step(s, NameChangeEvent::CurrentPasswordParsed(Ok(())));
    match &a {
        NameChangeAction::CheckCredentials { name } => assert_eq!(name, "ann"),
        _ => panic!("expected a credentials check"),
    }
    let (s, _) = name_change_step(s, NameChangeEvent::CredentialsChecked(Ok("id-1".to_string())));
    let (s, a) = name_change_step(s, NameChangeEvent::NewNameParsed(Ok("anna".to_string())));
    match &a {
        NameChangeAction::CheckNameTaken { new_name } => assert_eq!(new_name, "anna"),
        _ => panic!("expected a name check"),
    }
    let (s, a) = name_change_step(s, NameChangeEvent::NameChecked(Ok(false)));
    match &a {
        NameChangeAction::Rename { from, to } => assert_eq!((from.as_str(), to.as_str()), ("ann", "anna")),
        _ => panic!("expected a rename"),
    }
    let (_, a) = name_change_step(s, NameChangeEvent::Renamed(Ok(())));
    assert!(matches!(a, NameChangeAction::Succeed));

    let (_, a) = name_change_step(
        NameChangeState::AwaitingNameCheck { name: "ann".to_string(), new_name: "bob".to_string() },
        NameChangeEvent::NameChecked(Ok(true)),
    );
    assert!(matches!(a, NameChangeAction::Fail(ChangeNameError::TakenName)));
    let (_, a) = name_change_step(NameChangeState::AwaitingUser, NameChangeEvent::UserLoaded(Ok(None)));
    match a {
        NameChangeAction::Fail(ChangeNameError::UnexpectedError(m)) => assert_eq!(m, "Failed to get user name"),
        _ => panic!("expected an unexpected error"),
    }
}

#[test]
fn project_creation_paths() {
    let new = || NewProject {
        title: "T".to_string(),
        brief: "B".to_string(),
        author_id: "ann".to_string(),
        visibility: "all".to_string(),
    };
    let (s, a) = start_project_creation(&new(), "p1".to_string());
    match &a {
        ProjectCreationAction::InsertProject { project } => {
            assert_eq!((project.id.as_str(), project.title.as_str()), ("p1", "T"));
            assert_eq!(project.author_id, "ann");
        }
        _ => panic!("expected an insert"),
    }
    let (s, a) = project_creation_step(s, ProjectCreationEvent::ProjectInserted(Ok(())));
    match &a {
        ProjectCreationAction::AddEditor { project_id, user_id } => {
            assert_eq!((project_id.as_str(), user_id.as_str()), ("p1", "ann"))
        }
        _ => panic!("expected the author to be recorded"),
    }
    let (_, a) = project_creation_step(s, ProjectCreationEvent::EditorAdded(Ok(())));
    match a {
        ProjectCreationAction::Succeed(p) => assert_eq!(p.id, "p1"),
        _ => panic!("expected success"),
    }

    let (s, _) = start_project_creation(&new(), "p2".to_string());
    let (_, a) = project_creation_step(
        s,
        ProjectCreationEvent::ProjectInserted(Err(ProjectError::TakenTitle)),
    );
    assert!(matches!(a, ProjectCreationAction::Fail(ProjectError::TakenTitle)));

    let (s, _) = start_project_creation(&new(), "p3".to_string());
    let (s, _) = project_creation_step(s, ProjectCreationEvent::ProjectInserted(Ok(())));
    let (_, a) = project_creation_step(s, ProjectCreationEvent::EditorAdded(Err("busy".to_string())));
    match a {
        ProjectCreationAction::Fail(ProjectError::UnexpectedError(m)) => assert_eq!(m, "busy"),
        _ => panic!("expected an unexpected error"),
    }
}
