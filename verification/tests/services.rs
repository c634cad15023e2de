use holosite::errors::{
    get_blog_post_error_error_from_database_error, get_project_error_from_database_error,
    get_user_error_from_database_error, AuthError, BlogPostError, DatabaseError, ProjectError,
    UserError,
};
use holosite::model::{NewBlogPost, NewComment, NewProject, StoredCredentials, User};
use holosite::queries::get_stored_credentials;
use holosite::services::{
    change_name, change_password, new_blog_post_row, new_comment_row, new_project_row,
    new_user_row, validate_credentials,
};
use holosite::text::{decimal_string, error_chain_fmt};

fn unique(m: &str) -> DatabaseError {
    DatabaseError::UniqueViolation(m.to_string())
}

#[test]
fn unique_violations_on_users_name_the_column() {
    assert!(matches!(
        get_user_error_from_database_error(unique("UNIQUE constraint failed: users.name")),
        UserError::TakenName
    ));
    assert!(matches!(
        get_user_error_from_database_error(unique("UNIQUE constraint failed: users.email")),
        UserError::TakenEmail
    ));
    match get_user_error_from_database_error(unique("UNIQUE constraint failed: users.id")) {
        UserError::UnexpectedError(m) => assert_eq!(m, "UNIQUE constraint failed: users.id"),
        other => panic!("unexpected {:?}", other),
    }
    match get_user_error_from_database_error(DatabaseError::Other("disk full".to_string())) {
        UserError::UnexpectedError(m) => assert_eq!(m, "disk full"),
        other => panic!("unexpected {:?}", other),
    }
}

#[test]
fn name_is_checked_before_email() {
    assert!(matches!(
        get_user_error_from_database_error(unique("name and email")),
        UserError::TakenName
    ));
}

#[test]
fn unique_violations_on_titles() {
    assert!(matches!(
        get_blog_post_error_error_from_database_error(unique("blog_posts.title")),
        BlogPostError::TakenTitle
    ));
    assert!(matches!(
        get_blog_post_error_error_from_database_error(unique("blog_posts.id")),
        BlogPostError::UnexpectedError(_)
    ));
    assert!(matches!(
        get_project_error_from_database_error(unique("projects.title")),
        ProjectError::TakenTitle
    ));
    assert!(matches!(
        get_project_error_from_database_error(DatabaseError::Other("title".to_string())),
        ProjectError::UnexpectedError(_)
    ));
}

#[test]
fn error_messages() {
    assert_eq!(UserError::TakenName.message(), "Name is already taken");
    assert_eq!(UserError::TakenEmail.message(), "Email is already taken");
    assert_eq!(BlogPostError::TakenTitle.message(), "Title is already taken");
    assert_eq!(AuthError::InvalidCredentials("x".to_string()).message(), "Invalid credentials");
    assert_eq!(AuthError::UnexpectedError("boom".to_string()).message(), "boom");
}

fn stored() -> StoredCredentials {
    StoredCredentials {
        name: "ann".to_string(),
        password: "h(secret)".to_string(),
        salt: "s".to_string(),
        user_id: "id-1".to_string(),
    }
}

#[test]
fn credentials_hold_only_with_the_stored_hash() {
    assert_eq!(validate_credentials(Some(stored()), &"h(secret)".to_string()).unwrap(), "id-1");
    match validate_credentials(Some(stored()), &"h(wrong)".to_string()) {
        Err(AuthError::InvalidCredentials(m)) => assert_eq!(m, "Passwords don't match"),
        other => panic!("unexpected {:?}", other),
    }
    match validate_credentials(None, &"h(secret)".to_string()) {
        Err(AuthError::InvalidCredentials(m)) => assert_eq!(m, "No user with such name found"),
        other => panic!("unexpected {:?}", other),
    }
}

fn ann() -> User {
    User {
        id: "id-1".to_string(),
        name: "ann".to_string(),
        email: "a@x".to_string(),
        created_at: "".to_string(),
        password: "old".to_string(),
        password_salt: "s".to_string(),
        is_banned: false,
        role: "user".to_string(),
    }
}

#[test]
fn password_and_name_changes_touch_one_field() {
    let c = change_password(&Some(ann()), "new-hash".to_string()).unwrap();
    assert_eq!(c.id, "id-1");
    assert_eq!(c.password, Some("new-hash".to_string()));
    assert!(c.name.is_none() && c.email.is_none() && c.password_salt.is_none() && c.is_banned.is_none());
    assert_eq!(change_password(&None, "x".to_string()).unwrap_err(), "Failed to get user with given name");

    let c = change_name(&Some(ann()), &"anna".to_string()).unwrap();
    assert_eq!(c.name, Some("anna".to_string()));
    assert!(c.password.is_none());
    assert_eq!(change_name(&None, &"x".to_string()).unwrap_err(), "Failed to get user with given name");
}

#[test]
fn new_rows() {
    let p = new_blog_post_row(
        &NewBlogPost {
            author_id: "a".to_string(),
            title: "T".to_string(),
            brief: "B".to_string(),
            contents: "C".to_string(),
        },
        "id".to_string(),
        "123".to_string(),
    );
    assert_eq!((p.id.as_str(), p.title.as_str(), p.visibility.as_str(), p.created_at.as_str()), ("id", "T", "all", "123"));

    let c = new_comment_row(
        &NewComment {
            author_id: "a".to_string(),
            post_id: "p".to_string(),
            parent_id: Some("q".to_string()),
            contents: "hi".to_string(),
        },
        "c1".to_string(),
        "now".to_string(),
    );
    assert_eq!(c.reply_to_id, Some("q".to_string()));
    assert_eq!((c.created_at.as_str(), c.updated_at.as_str()), ("now", "now"));
    assert!(!c.is_deleted);

    let pr = new_project_row(
        &NewProject {
            title: "P".to_string(),
            brief: "b".to_string(),
            author_id: "a".to_string(),
            visibility: "all".to_string(),
        },
        "pid".to_string(),
    );
    assert_eq!((pr.id.as_str(), pr.title.as_str(), pr.author_id.as_str()), ("pid", "P", "a"));
}

#[test]
fn decimal_notation() {
    assert_eq!(decimal_string(0), "0");
    assert_eq!(decimal_string(7), "7");
    assert_eq!(decimal_string(10), "10");
    assert_eq!(decimal_string(1650000000123), "1650000000123");
    assert_eq!(decimal_string(u128::MAX), u128::MAX.to_string());
}

#[test]
fn error_chains() {
    assert_eq!(error_chain_fmt("Something went wrong", &vec![]), "Something went wrong\n\n");
    assert_eq!(
        error_chain_fmt("Invalid name", &vec!["too long".to_string(), "x".to_string()]),
        "Invalid name\n\nCaused by:\n\ttoo long\nCaused by:\n\tx\n"
    );
}

#[test]
fn placeholder_addresses() {
    assert_eq!(holosite::services::placeholder_email("abc"), "abc@email.com");
}

#[test]
fn current_time_is_milliseconds_since_the_epoch() {
    let before = std::time::SystemTime::now()
        .duration_since(std::time::UNIX_EPOCH)
        .unwrap()
        .as_millis();
    let s = holosite::services::get_current_time_str().unwrap();
    let after = std::time::SystemTime::now()
        .duration_since(std::time::UNIX_EPOCH)
        .unwrap()
        .as_millis();
    assert!(s.chars().all(|c| c.is_ascii_digit()));
    let ms: u128 = s.parse().unwrap();
    assert!(before <= ms && ms <= after);
}

#[test]
fn new_user_rows() {
    let u = new_user_row(
        &"ann".to_string(),
        "uid".to_string(),
        "tok",
        "now".to_string(),
        "hashed".to_string(),
        "salt".to_string(),
    );
    assert_eq!(
        (u.id.as_str(), u.name.as_str(), u.email.as_str(), u.created_at.as_str()),
        ("uid", "ann", "tok@email.com", "now")
    );
    assert_eq!((u.password.as_str(), u.password_salt.as_str()), ("hashed", "salt"));
    assert!(!u.is_banned);
    assert_eq!(u.role, "user");
}

#[test]
fn a_registered_user_can_log_in() {
    let mut users = vec![new_user_row(
        &"bob".to_string(),
        "b".to_string(),
        "t1",
        "now".to_string(),
        "h-bob".to_string(),
        "s1".to_string(),
    )];
    users.push(new_user_row(
        &"ann".to_string(),
        "a".to_string(),
        "t2",
        "now".to_string(),
        "h-ann".to_string(),
        "s2".to_string(),
    ));
    let stored = get_stored_credentials(&users, &"ann".to_string());
    assert_eq!(stored.as_ref().unwrap().salt, "s2");
    assert_eq!(validate_credentials(stored, &"h-ann".to_string()).unwrap(), "a");
}
