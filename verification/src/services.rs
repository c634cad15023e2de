//! What the storage services decide around their reads and writes: whether
//! credentials hold, which changes a password or name change makes, and the
//! rows that new posts, comments and projects become.

use vstd::prelude::*;
use crate::model::{
    User, StoredCredentials, UpdateUser, BlogPost, NewBlogPost, Comment, NewComment, Project,
    NewProject, UserID, BlogPostID, CommentID, ProjectID, copy_opt_text,
};
use crate::errors::AuthError;
use crate::text::{decimal, decimal_string};

verus! {

/// What checking a login against stored credentials gives: the user's id
/// when the offered password, hashed with the stored salt, is the stored
/// one; otherwise why not.
pub open spec fn credentials_check(stored: Option<StoredCredentials>, hashed_password: Seq<char>) -> Result<
    Seq<char>,
    Seq<char>,
> {
    match stored {
        None => Err("No user with such name found"@),
        Some(s) => if hashed_password == s.password@ {
            Ok(s.user_id@)
        } else {
            Err("Passwords don't match"@)
        },
    }
}

/// Checks a login against the stored credentials of the user of that name
/// (`None` when there is no such user). `hashed_password` is the offered
/// password hashed with the stored salt. On success the user's id is
/// returned; otherwise the error says whether the user or the password was
/// wrong.
pub fn validate_credentials(stored: Option<StoredCredentials>, hashed_password: &String) -> (r: Result<
    UserID,
    AuthError,
>)
    ensures
        match credentials_check(stored, hashed_password@) {
            Ok(id) => r matches Ok(v) && v@ == id,
            Err(m) => r matches Err(AuthError::InvalidCredentials(t)) && t@ == m,
        },
        match stored {
            None => r matches Err(AuthError::InvalidCredentials(m)) && m@
                == "No user with such name found"@,
            Some(s) => if hashed_password@ == s.password@ {
                r == Ok::<UserID, AuthError>(s.user_id)
            } else {
                r matches Err(AuthError::InvalidCredentials(m)) && m@ == "Passwords don't match"@
            },
        },
{
    match stored {
        Some(s) => {
            if *hashed_password == s.password {
                Ok(s.user_id)
            } else {
                Err(AuthError::InvalidCredentials(String::from_str("Passwords don't match")))
            }
        },
        None => Err(AuthError::InvalidCredentials(String::from_str("No user with such name found"))),
    }
}

/// The changes that set the password of user `user_id` to `hashed_password`
/// (hashed with that user's own salt), and nothing else.
pub fn password_changes(user_id: &UserID, hashed_password: String) -> (r: UpdateUser)
    ensures
        r == (UpdateUser {
            id: *user_id,
            name: None,
            email: None,
            password: Some(hashed_password),
            password_salt: None,
            is_banned: None,
        }),
{
    UpdateUser {
        id: user_id.clone(),
        name: None,
        email: None,
        password: Some(hashed_password),
        password_salt: None,
        is_banned: None,
    }
}

/// The changes that set a user's password to `hashed_password` (hashed with
/// the user's own salt), and nothing else. Fails when the user was not found.
pub fn change_password(user: &Option<User>, hashed_password: String) -> (r: Result<UpdateUser, String>)
    ensures
        match user {
            None => r matches Err(m) && m@ == "Failed to get user with given name"@,
            Some(u) => r == Ok::<UpdateUser, String>(
                UpdateUser {
                    id: u.id,
                    name: None,
                    email: None,
                    password: Some(hashed_password),
                    password_salt: None,
                    is_banned: None,
                },
            ),
        },
{
    match user {
        Some(u) => Ok(password_changes(&u.id, hashed_password)),
        None => Err(String::from_str("Failed to get user with given name")),
    }
}

/// The changes that rename a user to `new_name`, and nothing else. Fails
/// when the user was not found.
pub fn change_name(user: &Option<User>, new_name: &String) -> (r: Result<UpdateUser, String>)
    ensures
        match user {
            None => r matches Err(m) && m@ == "Failed to get user with given name"@,
            Some(u) => r == Ok::<UpdateUser, String>(
                UpdateUser {
                    id: u.id,
                    name: Some(*new_name),
                    email: None,
                    password: None,
                    password_salt: None,
                    is_banned: None,
                },
            ),
        },
{
    match user {
        Some(u) => Ok(
            UpdateUser {
                id: u.id.clone(),
                name: Some(new_name.clone()),
                email: None,
                password: None,
                password_salt: None,
                is_banned: None,
            },
        ),
        None => Err(String::from_str("Failed to get user with given name")),
    }
}

/// The address a new user is registered with until they give one:
/// `{token}@email.com`, with a fresh random token.
pub fn placeholder_email(token: &str) -> (r: String)
    ensures
        r@ == token@ + "@email.com"@,
{
    let mut r = String::new();
    r.append(token);
    r.append("@email.com");
    r
}

/// The row a new user is stored as: the fresh `id`, the name, the address
/// `{email_token}@email.com` until they give one, the creation time, the
/// password hashed with `salt` and that salt; not banned, with the role
/// `user`.
pub fn new_user_row(
    name: &String,
    id: UserID,
    email_token: &str,
    created_at: String,
    hashed_password: String,
    salt: String,
) -> (r: User)
    ensures
        r.id == id,
        r.name == *name,
        r.email@ == email_token@ + "@email.com"@,
        r.created_at == created_at,
        r.password == hashed_password,
        r.password_salt == salt,
        !r.is_banned,
        r.role@ == "user"@,
{
    User {
        id,
        name: name.clone(),
        email: placeholder_email(email_token),
        created_at,
        password: hashed_password,
        password_salt: salt,
        is_banned: false,
        role: String::from_str("user"),
    }
}

/// The row a new blog post is stored as: the submitted fields, the fresh
/// `id`, the creation time, and visibility `all`.
pub fn new_blog_post_row(new_blog_post: &NewBlogPost, id: BlogPostID, created_at: String) -> (r:
    BlogPost)
    ensures
        r.id == id,
        r.title == new_blog_post.title,
        r.brief == new_blog_post.brief,
        r.contents == new_blog_post.contents,
        r.author_id == new_blog_post.author_id,
        r.created_at == created_at,
        r.visibility@ == "all"@,
{
    BlogPost {
        id,
        title: new_blog_post.title.clone(),
        brief: new_blog_post.brief.clone(),
        contents: new_blog_post.contents.clone(),
        author_id: new_blog_post.author_id.clone(),
        created_at,
        visibility: String::from_str("all"),
    }
}

/// The row a new comment is stored as: the submitted fields, the fresh `id`,
/// created and updated at `time`, not deleted.
pub fn new_comment_row(new_comment: &NewComment, id: CommentID, time: String) -> (r: Comment)
    ensures
        r == (Comment {
            id,
            contents: new_comment.contents,
            author_id: new_comment.author_id,
            post_id: new_comment.post_id,
            reply_to_id: new_comment.parent_id,
            created_at: time,
            updated_at: time,
            is_deleted: false,
        }),
{
    Comment {
        id,
        contents: new_comment.contents.clone(),
        author_id: new_comment.author_id.clone(),
        post_id: new_comment.post_id.clone(),
        reply_to_id: copy_opt_text(&new_comment.parent_id),
        created_at: time.clone(),
        updated_at: time,
        is_deleted: false,
    }
}

/// The row a new project is stored as: the submitted fields and the fresh
/// `id`. (Its author is then recorded as its first editor.)
pub fn new_project_row(new_project: &NewProject, id: ProjectID) -> (r: Project)
    ensures
        r == (Project {
            id,
            title: new_project.title,
            brief: new_project.brief,
            author_id: new_project.author_id,
            visibility: new_project.visibility,
        }),
{
    Project {
        id,
        title: new_project.title.clone(),
        brief: new_project.brief.clone(),
        author_id: new_project.author_id.clone(),
        visibility: new_project.visibility.clone(),
    }
}

/// A reading of the standard library's clock.
#[verifier::external_type_specification]
#[verifier::external_body]
pub struct ExSystemTime(std::time::SystemTime);

/// The clock's current time (std `SystemTime::now`). Nothing is stated of
/// it: it is whatever the machine's clock reads.
#[verifier::external_body]
fn system_time_now() -> std::time::SystemTime {
    std::time::SystemTime::now()
}

/// The time from the Unix epoch to `t` (std `SystemTime::duration_since`
/// with `UNIX_EPOCH`), or `None` when `t` lies before the epoch. Nothing is
/// stated of the span: neither value can be read here.
#[verifier::external_body]
fn duration_since_epoch(t: &std::time::SystemTime) -> Option<std::time::Duration> {
    t.duration_since(std::time::UNIX_EPOCH).ok()
}

/// The whole milliseconds in `d` (std `Duration::as_millis`). Nothing is
/// stated of the number: the span cannot be read here.
#[verifier::external_body]
fn duration_as_millis(d: &std::time::Duration) -> u128 {
    d.as_millis()
}

/// The current time as rows store it: the whole milliseconds since the Unix
/// epoch, in decimal. `None` when the clock reads a time before the epoch.
pub fn get_current_time_str() -> (r: Option<String>)
    ensures
        r matches Some(s) ==> exists|ms: u128| s@ == #[trigger] decimal(ms as nat),
{
    let now = system_time_now();
    match duration_since_epoch(&now) {
        Some(d) => Some(decimal_string(duration_as_millis(&d))),
        None => None,
    }
}

} // verus!
