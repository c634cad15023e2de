//! The site's errors, what each one says, and how a storage failure becomes
//! one of them.

use vstd::prelude::*;
use crate::text::{contains_text, str_contains};

verus! {

/// A failure reported by storage: a broken uniqueness constraint, with the
/// database's message, or anything else, with its description.
#[derive(Debug)]
pub enum DatabaseError {
    UniqueViolation(String),
    Other(String),
}

impl DatabaseError {
    /// The description of the failure.
    pub fn description(&self) -> (r: String)
        ensures
            r@ == self.description_text(),
    {
        match self {
            DatabaseError::UniqueViolation(m) => m.clone(),
            DatabaseError::Other(m) => m.clone(),
        }
    }

    /// The description of the failure.
    pub open spec fn description_text(&self) -> Seq<char> {
        match self {
            DatabaseError::UniqueViolation(m) => m@,
            DatabaseError::Other(m) => m@,
        }
    }
}

/// Failures when storing a user.
#[derive(Debug)]
pub enum UserError {
    TakenName,
    TakenEmail,
    UnexpectedError(String),
}

/// What a `UserError` says.
pub open spec fn user_error_message(e: UserError) -> Seq<char> {
    match e {
        UserError::TakenName => "Name is already taken"@,
        UserError::TakenEmail => "Email is already taken"@,
        UserError::UnexpectedError(_) => "Something went wrong"@,
    }
}

impl UserError {
    /// What the error says.
    pub fn message(&self) -> (r: &'static str)
        ensures
            r@ == user_error_message(*self),
    {
        match self {
            UserError::TakenName => "Name is already taken",
            UserError::TakenEmail => "Email is already taken",
            UserError::UnexpectedError(_) => "Something went wrong",
        }
    }
}

/// How a storage failure on the `users` table reads: a uniqueness violation
/// whose message mentions `name` is a taken name, else one that mentions
/// `email` is a taken email; anything else is unexpected.
pub open spec fn user_error_for(e: DatabaseError) -> UserError {
    match e {
        DatabaseError::UniqueViolation(m) => if contains_text(m@, "name"@) {
            UserError::TakenName
        } else if contains_text(m@, "email"@) {
            UserError::TakenEmail
        } else {
            UserError::UnexpectedError(m)
        },
        DatabaseError::Other(m) => UserError::UnexpectedError(m),
    }
}

/// Turns a storage failure on the `users` table into a `UserError`.
pub fn get_user_error_from_database_error(e: DatabaseError) -> (r: UserError)
    ensures
        r == user_error_for(e),
{
    match e {
        DatabaseError::UniqueViolation(m) => {
            if str_contains(m.as_str(), "name") {
                UserError::TakenName
            } else if str_contains(m.as_str(), "email") {
                UserError::TakenEmail
            } else {
                UserError::UnexpectedError(m)
            }
        },
        DatabaseError::Other(m) => UserError::UnexpectedError(m),
    }
}

/// Failures when storing a blog post.
#[derive(Debug)]
pub enum BlogPostError {
    TakenTitle,
    UnexpectedError(String),
}

impl BlogPostError {
    /// What the error says.
    pub fn message(&self) -> (r: &'static str)
        ensures
            r@ == (match self {
                BlogPostError::TakenTitle => "Title is already taken"@,
                BlogPostError::UnexpectedError(_) => "Something went wrong"@,
            }),
    {
        match self {
            BlogPostError::TakenTitle => "Title is already taken",
            BlogPostError::UnexpectedError(_) => "Something went wrong",
        }
    }
}

/// How a storage failure on the `blog_posts` table reads: a uniqueness
/// violation whose message mentions `title` is a taken title.
pub open spec fn blog_post_error_for(e: DatabaseError) -> BlogPostError {
    match e {
        DatabaseError::UniqueViolation(m) => if contains_text(m@, "title"@) {
            BlogPostError::TakenTitle
        } else {
            BlogPostError::UnexpectedError(m)
        },
        DatabaseError::Other(m) => BlogPostError::UnexpectedError(m),
    }
}

/// Turns a storage failure on the `blog_posts` table into a `BlogPostError`.
pub fn get_blog_post_error_error_from_database_error(e: DatabaseError) -> (r: BlogPostError)
    ensures
        r == blog_post_error_for(e),
{
    match e {
        DatabaseError::UniqueViolation(m) => {
            if str_contains(m.as_str(), "title") {
                BlogPostError::TakenTitle
            } else {
                BlogPostError::UnexpectedError(m)
            }
        },
        DatabaseError::Other(m) => BlogPostError::UnexpectedError(m),
    }
}

/// Failures when storing a project.
#[derive(Debug)]
pub enum ProjectError {
    TakenTitle,
    UnexpectedError(String),
}

impl ProjectError {
    /// What the error says.
    pub fn message(&self) -> (r: &'static str)
        ensures
            r@ == (match self {
                ProjectError::TakenTitle => "Title is already taken"@,
                ProjectError::UnexpectedError(_) => "Something went wrong"@,
            }),
    {
        match self {
            ProjectError::TakenTitle => "Title is already taken",
            ProjectError::UnexpectedError(_) => "Something went wrong",
        }
    }
}

/// How a storage failure on the `projects` table reads: a uniqueness
/// violation whose message mentions `title` is a taken title.
pub open spec fn project_error_for(e: DatabaseError) -> ProjectError {
    match e {
        DatabaseError::UniqueViolation(m) => if contains_text(m@, "title"@) {
            ProjectError::TakenTitle
        } else {
            ProjectError::UnexpectedError(m)
        },
        DatabaseError::Other(m) => ProjectError::UnexpectedError(m),
    }
}

/// Turns a storage failure on the `projects` table into a `ProjectError`.
pub fn get_project_error_from_database_error(e: DatabaseError) -> (r: ProjectError)
    ensures
        r == project_error_for(e),
{
    match e {
        DatabaseError::UniqueViolation(m) => {
            if str_contains(m.as_str(), "title") {
                ProjectError::TakenTitle
            } else {
                ProjectError::UnexpectedError(m)
            }
        },
        DatabaseError::Other(m) => ProjectError::UnexpectedError(m),
    }
}

/// Failures when checking a name and password.
#[derive(Debug)]
pub enum AuthError {
    /// The name or the password is wrong; the text says which.
    InvalidCredentials(String),
    /// Anything else, with its description.
    UnexpectedError(String),
}

/// What an `AuthError` says (an unexpected error says what its cause says).
pub open spec fn auth_error_message(e: AuthError) -> Seq<char> {
    match e {
        AuthError::InvalidCredentials(_) => "Invalid credentials"@,
        AuthError::UnexpectedError(m) => m@,
    }
}

/// The descriptions of an `AuthError` and of its causes, outermost first.
/// An unexpected error describes itself by its cause alone.
pub open spec fn auth_error_chain(e: AuthError) -> Seq<Seq<char>> {
    match e {
        AuthError::InvalidCredentials(m) => seq!["Invalid credentials"@, m@],
        AuthError::UnexpectedError(m) => seq![m@],
    }
}

impl AuthError {
    /// What the error says (an unexpected error says what its cause says).
    pub fn message(&self) -> (r: String)
        ensures
            r@ == auth_error_message(*self),
    {
        match self {
            AuthError::InvalidCredentials(_) => String::from_str("Invalid credentials"),
            AuthError::UnexpectedError(m) => m.clone(),
        }
    }
}

/// Failures of a name change.
#[derive(Debug)]
pub enum ChangeNameError {
    InvalidCurrentPassword(String),
    TakenName,
    InvalidName(String),
    UnexpectedError(String),
}

impl ChangeNameError {
    /// What the error says.
    pub fn message(&self) -> (r: &'static str)
        ensures
            r@ == (match self {
                ChangeNameError::InvalidCurrentPassword(_) => "Current password is invalid"@,
                ChangeNameError::TakenName => "Taken name"@,
                ChangeNameError::InvalidName(_) => "Invalid name"@,
                ChangeNameError::UnexpectedError(_) => "Something went wrong"@,
            }),
    {
        match self {
            ChangeNameError::InvalidCurrentPassword(_) => "Current password is invalid",
            ChangeNameError::TakenName => "Taken name",
            ChangeNameError::InvalidName(_) => "Invalid name",
            ChangeNameError::UnexpectedError(_) => "Something went wrong",
        }
    }
}

/// Failures of a password change.
#[derive(Debug)]
pub enum ChangePasswordError {
    RepeatPasswordDoesntMatch,
    InvalidCurrentPassword(String),
    InvalidNewPassword(String),
    UnexpectedError(String),
}

impl ChangePasswordError {
    /// What the error says.
    pub fn message(&self) -> (r: &'static str)
        ensures
            r@ == (match self {
                ChangePasswordError::RepeatPasswordDoesntMatch =>
                    "Repeat password does not match new password"@,
                ChangePasswordError::InvalidCurrentPassword(_) => "Current password is incorrect"@,
                ChangePasswordError::InvalidNewPassword(_) => "New password is invalid"@,
                ChangePasswordError::UnexpectedError(_) => "Something went wrong"@,
            }),
    {
        match self {
            ChangePasswordError::RepeatPasswordDoesntMatch =>
                "Repeat password does not match new password",
            ChangePasswordError::InvalidCurrentPassword(_) => "Current password is incorrect",
            ChangePasswordError::InvalidNewPassword(_) => "New password is invalid",
            ChangePasswordError::UnexpectedError(_) => "Something went wrong",
        }
    }
}

/// Failures of a login.
#[derive(Debug)]
pub enum LoginError {
    InvalidName(String),
    InvalidPassword(String),
    /// The credentials were refused; the check's own error is the cause.
    AuthError(AuthError),
    UnexpectedError(String),
}

impl LoginError {
    /// What the error says.
    pub fn message(&self) -> (r: &'static str)
        ensures
            r@ == (match self {
                LoginError::InvalidName(_) => "Invalid name"@,
                LoginError::InvalidPassword(_) => "Invalid password"@,
                LoginError::AuthError(_) => "Authentication failed"@,
                LoginError::UnexpectedError(_) => "Something went wrong"@,
            }),
    {
        match self {
            LoginError::InvalidName(_) => "Invalid name",
            LoginError::InvalidPassword(_) => "Invalid password",
            LoginError::AuthError(_) => "Authentication failed",
            LoginError::UnexpectedError(_) => "Something went wrong",
        }
    }
}

/// Failures of a registration.
#[derive(Debug)]
pub enum RegistrationError {
    InvalidName(String),
    TakenName,
    InvalidPassword(String),
    PasswordsDontMatch,
    UnexpectedError(String),
}

impl RegistrationError {
    /// What the error says.
    pub fn message(&self) -> (r: &'static str)
        ensures
            r@ == (match self {
                RegistrationError::InvalidName(_) => "Invalid name"@,
                RegistrationError::TakenName => "Name is already taken"@,
                RegistrationError::InvalidPassword(_) => "Invalid password"@,
                RegistrationError::PasswordsDontMatch => "Passwords don't match"@,
                RegistrationError::UnexpectedError(_) => "Something went wrong"@,
            }),
    {
        match self {
            RegistrationError::InvalidName(_) => "Invalid name",
            RegistrationError::TakenName => "Name is already taken",
            RegistrationError::InvalidPassword(_) => "Invalid password",
            RegistrationError::PasswordsDontMatch => "Passwords don't match",
            RegistrationError::UnexpectedError(_) => "Something went wrong",
        }
    }
}

/// Failures when editing or deleting a comment.
#[derive(Debug)]
pub enum EditCommentError {
    CSRFError,
    CantChangeOthersComment,
    UnexpectedError(String),
}

impl EditCommentError {
    /// What the error says.
    pub fn message(&self) -> (r: &'static str)
        ensures
            r@ == (match self {
                EditCommentError::CSRFError => "Invalid CSRF token"@,
                EditCommentError::CantChangeOthersComment => "Can't change others comment"@,
                EditCommentError::UnexpectedError(_) => "Something went wrong"@,
            }),
    {
        match self {
            EditCommentError::CSRFError => "Invalid CSRF token",
            EditCommentError::CantChangeOthersComment => "Can't change others comment",
            EditCommentError::UnexpectedError(_) => "Something went wrong",
        }
    }
}

} // verus!
