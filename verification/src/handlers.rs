//! The smaller decisions of the request handlers: who may change a comment,
//! which changes an edit makes, how a failed rename reads, and what the
//! pages show.

use vstd::prelude::*;
use crate::model::{
    Comment, UpdateComment, UpdateBlogPost, BlogPost, UserID, CommentID, BlogPostID,
};
use crate::errors::{EditCommentError, ChangeNameError, UserError, user_error_message};

verus! {

/// Whether a comment may be edited: the form's CSRF token must be the
/// session's, and a comment that exists must be the current user's own.
/// (A comment that does not exist is left to the update, which changes
/// nothing.)
pub fn authorize_comment_edit(
    csrf_token: &String,
    session_csrf_token: &String,
    comment: &Option<Comment>,
    current_user_id: &UserID,
) -> (r: Result<(), EditCommentError>)
    ensures
        csrf_token@ != session_csrf_token@ ==> r matches Err(EditCommentError::CSRFError),
        csrf_token@ == session_csrf_token@ ==> match comment {
            Some(c) => if c.author_id@ != current_user_id@ {
                r matches Err(EditCommentError::CantChangeOthersComment)
            } else {
                r is Ok
            },
            None => r is Ok,
        },
{
    if *csrf_token != *session_csrf_token {
        return Err(EditCommentError::CSRFError);
    }
    authorize_comment_delete(comment, current_user_id)
}

/// Whether a comment may be deleted: a comment that exists must be the
/// current user's own.
pub fn authorize_comment_delete(comment: &Option<Comment>, current_user_id: &UserID) -> (r: Result<
    (),
    EditCommentError,
>)
    ensures
        match comment {
            Some(c) => if c.author_id@ != current_user_id@ {
                r matches Err(EditCommentError::CantChangeOthersComment)
            } else {
                r is Ok
            },
            None => r is Ok,
        },
{
    match comment {
        Some(c) => {
            if c.author_id != *current_user_id {
                Err(EditCommentError::CantChangeOthersComment)
            } else {
                Ok(())
            }
        },
        None => Ok(()),
    }
}

/// The changes of an edit of a comment: new contents, deletion untouched.
pub fn comment_edit_changes(comment_id: &CommentID, contents: &String) -> (r: UpdateComment)
    ensures
        r == (UpdateComment { id: *comment_id, contents: Some(*contents), is_deleted: None }),
{
    UpdateComment { id: comment_id.clone(), contents: Some(contents.clone()), is_deleted: None }
}

/// The changes of a deletion of a comment: marked deleted, contents kept.
pub fn comment_delete_changes(comment_id: &CommentID) -> (r: UpdateComment)
    ensures
        r == (UpdateComment { id: *comment_id, contents: None, is_deleted: Some(true) }),
{
    UpdateComment { id: comment_id.clone(), contents: None, is_deleted: Some(true) }
}

/// The changes of an edit of a blog post: title, brief and contents.
pub fn blog_post_edit_changes(
    blog_post_id: &BlogPostID,
    title: &String,
    brief: &String,
    contents: &String,
) -> (r: UpdateBlogPost)
    ensures
        r == (UpdateBlogPost {
            id: *blog_post_id,
            title: Some(*title),
            brief: Some(*brief),
            contents: Some(*contents),
        }),
{
    UpdateBlogPost {
        id: blog_post_id.clone(),
        title: Some(title.clone()),
        brief: Some(brief.clone()),
        contents: Some(contents.clone()),
    }
}

/// How a failed rename reads: a taken name is reported as such, anything
/// else is unexpected (and says what the storage error says).
pub fn change_name_error_from_user_error(e: UserError) -> (r: ChangeNameError)
    ensures
        match e {
            UserError::TakenName => r matches ChangeNameError::TakenName,
            _ => r matches ChangeNameError::UnexpectedError(m) && m@ == user_error_message(e),
        },
{
    match e {
        UserError::TakenName => ChangeNameError::TakenName,
        _ => ChangeNameError::UnexpectedError(String::from_str(e.message())),
    }
}

/// A user's page links to the account page when the visitor is that user.
pub fn shows_account_link(current_user_id: &Option<UserID>, user_id: &UserID) -> (r: bool)
    ensures
        r == (match current_user_id {
            Some(c) => c@ == user_id@,
            None => false,
        }),
{
    match current_user_id {
        Some(c) => *c == *user_id,
        None => false,
    }
}

/// What the edit form shows of a blog post.
pub struct BlogPostDisplay<'a> {
    pub title: &'a str,
    pub brief: &'a str,
    pub contents: &'a str,
}

impl<'a> BlogPostDisplay<'a> {
    /// Shows the post's title, brief and contents.
    pub fn new(b: &'a BlogPost) -> (r: Self)
        ensures
            r.title@ == b.title@,
            r.brief@ == b.brief@,
            r.contents@ == b.contents@,
    {
        BlogPostDisplay {
            title: b.title.as_str(),
            brief: b.brief.as_str(),
            contents: b.contents.as_str(),
        }
    }

}

impl Default for BlogPostDisplay<'static> {
    /// The empty form of a new post: `Untitled`, with no brief and no
    /// contents.
    fn default() -> (r: Self)
        ensures
            r.title@ == "Untitled"@,
            r.brief@ == ""@,
            r.contents@ == ""@,
    {
        BlogPostDisplay { title: "Untitled", brief: "", contents: "" }
    }
}

} // verus!
