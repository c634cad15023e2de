//! Rows of the site's tables and the values handed between the request
//! handlers and storage.

use vstd::prelude::*;

verus! {

/// Identifier of a user (a row of the `users` table).
pub type UserID = String;

/// Identifier of a blog post.
pub type BlogPostID = String;

/// Identifier of a comment.
pub type CommentID = String;

/// Identifier of a project.
pub type ProjectID = String;

/// A copy of an optional text.
pub fn copy_opt_text(o: &Option<String>) -> (r: Option<String>)
    ensures
        r == *o,
{
    match o {
        Some(s) => Some(s.clone()),
        None => None,
    }
}

/// A row of the `users` table.
#[derive(Debug)]
pub struct User {
    pub id: UserID,
    pub name: String,
    pub email: String,
    pub created_at: String,
    pub password: String,
    pub password_salt: String,
    pub is_banned: bool,
    pub role: String,
}

impl Clone for User {
    fn clone(&self) -> (r: Self)
        ensures
            r == *self,
    {
        User {
            id: self.id.clone(),
            name: self.name.clone(),
            email: self.email.clone(),
            created_at: self.created_at.clone(),
            password: self.password.clone(),
            password_salt: self.password_salt.clone(),
            is_banned: self.is_banned,
            role: self.role.clone(),
        }
    }
}

/// What login needs of a user: name, password hash, salt and id.
#[derive(Debug)]
pub struct StoredCredentials {
    pub name: String,
    pub password: String,
    pub salt: String,
    pub user_id: UserID,
}

impl Clone for StoredCredentials {
    fn clone(&self) -> (r: Self)
        ensures
            r == *self,
    {
        StoredCredentials {
            name: self.name.clone(),
            password: self.password.clone(),
            salt: self.salt.clone(),
            user_id: self.user_id.clone(),
        }
    }
}

/// A row of the `blog_posts` table.
#[derive(Debug)]
pub struct BlogPost {
    pub id: BlogPostID,
    pub title: String,
    pub brief: String,
    pub contents: String,
    pub author_id: UserID,
    pub created_at: String,
    pub visibility: String,
}

impl Clone for BlogPost {
    fn clone(&self) -> (r: Self)
        ensures
            r == *self,
    {
        BlogPost {
            id: self.id.clone(),
            title: self.title.clone(),
            brief: self.brief.clone(),
            contents: self.contents.clone(),
            author_id: self.author_id.clone(),
            created_at: self.created_at.clone(),
            visibility: self.visibility.clone(),
        }
    }
}

/// A row of the `comments` table.
#[derive(Debug)]
pub struct Comment {
    pub id: CommentID,
    pub contents: String,
    pub author_id: UserID,
    pub post_id: BlogPostID,
    pub reply_to_id: Option<CommentID>,
    pub created_at: String,
    pub updated_at: String,
    pub is_deleted: bool,
}

impl Clone for Comment {
    fn clone(&self) -> (r: Self)
        ensures
            r == *self,
    {
        Comment {
            id: self.id.clone(),
            contents: self.contents.clone(),
            author_id: self.author_id.clone(),
            post_id: self.post_id.clone(),
            reply_to_id: copy_opt_text(&self.reply_to_id),
            created_at: self.created_at.clone(),
            updated_at: self.updated_at.clone(),
            is_deleted: self.is_deleted,
        }
    }
}

/// A comment joined with the name of its author.
#[derive(Debug)]
pub struct CommentView {
    pub id: CommentID,
    pub contents: String,
    pub author_name: String,
    pub post_id: BlogPostID,
    pub reply_to_id: Option<CommentID>,
    pub created_at: String,
    pub updated_at: String,
    pub is_deleted: bool,
}

/// A row of the `projects` table.
#[derive(Debug)]
pub struct Project {
    pub id: ProjectID,
    pub title: String,
    pub brief: String,
    pub author_id: UserID,
    pub visibility: String,
}

impl Clone for Project {
    fn clone(&self) -> (r: Self)
        ensures
            r == *self,
    {
        Project {
            id: self.id.clone(),
            title: self.title.clone(),
            brief: self.brief.clone(),
            author_id: self.author_id.clone(),
            visibility: self.visibility.clone(),
        }
    }
}

/// A row of the `project_editor_junctions` table.
#[derive(Debug)]
pub struct ProjectEditor {
    pub project_id: ProjectID,
    pub user_id: UserID,
}

/// A row of the `project_blog_post_junctions` table.
#[derive(Debug)]
pub struct ProjectBlogPost {
    pub project_id: ProjectID,
    pub post_id: BlogPostID,
}

/// Changes to a user: each field that is `Some` is set.
#[derive(Debug)]
pub struct UpdateUser {
    pub id: UserID,
    pub name: Option<String>,
    pub email: Option<String>,
    pub password: Option<String>,
    pub password_salt: Option<String>,
    pub is_banned: Option<bool>,
}

/// Changes to a blog post: each field that is `Some` is set.
#[derive(Debug)]
pub struct UpdateBlogPost {
    pub id: BlogPostID,
    pub title: Option<String>,
    pub brief: Option<String>,
    pub contents: Option<String>,
}

/// Changes to a comment: each field that is `Some` is set.
#[derive(Debug)]
pub struct UpdateComment {
    pub id: CommentID,
    pub contents: Option<String>,
    pub is_deleted: Option<bool>,
}

/// A blog post as submitted by its author.
#[derive(Debug)]
pub struct NewBlogPost {
    pub author_id: UserID,
    pub title: String,
    pub brief: String,
    pub contents: String,
}

/// A comment as submitted by its author; `parent_id` is the comment it
/// answers, if any.
#[derive(Debug)]
pub struct NewComment {
    pub author_id: UserID,
    pub post_id: BlogPostID,
    pub parent_id: Option<CommentID>,
    pub contents: String,
}

/// A project as submitted by its author.
#[derive(Debug)]
pub struct NewProject {
    pub title: String,
    pub brief: String,
    pub author_id: UserID,
    pub visibility: String,
}

/// Which slice of a listing to show: `size` rows, starting after `number`
/// slices of that size.
#[derive(Debug)]
pub struct Page {
    pub number: usize,
    pub size: usize,
}

} // verus!
