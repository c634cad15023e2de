//! Where the request handlers send the browser, and what they flash.

use vstd::prelude::*;

verus! {

/// The anchor of a comment on its blog post's page:
/// `/blog_posts/{post_id}/view#comment-{comment_id}`.
pub fn comment_location(post_id: &str, comment_id: &str) -> (r: String)
    ensures
        r@ == "/blog_posts/"@ + post_id@ + "/view#comment-"@ + comment_id@,
{
    let mut r = String::new();
    r.append("/blog_posts/");
    r.append(post_id);
    r.append("/view#comment-");
    r.append(comment_id);
    r
}

/// The page of a blog post: `/blog_posts/{id}`.
pub fn blog_post_location(id: &str) -> (r: String)
    ensures
        r@ == "/blog_posts/"@ + id@,
{
    let mut r = String::new();
    r.append("/blog_posts/");
    r.append(id);
    r
}

/// The edit form of a blog post: `/blog_posts/{id}/edit`.
pub fn edit_blog_post_location(id: &str) -> (r: String)
    ensures
        r@ == "/blog_posts/"@ + id@ + "/edit"@,
{
    let mut r = String::new();
    r.append("/blog_posts/");
    r.append(id);
    r.append("/edit");
    r
}

/// The registration form, filled in with the name tried:
/// `/registration?name={name}` (the name is written as it is).
pub fn registration_location(name: &str) -> (r: String)
    ensures
        r@ == "/registration?name="@ + name@,
{
    let mut r = String::new();
    r.append("/registration?name=");
    r.append(name);
    r
}

} // verus!
