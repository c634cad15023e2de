//! What the storage queries select from the rows of a table: the first row
//! with a given key, all rows matching a column, a page of rows, and the join
//! of comments with their authors. The rows are handed over in table order.

use vstd::prelude::*;
use crate::model::{
    User, StoredCredentials, BlogPost, Comment, CommentView, Project, ProjectEditor,
    ProjectBlogPost, Page, UserID, BlogPostID, CommentID, ProjectID, copy_opt_text,
};

verus! {

/// The first row that satisfies `pred`.
pub open spec fn first_where<T>(rows: Seq<T>, pred: spec_fn(T) -> bool) -> Option<T>
    decreases rows.len(),
{
    if rows.len() == 0 {
        None
    } else if pred(rows[0]) {
        Some(rows[0])
    } else {
        first_where(rows.drop_first(), pred)
    }
}

/// The rows that satisfy `pred`, in order.
pub open spec fn keep_where<T>(rows: Seq<T>, pred: spec_fn(T) -> bool) -> Seq<T>
    decreases rows.len(),
{
    if rows.len() == 0 {
        Seq::empty()
    } else {
        let rest = keep_where(rows.drop_last(), pred);
        if pred(rows.last()) {
            rest.push(rows.last())
        } else {
            rest
        }
    }
}

/// Where a page starts. The offset `number * size` is handed to SQLite as a
/// signed 64-bit value; one that does not fit wraps to a negative value,
/// which SQLite treats as no offset.
pub open spec fn page_offset(page: Page) -> int {
    let off = page.number * page.size;
    if off <= i64::MAX {
        off
    } else {
        0
    }
}

/// The rows a page shows: those after the page's offset, at most `size` of
/// them. A size that does not fit a signed 64-bit value wraps to a negative
/// limit, which SQLite treats as no limit.
pub open spec fn page_window<T>(rows: Seq<T>, page: Page) -> Seq<T> {
    let start = if page_offset(page) < rows.len() {
        page_offset(page)
    } else {
        rows.len() as int
    };
    let rest = rows.skip(start);
    if page.size <= i64::MAX && page.size < rest.len() {
        rest.take(page.size as int)
    } else {
        rest
    }
}

proof fn lemma_first_step<T>(rows: Seq<T>, pred: spec_fn(T) -> bool, i: int)
    requires
        0 <= i < rows.len(),
    ensures
        first_where(rows.skip(i), pred) == if pred(rows[i]) {
            Some(rows[i])
        } else {
            first_where(rows.skip(i + 1), pred)
        },
{
    assert(rows.skip(i).drop_first() =~= rows.skip(i + 1));
    assert(rows.skip(i)[0] == rows[i]);
}

proof fn lemma_first_start<T>(rows: Seq<T>, pred: spec_fn(T) -> bool)
    ensures
        first_where(rows.skip(0), pred) == first_where(rows, pred),
        first_where(rows.skip(rows.len() as int), pred) == None::<T>,
{
    assert(rows.skip(0) =~= rows);
    assert(rows.skip(rows.len() as int) =~= Seq::<T>::empty());
}

proof fn lemma_keep_step<T>(rows: Seq<T>, pred: spec_fn(T) -> bool, i: int)
    requires
        0 <= i < rows.len(),
    ensures
        keep_where(rows.take(i + 1), pred) == if pred(rows[i]) {
            keep_where(rows.take(i), pred).push(rows[i])
        } else {
            keep_where(rows.take(i), pred)
        },
{
    assert(rows.take(i + 1).drop_last() =~= rows.take(i));
    assert(rows.take(i + 1).last() == rows[i]);
}

proof fn lemma_keep_ends<T>(rows: Seq<T>, pred: spec_fn(T) -> bool)
    ensures
        keep_where(rows.take(0), pred) == Seq::<T>::empty(),
        keep_where(rows.take(rows.len() as int), pred) == keep_where(rows, pred),
{
    assert(rows.take(0) =~= Seq::<T>::empty());
    assert(rows.take(rows.len() as int) =~= rows);
}

/// A user has the given id.
pub open spec fn user_has_id(id: Seq<char>) -> spec_fn(User) -> bool {
    |u: User| u.id@ == id
}

/// A user has the given name.
pub open spec fn user_has_name(name: Seq<char>) -> spec_fn(User) -> bool {
    |u: User| u.name@ == name
}

/// A user has the given email.
pub open spec fn user_has_email(email: Seq<char>) -> spec_fn(User) -> bool {
    |u: User| u.email@ == email
}

/// The user with the given id, if there is one.
pub fn get_user_by_id(users: &Vec<User>, user_id: &UserID) -> (r: Option<User>)
    ensures
        r == first_where(users@, user_has_id(user_id@)),
{
    proof {
        lemma_first_start(users@, user_has_id(user_id@));
    }
    let mut i: usize = 0;
    while i < users.len()
        invariant
            i <= users.len(),
            first_where(users@, user_has_id(user_id@)) == first_where(
                users@.skip(i as int),
                user_has_id(user_id@),
            ),
        decreases users.len() - i,
    {
        proof {
            lemma_first_step(users@, user_has_id(user_id@), i as int);
        }
        if users[i].id == *user_id {
            return Some(users[i].clone());
        }
        i += 1;
    }
    None
}

/// The user with the given name, if there is one.
pub fn get_user_by_name(users: &Vec<User>, user_name: &String) -> (r: Option<User>)
    ensures
        r == first_where(users@, user_has_name(user_name@)),
{
    proof {
        lemma_first_start(users@, user_has_name(user_name@));
    }
    let mut i: usize = 0;
    while i < users.len()
        invariant
            i <= users.len(),
            first_where(users@, user_has_name(user_name@)) == first_where(
                users@.skip(i as int),
                user_has_name(user_name@),
            ),
        decreases users.len() - i,
    {
        proof {
            lemma_first_step(users@, user_has_name(user_name@), i as int);
        }
        if users[i].name == *user_name {
            return Some(users[i].clone());
        }
        i += 1;
    }
    None
}

/// The user with the given email, if there is one.
pub fn get_user_by_email(users: &Vec<User>, user_email: &String) -> (r: Option<User>)
    ensures
        r == first_where(users@, user_has_email(user_email@)),
{
    proof {
        lemma_first_start(users@, user_has_email(user_email@));
    }
    let mut i: usize = 0;
    while i < users.len()
        invariant
            i <= users.len(),
            first_where(users@, user_has_email(user_email@)) == first_where(
                users@.skip(i as int),
                user_has_email(user_email@),
            ),
        decreases users.len() - i,
    {
        proof {
            lemma_first_step(users@, user_has_email(user_email@), i as int);
        }
        if users[i].email == *user_email {
            return Some(users[i].clone());
        }
        i += 1;
    }
    None
}

/// All users, in table order.
pub fn get_all_users(users: &Vec<User>) -> (r: Vec<User>)
    ensures
        r@ == users@,
{
    let mut r: Vec<User> = Vec::new();
    let mut i: usize = 0;
    while i < users.len()
        invariant
            i <= users.len(),
            r@ == users@.take(i as int),
        decreases users.len() - i,
    {
        r.push(users[i].clone());
        assert(r@ =~= users@.take(i + 1));
        i += 1;
    }
    assert(users@.take(users.len() as int) =~= users@);
    r
}

/// The login data of a user.
pub open spec fn credentials_of(u: User) -> StoredCredentials {
    StoredCredentials { name: u.name, password: u.password, salt: u.password_salt, user_id: u.id }
}

/// The login data of the first user with the given name, if there is one.
pub open spec fn stored_credentials(users: Seq<User>, name: Seq<char>) -> Option<StoredCredentials> {
    match first_where(users, user_has_name(name)) {
        Some(u) => Some(credentials_of(u)),
        None => None,
    }
}

/// The login data of the user with the given name, if there is one.
pub fn get_stored_credentials(users: &Vec<User>, user_name: &String) -> (r: Option<
    StoredCredentials,
>)
    ensures
        r == stored_credentials(users@, user_name@),
{
    match get_user_by_name(users, user_name) {
        Some(u) => Some(
            StoredCredentials { name: u.name, password: u.password, salt: u.password_salt, user_id: u.id },
        ),
        None => None,
    }
}

/// A blog post has the given id.
pub open spec fn post_has_id(id: Seq<char>) -> spec_fn(BlogPost) -> bool {
    |p: BlogPost| p.id@ == id
}

/// A blog post has the given title.
pub open spec fn post_has_title(title: Seq<char>) -> spec_fn(BlogPost) -> bool {
    |p: BlogPost| p.title@ == title
}

/// A blog post was written by the given user.
pub open spec fn post_by_author(author: Seq<char>) -> spec_fn(BlogPost) -> bool {
    |p: BlogPost| p.author_id@ == author
}

/// The blog post with the given id, if there is one.
pub fn get_blog_post_by_id(posts: &Vec<BlogPost>, blog_post_id: &BlogPostID) -> (r: Option<BlogPost>)
    ensures
        r == first_where(posts@, post_has_id(blog_post_id@)),
{
    proof {
        lemma_first_start(posts@, post_has_id(blog_post_id@));
    }
    let mut i: usize = 0;
    while i < posts.len()
        invariant
            i <= posts.len(),
            first_where(posts@, post_has_id(blog_post_id@)) == first_where(
                posts@.skip(i as int),
                post_has_id(blog_post_id@),
            ),
        decreases posts.len() - i,
    {
        proof {
            lemma_first_step(posts@, post_has_id(blog_post_id@), i as int);
        }
        if posts[i].id == *blog_post_id {
            return Some(posts[i].clone());
        }
        i += 1;
    }
    None
}

/// The blog post with the given title, if there is one.
pub fn get_blog_post_by_title(posts: &Vec<BlogPost>, blog_post_title: &String) -> (r: Option<
    BlogPost,
>)
    ensures
        r == first_where(posts@, post_has_title(blog_post_title@)),
{
    proof {
        lemma_first_start(posts@, post_has_title(blog_post_title@));
    }
    let mut i: usize = 0;
    while i < posts.len()
        invariant
            i <= posts.len(),
            first_where(posts@, post_has_title(blog_post_title@)) == first_where(
                posts@.skip(i as int),
                post_has_title(blog_post_title@),
            ),
        decreases posts.len() - i,
    {
        proof {
            lemma_first_step(posts@, post_has_title(blog_post_title@), i as int);
        }
        if posts[i].title == *blog_post_title {
            return Some(posts[i].clone());
        }
        i += 1;
    }
    None
}

/// The rows of `posts` that a page shows.
fn page_of_posts(posts: &Vec<BlogPost>, page: &Page) -> (r: Vec<BlogPost>)
    requires
        page.number * page.size <= usize::MAX,
    ensures
        r@ == page_window(posts@, *page),
{
    let off: usize = page.number * page.size;
    let off_fits: bool = (off as u64) <= 9223372036854775807u64;
    let size_fits: bool = (page.size as u64) <= 9223372036854775807u64;
    let start: usize = if off_fits && off < posts.len() {
        off
    } else if off_fits {
        posts.len()
    } else {
        0
    };
    let end: usize = if size_fits && page.size < posts.len() - start {
        start + page.size
    } else {
        posts.len()
    };
    let mut r: Vec<BlogPost> = Vec::new();
    let mut i: usize = start;
    while i < end
        invariant
            start <= i <= end <= posts.len(),
            r@ == posts@.subrange(start as int, i as int),
        decreases end - i,
    {
        r.push(posts[i].clone());
        assert(r@ =~= posts@.subrange(start as int, i + 1));
        i += 1;
    }
    proof {
        let w = page_window(posts@, *page);
        assert(start == if page_offset(*page) < posts@.len() {
            page_offset(*page)
        } else {
            posts@.len() as int
        });
        let rest = posts@.skip(start as int);
        if size_fits && page.size < posts.len() - start {
            assert(w =~= rest.take(page.size as int));
        } else {
            assert(w =~= rest);
        }
        assert(r@ =~= w);
    }
    r
}

/// A page of the blog posts written by `author`, in table order.
pub fn get_blog_posts_of_author(posts: &Vec<BlogPost>, author: &UserID, page: &Page) -> (r: Vec<
    BlogPost,
>)
    requires
        page.number * page.size <= usize::MAX,
    ensures
        r@ == page_window(keep_where(posts@, post_by_author(author@)), *page),
{
    proof {
        lemma_keep_ends(posts@, post_by_author(author@));
    }
    let mut mine: Vec<BlogPost> = Vec::new();
    let mut i: usize = 0;
    while i < posts.len()
        invariant
            i <= posts.len(),
            mine@ == keep_where(posts@.take(i as int), post_by_author(author@)),
        decreases posts.len() - i,
    {
        proof {
            lemma_keep_step(posts@, post_by_author(author@), i as int);
        }
        if posts[i].author_id == *author {
            mine.push(posts[i].clone());
        }
        i += 1;
    }
    page_of_posts(&mine, page)
}

/// A page of all blog posts, in table order.
pub fn get_all_blog_posts(posts: &Vec<BlogPost>, page: &Page) -> (r: Vec<BlogPost>)
    requires
        page.number * page.size <= usize::MAX,
    ensures
        r@ == page_window(posts@, *page),
{
    page_of_posts(posts, page)
}

/// The blog post of each comment, in the order of the comments, when every
/// one of them is found.
pub open spec fn posts_of(comments: Seq<Comment>, posts: Seq<BlogPost>) -> Option<Seq<BlogPost>>
    decreases comments.len(),
{
    if comments.len() == 0 {
        Some(Seq::empty())
    } else {
        match (
            posts_of(comments.drop_last(), posts),
            first_where(posts, post_has_id(comments.last().post_id@)),
        ) {
            (Some(found), Some(p)) => Some(found.push(p)),
            _ => None,
        }
    }
}

/// The blog post of each comment, in the order of the comments (as a user's
/// page lists them); fails with `Failed to get blog post` when a comment's
/// post is not found.
pub fn get_posts_of_comments(comments: &Vec<Comment>, posts: &Vec<BlogPost>) -> (r: Result<
    Vec<BlogPost>,
    String,
>)
    ensures
        match posts_of(comments@, posts@) {
            Some(found) => r matches Ok(v) && v@ == found,
            None => r matches Err(m) && m@ == "Failed to get blog post"@,
        },
{
    let mut r: Vec<BlogPost> = Vec::new();
    let mut i: usize = 0;
    assert(comments@.take(0) =~= Seq::<Comment>::empty());
    while i < comments.len()
        invariant
            i <= comments.len(),
            posts_of(comments@.take(i as int), posts@) == Some(r@),
        decreases comments.len() - i,
    {
        assert(comments@.take(i + 1).drop_last() =~= comments@.take(i as int));
        assert(comments@.take(i + 1).last() == comments@[i as int]);
        match get_blog_post_by_id(posts, &comments[i].post_id) {
            Some(p) => {
                r.push(p);
            },
            None => {
                proof {
                    lemma_posts_of_prefix(comments@, posts@, i as int + 1);
                }
                return Err(String::from_str("Failed to get blog post"));
            },
        }
        i += 1;
    }
    assert(comments@.take(comments.len() as int) =~= comments@);
    Ok(r)
}

/// Once a comment's post is missing, no longer prefix finds all posts.
proof fn lemma_posts_of_prefix(comments: Seq<Comment>, posts: Seq<BlogPost>, m: int)
    requires
        0 <= m <= comments.len(),
        posts_of(comments.take(m), posts) is None,
    ensures
        posts_of(comments, posts) is None,
    decreases comments.len() - m,
{
    if m < comments.len() {
        assert(comments.take(m + 1).drop_last() =~= comments.take(m));
        lemma_posts_of_prefix(comments, posts, m + 1);
    } else {
        assert(comments.take(m) =~= comments);
    }
}

/// When the bounds fit, a page is the slice of the listing between
/// `number * size` and `(number + 1) * size`, cut at the end of the listing;
/// so the pages, in turn, show every row once and in order.
pub proof fn lemma_page_is_slice<T>(rows: Seq<T>, page: Page)
    requires
        (page.number + 1) * page.size <= i64::MAX,
    ensures
        ({
            let lo = page.number * page.size;
            let hi = lo + page.size;
            let lo_cut = if lo < rows.len() {
                lo
            } else {
                rows.len() as int
            };
            let hi_cut = if hi < rows.len() {
                hi
            } else {
                rows.len() as int
            };
            page_window(rows, page) == rows.subrange(lo_cut, hi_cut)
        }),
{
    let lo = page.number * page.size;
    let n = page.number as int;
    let sz = page.size as int;
    assert((n + 1) * sz == n * sz + sz && n * sz >= 0) by (nonlinear_arith)
        requires
            n >= 0,
            sz >= 0,
    ;
    let hi = lo + page.size;
    let lo_cut = if lo < rows.len() {
        lo
    } else {
        rows.len() as int
    };
    let hi_cut = if hi < rows.len() {
        hi
    } else {
        rows.len() as int
    };
    assert(page_offset(page) == lo);
    assert(page_window(rows, page) =~= rows.subrange(lo_cut, hi_cut));
}

/// A comment has the given id.
pub open spec fn comment_has_id(id: Seq<char>) -> spec_fn(Comment) -> bool {
    |c: Comment| c.id@ == id
}

/// A comment was written by the given user.
pub open spec fn comment_by_author(author: Seq<char>) -> spec_fn(Comment) -> bool {
    |c: Comment| c.author_id@ == author
}

/// A comment belongs to the given blog post.
pub open spec fn comment_on_post(post: Seq<char>) -> spec_fn(Comment) -> bool {
    |c: Comment| c.post_id@ == post
}

/// The comment with the given id, if there is one.
pub fn get_comment_by_id(comments: &Vec<Comment>, comment_id: &CommentID) -> (r: Option<Comment>)
    ensures
        r == first_where(comments@, comment_has_id(comment_id@)),
{
    proof {
        lemma_first_start(comments@, comment_has_id(comment_id@));
    }
    let mut i: usize = 0;
    while i < comments.len()
        invariant
            i <= comments.len(),
            first_where(comments@, comment_has_id(comment_id@)) == first_where(
                comments@.skip(i as int),
                comment_has_id(comment_id@),
            ),
        decreases comments.len() - i,
    {
        proof {
            lemma_first_step(comments@, comment_has_id(comment_id@), i as int);
        }
        if comments[i].id == *comment_id {
            return Some(comments[i].clone());
        }
        i += 1;
    }
    None
}

/// The comments written by `author`, in table order.
pub fn get_comments_of_author(comments: &Vec<Comment>, author: &UserID) -> (r: Vec<Comment>)
    ensures
        r@ == keep_where(comments@, comment_by_author(author@)),
{
    proof {
        lemma_keep_ends(comments@, comment_by_author(author@));
    }
    let mut r: Vec<Comment> = Vec::new();
    let mut i: usize = 0;
    while i < comments.len()
        invariant
            i <= comments.len(),
            r@ == keep_where(comments@.take(i as int), comment_by_author(author@)),
        decreases comments.len() - i,
    {
        proof {
            lemma_keep_step(comments@, comment_by_author(author@), i as int);
        }
        if comments[i].author_id == *author {
            r.push(comments[i].clone());
        }
        i += 1;
    }
    r
}

/// The comments on the given blog post, in table order.
pub fn get_comments_for_blog_post(comments: &Vec<Comment>, blog_post_id: &BlogPostID) -> (r: Vec<
    Comment,
>)
    ensures
        r@ == keep_where(comments@, comment_on_post(blog_post_id@)),
{
    proof {
        lemma_keep_ends(comments@, comment_on_post(blog_post_id@));
    }
    let mut r: Vec<Comment> = Vec::new();
    let mut i: usize = 0;
    while i < comments.len()
        invariant
            i <= comments.len(),
            r@ == keep_where(comments@.take(i as int), comment_on_post(blog_post_id@)),
        decreases comments.len() - i,
    {
        proof {
            lemma_keep_step(comments@, comment_on_post(blog_post_id@), i as int);
        }
        if comments[i].post_id == *blog_post_id {
            r.push(comments[i].clone());
        }
        i += 1;
    }
    r
}

/// A comment shown with its author's name.
pub open spec fn comment_view_of(c: Comment, author: User) -> CommentView {
    CommentView {
        id: c.id,
        contents: c.contents,
        author_name: author.name,
        post_id: c.post_id,
        reply_to_id: c.reply_to_id,
        created_at: c.created_at,
        updated_at: c.updated_at,
        is_deleted: c.is_deleted,
    }
}

/// The views of `c` with every user whose id is the comment's author id, in
/// table order.
pub open spec fn views_with_authors(c: Comment, users: Seq<User>) -> Seq<CommentView>
    decreases users.len(),
{
    if users.len() == 0 {
        Seq::empty()
    } else {
        let rest = views_with_authors(c, users.drop_last());
        if users.last().id@ == c.author_id@ {
            rest.push(comment_view_of(c, users.last()))
        } else {
            rest
        }
    }
}

/// The join of the comments on `post` with their authors: comments in table
/// order, and for each one its matching users in table order.
pub open spec fn comment_views(comments: Seq<Comment>, users: Seq<User>, post: Seq<char>) -> Seq<
    CommentView,
>
    decreases comments.len(),
{
    if comments.len() == 0 {
        Seq::empty()
    } else {
        let rest = comment_views(comments.drop_last(), users, post);
        if comments.last().post_id@ == post {
            rest + views_with_authors(comments.last(), users)
        } else {
            rest
        }
    }
}

/// The comments on the given blog post, each with its author's name;
/// comments whose author is not among the users are left out.
pub fn get_comment_views_for_blog_post(
    comments: &Vec<Comment>,
    users: &Vec<User>,
    blog_post_id: &BlogPostID,
) -> (r: Vec<CommentView>)
    ensures
        r@ == comment_views(comments@, users@, blog_post_id@),
{
    let mut r: Vec<CommentView> = Vec::new();
    let mut i: usize = 0;
    assert(comments@.take(0) =~= Seq::<Comment>::empty());
    while i < comments.len()
        invariant
            i <= comments.len(),
            r@ == comment_views(comments@.take(i as int), users@, blog_post_id@),
        decreases comments.len() - i,
    {
        let c = &comments[i];
        let ghost before = r@;
        assert(comments@.take(i + 1).drop_last() =~= comments@.take(i as int));
        assert(comments@.take(i + 1).last() == *c);
        if c.post_id == *blog_post_id {
            let mut j: usize = 0;
            assert(users@.take(0) =~= Seq::<User>::empty());
            while j < users.len()
                invariant
                    j <= users.len(),
                    r@ == before + views_with_authors(*c, users@.take(j as int)),
                decreases users.len() - j,
            {
                let u = &users[j];
                assert(users@.take(j + 1).drop_last() =~= users@.take(j as int));
                assert(users@.take(j + 1).last() == *u);
                if u.id == c.author_id {
                    let v = CommentView {
                        id: c.id.clone(),
                        contents: c.contents.clone(),
                        author_name: u.name.clone(),
                        post_id: c.post_id.clone(),
                        reply_to_id: copy_opt_text(&c.reply_to_id),
                        created_at: c.created_at.clone(),
                        updated_at: c.updated_at.clone(),
                        is_deleted: c.is_deleted,
                    };
                    r.push(v);
                    assert(r@ =~= before + views_with_authors(*c, users@.take(j + 1)));
                }
                j += 1;
            }
            assert(users@.take(users.len() as int) =~= users@);
        }
        i += 1;
    }
    assert(comments@.take(comments.len() as int) =~= comments@);
    r
}

/// A project has the given id.
pub open spec fn project_has_id(id: Seq<char>) -> spec_fn(Project) -> bool {
    |p: Project| p.id@ == id
}

/// A project has the given title.
pub open spec fn project_has_title(title: Seq<char>) -> spec_fn(Project) -> bool {
    |p: Project| p.title@ == title
}

/// The project with the given id, if there is one.
pub fn get_project_by_id(projects: &Vec<Project>, project_id: &ProjectID) -> (r: Option<Project>)
    ensures
        r == first_where(projects@, project_has_id(project_id@)),
{
    proof {
        lemma_first_start(projects@, project_has_id(project_id@));
    }
    let mut i: usize = 0;
    while i < projects.len()
        invariant
            i <= projects.len(),
            first_where(projects@, project_has_id(project_id@)) == first_where(
                projects@.skip(i as int),
                project_has_id(project_id@),
            ),
        decreases projects.len() - i,
    {
        proof {
            lemma_first_step(projects@, project_has_id(project_id@), i as int);
        }
        if projects[i].id == *project_id {
            return Some(projects[i].clone());
        }
        i += 1;
    }
    None
}

/// The project with the given title, if there is one.
pub fn get_project_by_title(projects: &Vec<Project>, title: &String) -> (r: Option<Project>)
    ensures
        r == first_where(projects@, project_has_title(title@)),
{
    proof {
        lemma_first_start(projects@, project_has_title(title@));
    }
    let mut i: usize = 0;
    while i < projects.len()
        invariant
            i <= projects.len(),
            first_where(projects@, project_has_title(title@)) == first_where(
                projects@.skip(i as int),
                project_has_title(title@),
            ),
        decreases projects.len() - i,
    {
        proof {
            lemma_first_step(projects@, project_has_title(title@), i as int);
        }
        if projects[i].title == *title {
            return Some(projects[i].clone());
        }
        i += 1;
    }
    None
}

/// All projects, in table order.
pub fn get_all_projects(projects: &Vec<Project>) -> (r: Vec<Project>)
    ensures
        r@ == projects@,
{
    let mut r: Vec<Project> = Vec::new();
    let mut i: usize = 0;
    while i < projects.len()
        invariant
            i <= projects.len(),
            r@ == projects@.take(i as int),
        decreases projects.len() - i,
    {
        r.push(projects[i].clone());
        assert(r@ =~= projects@.take(i + 1));
        i += 1;
    }
    assert(projects@.take(projects.len() as int) =~= projects@);
    r
}

/// The users recorded as editors of `project`, in table order.
pub open spec fn editor_ids(rows: Seq<ProjectEditor>, project: Seq<char>) -> Seq<Seq<char>>
    decreases rows.len(),
{
    if rows.len() == 0 {
        Seq::empty()
    } else {
        let rest = editor_ids(rows.drop_last(), project);
        if rows.last().project_id@ == project {
            rest.push(rows.last().user_id@)
        } else {
            rest
        }
    }
}

/// The ids of the editors of a project.
pub fn get_project_editor_ids(rows: &Vec<ProjectEditor>, project_id: &ProjectID) -> (r: Vec<UserID>)
    ensures
        r@.map_values(|u: UserID| u@) == editor_ids(rows@, project_id@),
{
    let mut r: Vec<UserID> = Vec::new();
    let mut i: usize = 0;
    assert(rows@.take(0) =~= Seq::<ProjectEditor>::empty());
    while i < rows.len()
        invariant
            i <= rows.len(),
            r@.map_values(|u: UserID| u@) == editor_ids(rows@.take(i as int), project_id@),
        decreases rows.len() - i,
    {
        assert(rows@.take(i + 1).drop_last() =~= rows@.take(i as int));
        assert(rows@.take(i + 1).last() == rows@[i as int]);
        if rows[i].project_id == *project_id {
            let ghost before = r@;
            r.push(rows[i].user_id.clone());
            assert(r@.map_values(|u: UserID| u@) =~= before.map_values(|u: UserID| u@).push(
                rows@[i as int].user_id@,
            ));
        }
        i += 1;
    }
    assert(rows@.take(rows.len() as int) =~= rows@);
    r
}

/// The blog posts recorded as belonging to `project`, in table order.
pub open spec fn project_post_ids(rows: Seq<ProjectBlogPost>, project: Seq<char>) -> Seq<Seq<char>>
    decreases rows.len(),
{
    if rows.len() == 0 {
        Seq::empty()
    } else {
        let rest = project_post_ids(rows.drop_last(), project);
        if rows.last().project_id@ == project {
            rest.push(rows.last().post_id@)
        } else {
            rest
        }
    }
}

/// The ids of the blog posts of a project.
pub fn get_project_blog_post_ids(rows: &Vec<ProjectBlogPost>, project_id: &ProjectID) -> (r: Vec<
    BlogPostID,
>)
    ensures
        r@.map_values(|p: BlogPostID| p@) == project_post_ids(rows@, project_id@),
{
    let mut r: Vec<BlogPostID> = Vec::new();
    let mut i: usize = 0;
    assert(rows@.take(0) =~= Seq::<ProjectBlogPost>::empty());
    while i < rows.len()
        invariant
            i <= rows.len(),
            r@.map_values(|p: BlogPostID| p@) == project_post_ids(rows@.take(i as int), project_id@),
        decreases rows.len() - i,
    {
        assert(rows@.take(i + 1).drop_last() =~= rows@.take(i as int));
        assert(rows@.take(i + 1).last() == rows@[i as int]);
        if rows[i].project_id == *project_id {
            let ghost before = r@;
            r.push(rows[i].post_id.clone());
            assert(r@.map_values(|p: BlogPostID| p@) =~= before.map_values(|p: BlogPostID| p@).push(
                rows@[i as int].post_id@,
            ));
        }
        i += 1;
    }
    assert(rows@.take(rows.len() as int) =~= rows@);
    r
}

} // verus!
