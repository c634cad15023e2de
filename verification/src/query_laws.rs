//! What each query gives, stated over the table's columns directly: a
//! listing is the table filtered on a column (in table order, every
//! matching row, whatever its other columns), a lookup gives the first row
//! whose column holds the value, and the join pairs each comment of a post
//! with every user whose id is its author's id, keeping the comment's
//! columns as they are.

use vstd::prelude::*;
use crate::model::{User, BlogPost, Comment, CommentView, Project, ProjectEditor, ProjectBlogPost};
use crate::queries::{
    first_where, keep_where, user_has_id, user_has_name, user_has_email, post_has_id,
    post_has_title, post_by_author, comment_has_id, comment_by_author, comment_on_post,
    project_has_id, project_has_title, stored_credentials, posts_of, comment_views,
    views_with_authors, editor_ids, project_post_ids,
};
use crate::model::StoredCredentials;

verus! {

/// `found` is the first row that satisfies `pred`, or `None` when no row
/// does.
pub open spec fn is_first_match<T>(rows: Seq<T>, found: Option<T>, pred: spec_fn(T) -> bool) -> bool {
    match found {
        Some(x) => exists|i: int|
            0 <= i < rows.len() && rows[i] == x && pred(x) && forall|j: int|
                0 <= j < i ==> !pred(#[trigger] rows[j]),
        None => forall|i: int| 0 <= i < rows.len() ==> !pred(#[trigger] rows[i]),
    }
}

/// The first match is what `first_where` finds.
proof fn lemma_first_where_is_first_match<T>(rows: Seq<T>, pred: spec_fn(T) -> bool)
    ensures
        is_first_match(rows, first_where(rows, pred), pred),
    decreases rows.len(),
{
    if rows.len() > 0 {
        let t = rows.drop_first();
        lemma_first_where_is_first_match(t, pred);
        if !pred(rows[0]) {
            match first_where(t, pred) {
                Some(x) => {
                    let i = choose|i: int|
                        0 <= i < t.len() && t[i] == x && pred(x) && forall|j: int|
                            0 <= j < i ==> !pred(#[trigger] t[j]);
                    assert(rows[i + 1] == x);
                    assert forall|j: int| 0 <= j < i + 1 implies !pred(#[trigger] rows[j]) by {
                        if j > 0 {
                            assert(rows[j] == t[j - 1]);
                        }
                    }
                },
                None => {
                    assert forall|i: int| 0 <= i < rows.len() implies !pred(#[trigger] rows[i]) by {
                        if i > 0 {
                            assert(rows[i] == t[i - 1]);
                        }
                    }
                },
            }
        }
    }
}

/// Keeping the rows that satisfy `pred` is filtering the table on it.
proof fn lemma_keep_where_is_filter<T>(rows: Seq<T>, pred: spec_fn(T) -> bool)
    ensures
        keep_where(rows, pred) == rows.filter(pred),
    decreases rows.len(),
{
    reveal(Seq::filter);
    if rows.len() > 0 {
        lemma_keep_where_is_filter(rows.drop_last(), pred);
    }
}

/// The lookups of a user by id, by name and by email give the first user
/// whose id, name or email is the one asked for, or no one when no user has
/// it.
pub proof fn lemma_user_lookups(users: Seq<User>, s: Seq<char>)
    ensures
        is_first_match(users, first_where(users, user_has_id(s)), |u: User| u.id@ == s),
        is_first_match(users, first_where(users, user_has_name(s)), |u: User| u.name@ == s),
        is_first_match(users, first_where(users, user_has_email(s)), |u: User| u.email@ == s),
{
    assert(user_has_id(s) =~= (|u: User| u.id@ == s));
    assert(user_has_name(s) =~= (|u: User| u.name@ == s));
    assert(user_has_email(s) =~= (|u: User| u.email@ == s));
    lemma_first_where_is_first_match(users, user_has_id(s));
    lemma_first_where_is_first_match(users, user_has_name(s));
    lemma_first_where_is_first_match(users, user_has_email(s));
}

/// The login data looked up by name are those of the first user with that
/// name: that user's name, password hash, salt and id.
pub proof fn lemma_stored_credentials(users: Seq<User>, name: Seq<char>)
    ensures
        stored_credentials(users, name) == (match first_where(users, |u: User| u.name@ == name) {
            Some(u) => Some(
                StoredCredentials {
                    name: u.name,
                    password: u.password,
                    salt: u.password_salt,
                    user_id: u.id,
                },
            ),
            None => None,
        }),
{
    assert(user_has_name(name) =~= (|u: User| u.name@ == name));
}

/// The lookups of a blog post by id and by title give the first post with
/// that id or title, or none.
pub proof fn lemma_post_lookups(posts: Seq<BlogPost>, s: Seq<char>)
    ensures
        is_first_match(posts, first_where(posts, post_has_id(s)), |b: BlogPost| b.id@ == s),
        is_first_match(posts, first_where(posts, post_has_title(s)), |b: BlogPost| b.title@ == s),
{
    assert(post_has_id(s) =~= (|b: BlogPost| b.id@ == s));
    assert(post_has_title(s) =~= (|b: BlogPost| b.title@ == s));
    lemma_first_where_is_first_match(posts, post_has_id(s));
    lemma_first_where_is_first_match(posts, post_has_title(s));
}

/// The lookup of a comment by id gives the first comment with that id, or
/// none.
pub proof fn lemma_comment_lookup(comments: Seq<Comment>, s: Seq<char>)
    ensures
        is_first_match(comments, first_where(comments, comment_has_id(s)), |c: Comment| c.id@ == s),
{
    assert(comment_has_id(s) =~= (|c: Comment| c.id@ == s));
    lemma_first_where_is_first_match(comments, comment_has_id(s));
}

/// The lookups of a project by id and by title give the first project with
/// that id or title, or none.
pub proof fn lemma_project_lookups(projects: Seq<Project>, s: Seq<char>)
    ensures
        is_first_match(projects, first_where(projects, project_has_id(s)), |p: Project| p.id@ == s),
        is_first_match(
            projects,
            first_where(projects, project_has_title(s)),
            |p: Project| p.title@ == s,
        ),
{
    assert(project_has_id(s) =~= (|p: Project| p.id@ == s));
    assert(project_has_title(s) =~= (|p: Project| p.title@ == s));
    lemma_first_where_is_first_match(projects, project_has_id(s));
    lemma_first_where_is_first_match(projects, project_has_title(s));
}

/// The comments of a post are the table's comments filtered on their post
/// id: every comment whose post id is the post's, in table order, deleted
/// or not.
pub proof fn lemma_comments_of_post(comments: Seq<Comment>, post: Seq<char>)
    ensures
        keep_where(comments, comment_on_post(post)) == comments.filter(
            |c: Comment| c.post_id@ == post,
        ),
{
    assert(comment_on_post(post) =~= (|c: Comment| c.post_id@ == post));
    lemma_keep_where_is_filter(comments, comment_on_post(post));
}

/// The comments of an author are the table's comments filtered on their
/// author id: every comment whose author id is the author's, in table
/// order, deleted or not.
pub proof fn lemma_comments_of_author(comments: Seq<Comment>, author: Seq<char>)
    ensures
        keep_where(comments, comment_by_author(author)) == comments.filter(
            |c: Comment| c.author_id@ == author,
        ),
{
    assert(comment_by_author(author) =~= (|c: Comment| c.author_id@ == author));
    lemma_keep_where_is_filter(comments, comment_by_author(author));
}

/// The posts of an author, before paging, are the table's posts filtered on
/// their author id, in table order.
pub proof fn lemma_posts_of_author(posts: Seq<BlogPost>, author: Seq<char>)
    ensures
        keep_where(posts, post_by_author(author)) == posts.filter(
            |b: BlogPost| b.author_id@ == author,
        ),
{
    assert(post_by_author(author) =~= (|b: BlogPost| b.author_id@ == author));
    lemma_keep_where_is_filter(posts, post_by_author(author));
}

/// The posts of a project are the post ids of the junction rows of that
/// project, one for each such row, in table order.
pub proof fn lemma_project_post_ids(rows: Seq<ProjectBlogPost>, project: Seq<char>)
    ensures
        project_post_ids(rows, project) == rows.filter(
            |r: ProjectBlogPost| r.project_id@ == project,
        ).map_values(|r: ProjectBlogPost| r.post_id@),
    decreases rows.len(),
{
    reveal(Seq::filter);
    if rows.len() > 0 {
        lemma_project_post_ids(rows.drop_last(), project);
        let pred = |r: ProjectBlogPost| r.project_id@ == project;
        let kept = rows.drop_last().filter(pred);
        if pred(rows.last()) {
            assert(kept.push(rows.last()).map_values(|r: ProjectBlogPost| r.post_id@)
                =~= kept.map_values(|r: ProjectBlogPost| r.post_id@).push(rows.last().post_id@));
        }
    } else {
        assert(rows.filter(|r: ProjectBlogPost| r.project_id@ == project).map_values(
            |r: ProjectBlogPost| r.post_id@,
        ) =~= Seq::<Seq<char>>::empty());
    }
}

/// Recording a post in a project adds that post's id, once, at the end of
/// the project's posts; a row of another project changes nothing.
pub proof fn lemma_add_project_post(rows: Seq<ProjectBlogPost>, project: Seq<char>, row: ProjectBlogPost)
    ensures
        row.project_id@ == project ==> project_post_ids(rows.push(row), project) == project_post_ids(
            rows,
            project,
        ).push(row.post_id@),
        row.project_id@ != project ==> project_post_ids(rows.push(row), project) == project_post_ids(
            rows,
            project,
        ),
{
    assert(rows.push(row).drop_last() =~= rows);
}

/// The editors of a project are the user ids of the editor rows of that
/// project, one for each such row, in table order.
pub proof fn lemma_editor_ids(rows: Seq<ProjectEditor>, project: Seq<char>)
    ensures
        editor_ids(rows, project) == rows.filter(
            |r: ProjectEditor| r.project_id@ == project,
        ).map_values(|r: ProjectEditor| r.user_id@),
    decreases rows.len(),
{
    reveal(Seq::filter);
    if rows.len() > 0 {
        lemma_editor_ids(rows.drop_last(), project);
        let pred = |r: ProjectEditor| r.project_id@ == project;
        let kept = rows.drop_last().filter(pred);
        if pred(rows.last()) {
            assert(kept.push(rows.last()).map_values(|r: ProjectEditor| r.user_id@)
                =~= kept.map_values(|r: ProjectEditor| r.user_id@).push(rows.last().user_id@));
        }
    } else {
        assert(rows.filter(|r: ProjectEditor| r.project_id@ == project).map_values(
            |r: ProjectEditor| r.user_id@,
        ) =~= Seq::<Seq<char>>::empty());
    }
}

/// The view of comment `c` with each user whose id is the comment's author
/// id, in table order: the comment's columns as they are, and that user's
/// name.
pub open spec fn joined_views(c: Comment, users: Seq<User>) -> Seq<CommentView> {
    users.filter(|u: User| u.id@ == c.author_id@).map_values(
        |u: User|
            (CommentView {
                id: c.id,
                contents: c.contents,
                author_name: u.name,
                post_id: c.post_id,
                reply_to_id: c.reply_to_id,
                created_at: c.created_at,
                updated_at: c.updated_at,
                is_deleted: c.is_deleted,
            }),
    )
}

proof fn lemma_views_with_authors(c: Comment, users: Seq<User>)
    ensures
        views_with_authors(c, users) == joined_views(c, users),
    decreases users.len(),
{
    reveal(Seq::filter);
    let pred = |u: User| u.id@ == c.author_id@;
    let view = |u: User|
        (CommentView {
            id: c.id,
            contents: c.contents,
            author_name: u.name,
            post_id: c.post_id,
            reply_to_id: c.reply_to_id,
            created_at: c.created_at,
            updated_at: c.updated_at,
            is_deleted: c.is_deleted,
        });
    if users.len() > 0 {
        lemma_views_with_authors(c, users.drop_last());
        let kept = users.drop_last().filter(pred);
        if pred(users.last()) {
            assert(kept.push(users.last()).map_values(view) =~= kept.map_values(view).push(
                view(users.last()),
            ));
        }
    } else {
        assert(users.filter(pred).map_values(view) =~= Seq::<CommentView>::empty());
    }
}

/// The join of a post's comments with their authors: for each comment of
/// the post, in table order, its view with each user whose id is its author
/// id. Every view keeps its comment's columns (id, text, post, the comment
/// it answers, dates, deletion) and carries that user's name.
pub proof fn lemma_comment_views(comments: Seq<Comment>, users: Seq<User>, post: Seq<char>)
    ensures
        comment_views(comments, users, post) == comments.filter(
            |c: Comment| c.post_id@ == post,
        ).map_values(|c: Comment| joined_views(c, users)).flatten_alt(),
    decreases comments.len(),
{
    reveal(Seq::filter);
    let pred = |c: Comment| c.post_id@ == post;
    let views = |c: Comment| joined_views(c, users);
    if comments.len() > 0 {
        lemma_comment_views(comments.drop_last(), users, post);
        lemma_views_with_authors(comments.last(), users);
        let kept = comments.drop_last().filter(pred);
        if pred(comments.last()) {
            let m = kept.push(comments.last()).map_values(views);
            assert(m =~= kept.map_values(views).push(views(comments.last())));
            assert(m.drop_last() =~= kept.map_values(views));
        }
    } else {
        assert(comments.filter(pred).map_values(views) =~= Seq::<Seq<CommentView>>::empty());
    }
}

/// Some post has the id `id`.
pub open spec fn has_post_with_id(posts: Seq<BlogPost>, id: Seq<char>) -> bool {
    exists|j: int| 0 <= j < posts.len() && #[trigger] posts[j].id@ == id
}

/// The posts of a user's comments: found exactly when every comment's post
/// id is the id of some post, and then, for each comment in turn, the first
/// post with that id.
pub proof fn lemma_posts_of_comments(comments: Seq<Comment>, posts: Seq<BlogPost>)
    ensures
        posts_of(comments, posts) is Some <==> forall|i: int|
            0 <= i < comments.len() ==> has_post_with_id(posts, (#[trigger] comments[i]).post_id@),
        posts_of(comments, posts) matches Some(found) ==> {
            &&& found.len() == comments.len()
            &&& forall|i: int|
                0 <= i < comments.len() ==> is_first_match(
                    posts,
                    Some(#[trigger] found[i]),
                    |b: BlogPost| b.id@ == comments[i].post_id@,
                )
        },
    decreases comments.len(),
{
    if comments.len() > 0 {
        let t = comments.drop_last();
        let c = comments.last();
        let n = comments.len() - 1;
        lemma_posts_of_comments(t, posts);
        lemma_post_lookups(posts, c.post_id@);
        let hit = first_where(posts, post_has_id(c.post_id@));
        assert(comments[n] == c);
        assert forall|i: int| 0 <= i < t.len() implies t[i] == comments[i] by {}
        match hit {
            Some(p) => {
                let j = choose|j: int|
                    0 <= j < posts.len() && posts[j] == p && (|b: BlogPost| b.id@ == c.post_id@)(p)
                        && forall|k: int|
                        0 <= k < j ==> !(|b: BlogPost| b.id@ == c.post_id@)(#[trigger] posts[k]);
                assert(posts[j].id@ == c.post_id@);
                assert(has_post_with_id(posts, c.post_id@));
            },
            None => {
                if has_post_with_id(posts, c.post_id@) {
                    let j = choose|j: int| 0 <= j < posts.len() && #[trigger] posts[j].id@ == c.post_id@;
                    assert(!(|b: BlogPost| b.id@ == c.post_id@)(posts[j]));
                }
            },
        }
        if forall|i: int|
            0 <= i < comments.len() ==> has_post_with_id(posts, (#[trigger] comments[i]).post_id@) {
            assert forall|i: int| 0 <= i < t.len() implies has_post_with_id(
                posts,
                (#[trigger] t[i]).post_id@,
            ) by {
                assert(t[i] == comments[i]);
            }
            assert(has_post_with_id(posts, comments[n].post_id@));
        }
        match posts_of(comments, posts) {
            Some(found) => {
                let prev = posts_of(t, posts)->Some_0;
                assert(found == prev.push(hit->Some_0));
                assert forall|i: int| 0 <= i < comments.len() implies is_first_match(
                    posts,
                    Some(#[trigger] found[i]),
                    |b: BlogPost| b.id@ == comments[i].post_id@,
                ) by {
                    if i < t.len() {
                        assert(found[i] == prev[i]);
                        assert(t[i] == comments[i]);
                    }
                }
                assert forall|i: int| 0 <= i < comments.len() implies has_post_with_id(
                    posts,
                    (#[trigger] comments[i]).post_id@,
                ) by {
                    if i < t.len() {
                        assert(t[i] == comments[i]);
                        assert(has_post_with_id(posts, t[i].post_id@));
                    }
                }
            },
            None => {
                if posts_of(t, posts) is None {
                    let i = choose|i: int|
                        0 <= i < t.len() && !has_post_with_id(posts, (#[trigger] t[i]).post_id@);
                    assert(t[i] == comments[i]);
                } else {
                    assert(hit is None);
                    assert(!has_post_with_id(posts, comments[n].post_id@));
                }
            },
        }
    }
}

} // verus!
