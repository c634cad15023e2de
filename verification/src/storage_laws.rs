//! What reads give back after writes, over the rows of a table as the
//! queries see them: an insert appends a row, an update rewrites the rows
//! with a given id, and a delete keeps the rows that do not match.

use vstd::prelude::*;
use crate::model::{User, UpdateUser, BlogPost, ProjectEditor};
use crate::queries::{
    first_where, keep_where, user_has_name, post_has_id, post_has_title, editor_ids,
    stored_credentials, credentials_of,
};
use crate::services::credentials_check;

verus! {

/// No row satisfies `pred`.
pub open spec fn none_where<T>(rows: Seq<T>, pred: spec_fn(T) -> bool) -> bool {
    forall|i: int| 0 <= i < rows.len() ==> !pred(#[trigger] rows[i])
}

/// When only the row at `k` satisfies `pred`, the first match is that row.
proof fn lemma_first_where_only<T>(rows: Seq<T>, pred: spec_fn(T) -> bool, k: int)
    requires
        0 <= k < rows.len(),
        pred(rows[k]),
        forall|i: int| 0 <= i < rows.len() && i != k ==> !pred(#[trigger] rows[i]),
    ensures
        first_where(rows, pred) == Some(rows[k]),
    decreases rows.len(),
{
    if k > 0 {
        let t = rows.drop_first();
        assert(!pred(rows[0]));
        assert forall|i: int| 0 <= i < t.len() && i != k - 1 implies !pred(#[trigger] t[i]) by {
            assert(t[i] == rows[i + 1]);
        }
        lemma_first_where_only(t, pred, k - 1);
    }
}

/// When no row satisfies `pred`, nothing is found.
proof fn lemma_first_where_none<T>(rows: Seq<T>, pred: spec_fn(T) -> bool)
    requires
        none_where(rows, pred),
    ensures
        first_where(rows, pred) is None,
    decreases rows.len(),
{
    if rows.len() > 0 {
        let t = rows.drop_first();
        assert(!pred(rows[0]));
        assert forall|i: int| 0 <= i < t.len() implies !pred(#[trigger] t[i]) by {
            assert(t[i] == rows[i + 1]);
        }
        lemma_first_where_none(t, pred);
    }
}

/// A row appended where no row satisfies `pred`, and that satisfies it, is
/// what a lookup by `pred` finds.
proof fn lemma_find_appended<T>(rows: Seq<T>, pred: spec_fn(T) -> bool, x: T)
    requires
        none_where(rows, pred),
        pred(x),
    ensures
        first_where(rows.push(x), pred) == Some(x),
{
    let r = rows.push(x);
    assert forall|i: int| 0 <= i < r.len() && i != rows.len() implies !pred(#[trigger] r[i]) by {
        assert(r[i] == rows[i]);
    }
    lemma_first_where_only(r, pred, rows.len() as int);
}

/// A blog post stored under an id and a title that no stored post has is
/// what the lookups by that id and by that title give back.
pub proof fn lemma_read_post_after_insert(posts: Seq<BlogPost>, b: BlogPost)
    requires
        none_where(posts, post_has_id(b.id@)),
        none_where(posts, post_has_title(b.title@)),
    ensures
        first_where(posts.push(b), post_has_id(b.id@)) == Some(b),
        first_where(posts.push(b), post_has_title(b.title@)) == Some(b),
{
    lemma_find_appended(posts, post_has_id(b.id@), b);
    lemma_find_appended(posts, post_has_title(b.title@), b);
}

/// Once a user is stored under a name that no stored user has, a login with
/// that name and the password stored for them (hashed with their salt)
/// gives back the user's id.
pub proof fn lemma_login_after_registration(users: Seq<User>, u: User)
    requires
        none_where(users, user_has_name(u.name@)),
    ensures
        stored_credentials(users.push(u), u.name@) == Some(credentials_of(u)),
        credentials_check(stored_credentials(users.push(u), u.name@), u.password@) == Ok::<
            Seq<char>,
            Seq<char>,
        >(u.id@),
{
    lemma_find_appended(users, user_has_name(u.name@), u);
}

/// The editor rows that remain once the rows recording `user` as an
/// editor of `project` are deleted.
pub open spec fn without_editor(rows: Seq<ProjectEditor>, project: Seq<char>, user: Seq<char>) -> Seq<
    ProjectEditor,
> {
    keep_where(rows, other_editor_row(project, user))
}

/// A row that does not record `user` as an editor of `project`.
pub open spec fn other_editor_row(project: Seq<char>, user: Seq<char>) -> spec_fn(ProjectEditor) -> bool {
    |r: ProjectEditor| !(r.project_id@ == project && r.user_id@ == user)
}

/// Deleting the rows of a user who is not an editor of `project` leaves the
/// project's editors as they are.
proof fn lemma_remove_absent_editor(rows: Seq<ProjectEditor>, project: Seq<char>, user: Seq<char>)
    requires
        !editor_ids(rows, project).contains(user),
    ensures
        editor_ids(without_editor(rows, project, user), project) == editor_ids(rows, project),
    decreases rows.len(),
{
    if rows.len() > 0 {
        let t = rows.drop_last();
        let last = rows.last();
        if last.project_id@ == project {
            let e = editor_ids(rows, project);
            assert(e == editor_ids(t, project).push(last.user_id@));
            assert(e[e.len() - 1] == last.user_id@);
            assert(last.user_id@ != user);
            assert forall|w: Seq<char>| editor_ids(t, project).contains(w) implies e.contains(w) by {
                let i = choose|i: int| 0 <= i < editor_ids(t, project).len() && editor_ids(t, project)[i] == w;
                assert(e[i] == w);
            }
        }
        lemma_remove_absent_editor(t, project, user);
        let pred = other_editor_row(project, user);
        assert(pred(last));
        let kept = keep_where(t, pred);
        assert(without_editor(rows, project, user) == kept.push(last));
        assert(kept.push(last).drop_last() =~= kept);
    }
}

/// Recording a user who is not yet an editor of `project` adds exactly that
/// user to its editors, and deleting that record again gives back the
/// editors there were.
pub proof fn lemma_add_then_remove_editor(rows: Seq<ProjectEditor>, e: ProjectEditor)
    requires
        !editor_ids(rows, e.project_id@).contains(e.user_id@),
    ensures
        editor_ids(rows.push(e), e.project_id@) == editor_ids(rows, e.project_id@).push(e.user_id@),
        editor_ids(without_editor(rows.push(e), e.project_id@, e.user_id@), e.project_id@)
            == editor_ids(rows, e.project_id@),
{
    let p = e.project_id@;
    let u = e.user_id@;
    let r = rows.push(e);
    assert(r.drop_last() =~= rows);
    assert(without_editor(r, p, u) == without_editor(rows, p, u));
    lemma_remove_absent_editor(rows, p, u);
}

/// A column's value after an update that gives `new` for it (`None`: left
/// as it is).
pub open spec fn updated<T>(old: T, new: Option<T>) -> T {
    match new {
        Some(v) => v,
        None => old,
    }
}

/// The users after `changes` are written: each row whose id is the
/// changes' id takes every value the changes give.
pub open spec fn apply_user_update(users: Seq<User>, changes: UpdateUser) -> Seq<User> {
    users.map_values(
        |x: User|
            if x.id@ == changes.id@ {
                User {
                    name: updated(x.name, changes.name),
                    email: updated(x.email, changes.email),
                    password: updated(x.password, changes.password),
                    password_salt: updated(x.password_salt, changes.password_salt),
                    is_banned: updated(x.is_banned, changes.is_banned),
                    ..x
                }
            } else {
                x
            },
    )
}

/// After a user found by their name is renamed, with the changes that
/// `services::change_name` makes, to a name that no user has, the lookup by
/// the new name finds that user with only the name changed, and the lookup
/// by the old name finds no one. Names and ids are unique, as the table's
/// keys keep them.
pub proof fn lemma_rename(users: Seq<User>, k: int, new_name: String, changes: UpdateUser)
    requires
        0 <= k < users.len(),
        forall|i: int, j: int|
            0 <= i < users.len() && 0 <= j < users.len() && i != j ==> users[i].name@
                != users[j].name@ && users[i].id@ != users[j].id@,
        none_where(users, user_has_name(new_name@)),
        changes == (UpdateUser {
            id: users[k].id,
            name: Some(new_name),
            email: None,
            password: None,
            password_salt: None,
            is_banned: None,
        }),
    ensures
        first_where(users, user_has_name(users[k].name@)) == Some(users[k]),
        first_where(apply_user_update(users, changes), user_has_name(new_name@)) == Some(
            User { name: new_name, ..users[k] },
        ),
        first_where(apply_user_update(users, changes), user_has_name(users[k].name@)) is None,
{
    let u = users[k];
    let r = apply_user_update(users, changes);
    assert forall|i: int| 0 <= i < users.len() && i != k implies !user_has_name(u.name@)(
        #[trigger] users[i],
    ) by {}
    lemma_first_where_only(users, user_has_name(u.name@), k);
    assert(!user_has_name(new_name@)(users[k]));
    assert(r[k] == User { name: new_name, ..u });
    assert forall|i: int| 0 <= i < r.len() && i != k implies !user_has_name(new_name@)(
        #[trigger] r[i],
    ) by {
        assert(r[i] == users[i]);
        assert(!user_has_name(new_name@)(users[i]));
    }
    lemma_first_where_only(r, user_has_name(new_name@), k);
    assert forall|i: int| 0 <= i < r.len() implies !user_has_name(u.name@)(#[trigger] r[i]) by {
        if i != k {
            assert(r[i] == users[i]);
        }
    }
    lemma_first_where_none(r, user_has_name(u.name@));
}

/// Writing the changes of a password change to the row of user `k` (ids
/// being unique) sets that row's password to the new hash and leaves its
/// other columns, and every other row, as they were.
pub proof fn lemma_password_store(users: Seq<User>, k: int, hash: String, changes: UpdateUser)
    requires
        0 <= k < users.len(),
        forall|i: int, j: int|
            0 <= i < users.len() && 0 <= j < users.len() && i != j ==> users[i].id@ != users[j].id@,
        changes == (UpdateUser {
            id: users[k].id,
            name: None,
            email: None,
            password: Some(hash),
            password_salt: None,
            is_banned: None,
        }),
    ensures
        apply_user_update(users, changes).len() == users.len(),
        apply_user_update(users, changes)[k] == (User { password: hash, ..users[k] }),
        forall|i: int|
            0 <= i < users.len() && i != k ==> #[trigger] apply_user_update(users, changes)[i]
                == users[i],
{
}

} // verus!
