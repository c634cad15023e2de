use holosite::queries::get_posts_of_comments;
use holosite::model::{BlogPost, Comment, Page, Project, ProjectBlogPost, ProjectEditor, User};
use holosite::queries::{
    get_all_blog_posts, get_all_projects, get_all_users, get_blog_post_by_id,
    get_blog_post_by_title, get_blog_posts_of_author, get_comment_by_id,
    get_comment_views_for_blog_post, get_comments_for_blog_post, get_comments_of_author,
    get_project_blog_post_ids, get_project_by_id, get_project_by_title, get_project_editor_ids,
    get_stored_credentials, get_user_by_email, get_user_by_id, get_user_by_name,
};

fn user(id: &str, name: &str, email: &str) -> User {
    User {
        id: id.to_string(),
        name: name.to_string(),
        email: email.to_string(),
        created_at: "2022-01-01".to_string(),
        password: format!("hash-of-{}", name),
        password_salt: format!("salt-of-{}", name),
        is_banned: false,
        role: "user".to_string(),
    }
}

fn post(id: &str, title: &str, author: &str) -> BlogPost {
    BlogPost {
        id: id.to_string(),
        title: title.to_string(),
        brief: format!("brief {}", id),
        contents: format!("contents {}", id),
        author_id: author.to_string(),
        created_at: "1".to_string(),
        visibility: "all".to_string(),
    }
}

fn comment(id: &str, author: &str, post: &str) -> Comment {
    Comment {
        id: id.to_string(),
        contents: format!("text {}", id),
        author_id: author.to_string(),
        post_id: post.to_string(),
        reply_to_id: None,
        created_at: "t".to_string(),
        updated_at: "t".to_string(),
        is_deleted: false,
    }
}

fn ids(posts: &[BlogPost]) -> Vec<String> {
    posts.iter().map(|p| p.id.clone()).collect()
}

#[test]
fn user_lookups_find_the_first_match() {
    let users = vec![user("1", "ann", "a@x"), user("2", "bob", "b@x"), user("3", "bob", "c@x")];
    assert_eq!(get_user_by_id(&users, &"2".to_string()).unwrap().name, "bob");
    assert!(get_user_by_id(&users, &"9".to_string()).is_none());
    assert_eq!(get_user_by_name(&users, &"bob".to_string()).unwrap().id, "2");
    assert!(get_user_by_name(&users, &"carl".to_string()).is_none());
    assert_eq!(get_user_by_email(&users, &"c@x".to_string()).unwrap().id, "3");
    assert_eq!(get_all_users(&users).len(), 3);
}

#[test]
fn stored_credentials_are_taken_from_the_named_user() {
    let users = vec![user("1", "ann", "a@x")];
    let c = get_stored_credentials(&users, &"ann".to_string()).unwrap();
    assert_eq!(c.name, "ann");
    assert_eq!(c.password, "hash-of-ann");
    assert_eq!(c.salt, "salt-of-ann");
    assert_eq!(c.user_id, "1");
    assert!(get_stored_credentials(&users, &"bob".to_string()).is_none());
}

#[test]
fn blog_post_lookups() {
    let posts = vec![post("1", "First", "u1"), post("2", "Second", "u2")];
    assert_eq!(get_blog_post_by_id(&posts, &"2".to_string()).unwrap().title, "Second");
    assert!(get_blog_post_by_id(&posts, &"3".to_string()).is_none());
    assert_eq!(get_blog_post_by_title(&posts, &"First".to_string()).unwrap().id, "1");
    assert!(get_blog_post_by_title(&posts, &"first".to_string()).is_none());
}

#[test]
fn pages_of_posts() {
    let posts: Vec<BlogPost> = (0..7).map(|i| post(&i.to_string(), "t", "u")).collect();
    let page = |number, size| Page { number, size };
    assert_eq!(ids(&get_all_blog_posts(&posts, &page(0, 3))), vec!["0", "1", "2"]);
    assert_eq!(ids(&get_all_blog_posts(&posts, &page(1, 3))), vec!["3", "4", "5"]);
    assert_eq!(ids(&get_all_blog_posts(&posts, &page(2, 3))), vec!["6"]);
    assert!(get_all_blog_posts(&posts, &page(3, 3)).is_empty());
    assert!(get_all_blog_posts(&posts, &page(5, 0)).is_empty());
}

#[test]
fn page_bounds_that_do_not_fit_a_signed_value_mean_no_bound() {
    let posts: Vec<BlogPost> = (0..4).map(|i| post(&i.to_string(), "t", "u")).collect();
    let huge = usize::MAX;
    assert_eq!(ids(&get_all_blog_posts(&posts, &Page { number: 0, size: huge })).len(), 4);
    assert_eq!(
        ids(&get_all_blog_posts(&posts, &Page { number: 1, size: (i64::MAX as usize) + 1 })).len(),
        4
    );
}

#[test]
fn posts_of_an_author_are_paged_after_filtering() {
    let posts = vec![
        post("1", "a", "me"),
        post("2", "b", "you"),
        post("3", "c", "me"),
        post("4", "d", "me"),
    ];
    let page = Page { number: 1, size: 2 };
    assert_eq!(ids(&get_blog_posts_of_author(&posts, &"me".to_string(), &page)), vec!["4"]);
    let first = Page { number: 0, size: 2 };
    assert_eq!(ids(&get_blog_posts_of_author(&posts, &"me".to_string(), &first)), vec!["1", "3"]);
}

#[test]
fn comment_queries() {
    let comments = vec![comment("1", "ann", "p1"), comment("2", "bob", "p1"), comment("3", "ann", "p2")];
    assert_eq!(get_comment_by_id(&comments, &"3".to_string()).unwrap().post_id, "p2");
    assert!(get_comment_by_id(&comments, &"4".to_string()).is_none());
    let by_ann: Vec<String> =
        get_comments_of_author(&comments, &"ann".to_string()).into_iter().map(|c| c.id).collect();
    assert_eq!(by_ann, vec!["1", "3"]);
    let on_p1: Vec<String> =
        get_comments_for_blog_post(&comments, &"p1".to_string()).into_iter().map(|c| c.id).collect();
    assert_eq!(on_p1, vec!["1", "2"]);
}

#[test]
fn comment_views_join_authors() {
    let users = vec![user("ann", "Ann", "a@x"), user("bob", "Bob", "b@x")];
    let comments = vec![
        comment("1", "bob", "p1"),
        comment("2", "ghost", "p1"),
        comment("3", "ann", "p2"),
        comment("4", "ann", "p1"),
    ];
    let views = get_comment_views_for_blog_post(&comments, &users, &"p1".to_string());
    let got: Vec<(String, String)> =
        views.into_iter().map(|v| (v.id, v.author_name)).collect();
    assert_eq!(got, vec![("1".to_string(), "Bob".to_string()), ("4".to_string(), "Ann".to_string())]);
}

#[test]
fn project_queries() {
    let projects = vec![
        Project {
            id: "p".to_string(),
            title: "Site".to_string(),
            brief: "".to_string(),
            author_id: "ann".to_string(),
            visibility: "all".to_string(),
        },
        Project {
            id: "q".to_string(),
            title: "Game".to_string(),
            brief: "".to_string(),
            author_id: "bob".to_string(),
            visibility: "all".to_string(),
        },
    ];
    assert_eq!(get_project_by_id(&projects, &"q".to_string()).unwrap().title, "Game");
    assert_eq!(get_project_by_title(&projects, &"Site".to_string()).unwrap().id, "p");
    assert!(get_project_by_title(&projects, &"None".to_string()).is_none());
    assert_eq!(get_all_projects(&projects).len(), 2);

    let editors = vec![
        ProjectEditor { project_id: "p".to_string(), user_id: "ann".to_string() },
        ProjectEditor { project_id: "q".to_string(), user_id: "bob".to_string() },
        ProjectEditor { project_id: "p".to_string(), user_id: "carl".to_string() },
    ];
    assert_eq!(get_project_editor_ids(&editors, &"p".to_string()), vec!["ann", "carl"]);
    let posts = vec![
        ProjectBlogPost { project_id: "q".to_string(), post_id: "1".to_string() },
        ProjectBlogPost { project_id: "p".to_string(), post_id: "2".to_string() },
    ];
    assert_eq!(get_project_blog_post_ids(&posts, &"p".to_string()), vec!["2"]);
}

#[test]
fn posts_of_comments_follow_the_comments() {
    let posts = vec![post("1", "One", "a"), post("2", "Two", "a")];
    let comments = vec![comment("c1", "ann", "2"), comment("c2", "ann", "1"), comment("c3", "bob", "2")];
    let found = get_posts_of_comments(&comments, &posts).unwrap();
    let titles: Vec<String> = found.into_iter().map(|p| p.title).collect();
    assert_eq!(titles, vec!["Two", "One", "Two"]);
    let missing = vec![comment("c1", "ann", "1"), comment("c2", "ann", "9")];
    assert_eq!(get_posts_of_comments(&missing, &posts).unwrap_err(), "Failed to get blog post");
}

#[test]
fn an_inserted_post_is_read_back_by_id_and_title() {
    let mut posts = vec![post("p1", "First", "a"), post("p2", "Second", "b")];
    posts.push(post("p3", "Third", "a"));
    assert_eq!(get_blog_post_by_id(&posts, &"p3".to_string()).unwrap().title, "Third");
    assert_eq!(get_blog_post_by_title(&posts, &"Third".to_string()).unwrap().id, "p3");
}

#[test]
fn adding_then_removing_an_editor_restores_the_editors() {
    let editor = |p: &str, u: &str| ProjectEditor { project_id: p.to_string(), user_id: u.to_string() };
    let mut rows = vec![editor("p", "a"), editor("q", "c"), editor("p", "b")];
    let before = get_project_editor_ids(&rows, &"p".to_string());
    rows.push(editor("p", "c"));
    let added = get_project_editor_ids(&rows, &"p".to_string());
    assert_eq!(added, vec!["a".to_string(), "b".to_string(), "c".to_string()]);
    rows.retain(|r| !(r.project_id == "p" && r.user_id == "c"));
    assert_eq!(get_project_editor_ids(&rows, &"p".to_string()), before);
    assert_eq!(get_project_editor_ids(&rows, &"q".to_string()), vec!["c".to_string()]);
}

#[test]
fn a_renamed_user_is_found_by_the_new_name_only() {
    let mut users = vec![user("1", "ann", "a@x"), user("2", "bob", "b@x")];
    let found = get_user_by_name(&users, &"bob".to_string()).unwrap();
    for u in users.iter_mut() {
        if u.id == found.id {
            u.name = "robert".to_string();
        }
    }
    let renamed = get_user_by_name(&users, &"robert".to_string()).unwrap();
    assert_eq!((renamed.id.as_str(), renamed.email.as_str()), ("2", "b@x"));
    assert_eq!(renamed.password, "hash-of-bob");
    assert!(get_user_by_name(&users, &"bob".to_string()).is_none());
}
