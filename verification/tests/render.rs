use holosite::model::Comment;
use holosite::render::render_regular_comments;

fn remove_spaces(s: &str) -> String {
    s.chars().filter(|c| !c.is_whitespace()).collect()
}

fn random_id() -> String {
    uuid::Uuid::new_v4().to_string()
}

/// A stand-in for the comment template: the text, then the replies inside.
fn render_comment(
    author: &str,
    date: &str,
    contents: &str,
    rendered_children: Vec<String>,
) -> Result<String, String> {
    Ok(format!(
        "<div class=\"comment\"><p>{}</p><p>{}</p><p>{}</p><div class=\"replies\">{}</div></div>",
        author,
        date,
        contents,
        rendered_children.concat()
    ))
}

fn expected_node(contents: &str, children: &[String]) -> String {
    render_comment("TODO", "TODO", contents, children.to_vec()).unwrap()
}

fn test_render_comments(comments: Vec<Comment>) -> Result<String, String> {
    render_regular_comments(comments, render_comment)
}

fn generate_comment(contents: String, id: Option<String>, reply_to: Option<String>) -> Comment {
    Comment {
        id: id.unwrap_or_else(random_id),
        contents,
        author_id: random_id(),
        post_id: random_id(),
        reply_to_id: reply_to,
        created_at: "".to_string(),
        updated_at: "".to_string(),
        is_deleted: false,
    }
}

#[test]
fn render_comment_works() {
    let comments = vec![generate_comment("hello world".to_string(), None, None)];
    let rendered = test_render_comments(comments).unwrap();
    let expected = expected_node("hello world", &[]);

    let expected_without_spaces = remove_spaces(&expected);
    let rendered_without_spaces = remove_spaces(&rendered);
    assert_eq!(rendered_without_spaces, expected_without_spaces);
}

#[test]
fn render_reply_works() {
    let id0 = random_id();
    let comments = vec![
        generate_comment("hello".to_string(), Some(id0.clone()), None),
        generate_comment("world".to_string(), None, Some(id0.clone())),
    ];
    let rendered = test_render_comments(comments).unwrap();
    let expected = expected_node("hello", &[expected_node("world", &[])]);

    let expected_without_spaces = remove_spaces(&expected);
    let rendered_without_spaces = remove_spaces(&rendered);
    assert_eq!(rendered_without_spaces, expected_without_spaces);
}

#[test]
fn render_multiple_replies_works() {
    let id0 = random_id();
    let comments = vec![
        generate_comment("1".to_string(), Some(id0.clone()), None),
        generate_comment("2".to_string(), None, Some(id0.clone())),
        generate_comment("3".to_string(), None, Some(id0.clone())),
    ];
    let rendered = test_render_comments(comments).unwrap();
    let expected = expected_node("1", &[expected_node("2", &[]), expected_node("3", &[])]);

    let expected_without_spaces = remove_spaces(&expected);
    let rendered_without_spaces = remove_spaces(&rendered);
    assert_eq!(rendered_without_spaces, expected_without_spaces);
}

#[test]
fn render_multiple_toplevel_comments() {
    let comments = vec![
        generate_comment("2".to_string(), None, None),
        generate_comment("3".to_string(), None, None),
    ];
    let rendered = test_render_comments(comments).unwrap();
    let expected = expected_node("2", &[]) + &expected_node("3", &[]);

    let expected_without_spaces = remove_spaces(&expected);
    let rendered_without_spaces = remove_spaces(&rendered);
    assert_eq!(rendered_without_spaces, expected_without_spaces);
}

#[test]
fn render_multiple_levels_of_nesting_and_multiple_children_works() {
    let id0 = random_id();
    let id1 = random_id();
    let id2 = random_id();
    let comments = vec![
        generate_comment("1".to_string(), Some(id0.clone()), None),
        generate_comment("2".to_string(), None, Some(id0.clone())),
        generate_comment("3".to_string(), Some(id1.clone()), Some(id0.clone())),
        generate_comment("4".to_string(), Some(id2.clone()), Some(id1.clone())),
        generate_comment("5".to_string(), None, Some(id2.clone())),
        generate_comment("6".to_string(), None, Some(id2.clone())),
    ];
    let rendered = test_render_comments(comments).unwrap();
    let four = expected_node("4", &[expected_node("5", &[]), expected_node("6", &[])]);
    let three = expected_node("3", &[four]);
    let expected = expected_node("1", &[expected_node("2", &[]), three]);

    let expected_without_spaces = remove_spaces(&expected);
    let rendered_without_spaces = remove_spaces(&rendered);
    assert_eq!(rendered_without_spaces, expected_without_spaces);
}

/// A renderer shaped like the older page's: author and date fixed.
fn render_comment_plain(
    _author: &str,
    _date: &str,
    contents: &str,
    rendered_children: Vec<String>,
) -> Result<String, String> {
    Ok(format!("[author|date|{}|{}]", contents, rendered_children.concat()))
}

#[test]
fn render_comment_work() {
    let comments = vec![Comment {
        id: random_id(),
        contents: "hello world".to_string(),
        author_id: random_id(),
        post_id: random_id(),
        reply_to_id: None,
        created_at: "".to_string(),
        updated_at: "".to_string(),
        is_deleted: false,
    }];
    let rendered = render_regular_comments(comments, render_comment_plain).unwrap();
    println!("{}", rendered);
    assert_eq!(rendered, "[author|date|hello world|]");
}

#[test]
fn render_comments_work() {
    let id0 = random_id();
    let comments = vec![
        Comment {
            id: random_id(),
            contents: "hello world".to_string(),
            author_id: random_id(),
            post_id: random_id(),
            reply_to_id: Some(id0.clone()),
            created_at: "".to_string(),
            updated_at: "".to_string(),
            is_deleted: false,
        },
        Comment {
            id: id0,
            contents: "hello".to_string(),
            author_id: random_id(),
            post_id: random_id(),
            reply_to_id: None,
            created_at: "".to_string(),
            updated_at: "".to_string(),
            is_deleted: false,
        },
    ];
    let rendered = render_regular_comments(comments, render_comment_plain).unwrap();
    println!("{}", rendered);
    assert_eq!(rendered, "[author|date|hello|[author|date|hello world|]]");
}

fn comment(id: &str, contents: &str, reply_to: Option<&str>, deleted: bool) -> Comment {
    Comment {
        id: id.to_string(),
        contents: contents.to_string(),
        author_id: "u".to_string(),
        post_id: "p".to_string(),
        reply_to_id: reply_to.map(|r| r.to_string()),
        created_at: "".to_string(),
        updated_at: "".to_string(),
        is_deleted: deleted,
    }
}

fn brackets(
    _author: &str,
    _date: &str,
    contents: &str,
    rendered_children: Vec<String>,
) -> Result<String, String> {
    Ok(format!("({}{})", contents, rendered_children.concat()))
}

#[test]
fn top_level_comments_are_ordered_by_text() {
    let comments = vec![
        comment("a", "pear", None, false),
        comment("b", "apple", None, false),
        comment("c", "fig", None, false),
    ];
    assert_eq!(render_regular_comments(comments, brackets).unwrap(), "(apple)(fig)(pear)");
}

#[test]
fn equal_texts_keep_their_input_order() {
    let comments = vec![
        comment("a", "same", None, false),
        comment("x", "child of a", Some("a"), false),
        comment("b", "same", None, false),
        comment("y", "child of b", Some("b"), false),
    ];
    assert_eq!(
        render_regular_comments(comments, brackets).unwrap(),
        "(same(child of a))(same(child of b))"
    );
}

#[test]
fn order_is_by_code_point_and_prefix_first() {
    let comments = vec![
        comment("a", "ab", None, false),
        comment("b", "a", None, false),
        comment("c", "B", None, false),
        comment("d", "é", None, false),
    ];
    assert_eq!(render_regular_comments(comments, brackets).unwrap(), "(B)(a)(ab)(é)");
}

#[test]
fn deleted_comments_show_a_marker_and_keep_their_place() {
    let comments = vec![
        comment("a", "zzz", None, true),
        comment("b", "aaa", None, false),
        comment("c", "reply", Some("a"), false),
    ];
    assert_eq!(
        render_regular_comments(comments, brackets).unwrap(),
        "(aaa)(<deleted>(reply))"
    );
}

#[test]
fn replies_to_missing_comments_are_left_out() {
    let comments = vec![
        comment("a", "root", None, false),
        comment("b", "lost", Some("nowhere"), false),
        comment("c", "below lost", Some("b"), false),
    ];
    assert_eq!(render_regular_comments(comments, brackets).unwrap(), "(root)");
}

#[test]
fn empty_thread_renders_nothing() {
    assert_eq!(render_regular_comments(vec![], brackets).unwrap(), "");
}

#[test]
fn renderer_receives_placeholder_author_and_date() {
    let comments = vec![comment("a", "x", None, false)];
    let rendered = render_regular_comments(comments, |a: &str, d: &str, c: &str, _k: Vec<String>| {
        Ok::<String, String>(format!("{}/{}/{}", a, d, c))
    })
    .unwrap();
    assert_eq!(rendered, "TODO/TODO/x");
}

#[test]
fn renderer_failure_is_returned() {
    let comments = vec![
        comment("a", "ok", None, false),
        comment("b", "bad", Some("a"), false),
    ];
    let r = render_regular_comments(comments, |_a: &str, _d: &str, c: &str, _k: Vec<String>| {
        if c == "bad" {
            Err(format!("cannot render {}", c))
        } else {
            Ok(c.to_string())
        }
    });
    assert_eq!(r, Err("cannot render bad".to_string()));
}

#[test]
fn deep_chain_is_rendered_completely() {
    let mut comments = vec![comment("0", "level 0", None, false)];
    for i in 1..20 {
        comments.push(comment(
            &i.to_string(),
            &format!("level {}", i),
            Some(&(i - 1).to_string()),
            false,
        ));
    }
    let rendered = render_regular_comments(comments, brackets).unwrap();
    let mut expected = String::new();
    for i in (0..20).rev() {
        expected = format!("(level {}{})", i, expected);
    }
    assert_eq!(rendered, expected);
}

#[test]
fn the_first_failure_in_the_walk_is_returned() {
    // Replies are rendered before their comment, last reply first; the
    // top-level comments in order of their text.
    let comments = vec![
        comment("a", "root a", None, false),
        comment("x", "one", Some("a"), false),
        comment("y", "two", Some("a"), false),
        comment("b", "root b", None, false),
    ];
    let failing = |_a: &str, _d: &str, c: &str, k: Vec<String>| {
        if c == "one" || c == "two" || c == "root b" {
            Err(format!("cannot render {}", c))
        } else {
            Ok(format!("({}{})", c, k.concat()))
        }
    };
    assert_eq!(render_regular_comments(comments, failing), Err("cannot render two".to_string()));

    let comments = vec![
        comment("a", "root a", None, false),
        comment("b", "root b", None, false),
        comment("z", "reply", Some("b"), false),
    ];
    let failing = |_a: &str, _d: &str, c: &str, k: Vec<String>| {
        if c == "root b" || c == "reply" {
            Err(format!("cannot render {}", c))
        } else {
            Ok(format!("({}{})", c, k.concat()))
        }
    };
    assert_eq!(render_regular_comments(comments, failing), Err("cannot render reply".to_string()));
}

#[test]
fn input_order_does_not_matter_when_texts_differ() {
    let comments = vec![
        comment("a", "pear", None, false),
        comment("x", "one", Some("a"), false),
        comment("b", "apple", None, false),
        comment("y", "two", Some("a"), false),
        comment("z", "three", Some("y"), false),
    ];
    let mut reordered = vec![
        comment("z", "three", Some("y"), false),
        comment("y", "two", Some("a"), false),
        comment("b", "apple", None, false),
        comment("x", "one", Some("a"), false),
        comment("a", "pear", None, false),
    ];
    let first = render_regular_comments(comments, brackets).unwrap();
    assert_eq!(first, "(apple)(pear(one)(two(three)))");
    assert_eq!(render_regular_comments(reordered.clone(), brackets).unwrap(), first);
    reordered.swap(0, 4);
    assert_eq!(render_regular_comments(reordered, brackets).unwrap(), first);
}
