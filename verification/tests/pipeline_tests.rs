use mdblog::date::Date;
use mdblog::error::PostError;
use mdblog::input::{input_step, InputEvent};
use mdblog::post::Post;
use mdblog::render::build;
use mdblog::state::generate_app_state;

fn content_with(topic: &str, description: &str, body: &str) -> String {
    format!("---\ntopic: {}\ndescription: {}\n---\n{}", topic, description, body)
}

#[test]
fn builds_record_for_valid_input() {
    let content = content_with("rust", "intro", "# Hello World\n\nsome body text\n");
    let post = Post::from_file_path("posts/tech/2021-05-04-hello-world.md", Some(&content))
        .unwrap();
    assert_eq!(post.file_name, "2021-05-04-hello-world");
    assert_eq!(post.title, "hello world");
    assert_eq!(post.date, Date::from_ymd(2021, 5, 4).unwrap());
    assert_eq!(post.collection, "tech");
    assert_eq!(post.url, "tech/2021-05-04-hello-world");
    assert_eq!(post.source_file_path, "posts/tech/2021-05-04-hello-world.md");
    assert_eq!(post.frontmatter.topic, "rust");
    assert_eq!(post.frontmatter.description, "intro");
    assert!(post.frontmatter.title.is_none());
}

#[test]
fn frontmatter_title_override_is_kept() {
    let content = "---\ntopic: rust\ndescription: intro\ntitle: Overridden\n---\nbody\n";
    let post = Post::from_file_path("posts/tech/2021-05-04-hello-world.md", Some(content))
        .unwrap();
    assert_eq!(post.frontmatter.title.as_deref(), Some("Overridden"));
}

#[test]
fn missing_extension_and_invalid_extension() {
    let content = content_with("t", "d", "b");
    let err = Post::from_file_path("posts/tech/2021-05-04-hello", Some(&content)).unwrap_err();
    assert_eq!(err.message, "no file extension");
    let err = Post::from_file_path("posts/tech/2021-05-04-hello.txt", Some(&content))
        .unwrap_err();
    assert_eq!(err.message, "invalid file extension");
}

#[test]
fn out_of_range_dates_are_invalid() {
    let content = content_with("t", "d", "b");
    let err = Post::from_file_path("posts/tech/2021-13-01-hello.md", Some(&content))
        .unwrap_err();
    assert_eq!(err.message, "could not parse date");
    let err = Post::from_file_path("posts/tech/2021-02-30-hello.md", Some(&content))
        .unwrap_err();
    assert_eq!(err.message, "could not parse date");
}

#[test]
fn leap_years_follow_the_calendar() {
    assert!(Date::from_ymd(2020, 2, 29).is_some());
    assert!(Date::from_ymd(2021, 2, 29).is_none());
    assert!(Date::from_ymd(1900, 2, 29).is_none());
    assert!(Date::from_ymd(2000, 2, 29).is_some());
    assert!(Date::from_ymd(2021, 4, 31).is_none());
    assert!(Date::from_ymd(2021, 12, 31).is_some());
    assert!(Date::from_ymd(2021, 0, 1).is_none());
    assert!(Date::from_ymd(2021, 1, 0).is_none());
}

#[test]
fn file_at_root_is_not_in_a_collection() {
    let content = content_with("t", "d", "b");
    let err = Post::from_file_path("posts/2021-05-04-hello.md", Some(&content)).unwrap_err();
    assert_eq!(err.message, "post does not belong to a collection");
}

#[test]
fn file_two_levels_deep_is_nested_too_deep() {
    let content = content_with("t", "d", "b");
    let err = Post::from_file_path("posts/tech/deep/2021-05-04-hello.md", Some(&content))
        .unwrap_err();
    assert_eq!(err.message, "directories nested too deep.");
}

#[test]
fn unreadable_file_is_a_read_error() {
    let err = Post::from_file_path("posts/tech/2021-05-04-hello.md", None).unwrap_err();
    assert_eq!(err.message, "could not read markdown file");
}

#[test]
fn missing_frontmatter_block_is_a_decode_error() {
    let err = Post::from_file_path(
        "posts/tech/2021-05-04-hello.md",
        Some("# just a body, no block\n"),
    )
    .unwrap_err();
    assert_eq!(err.message, "failed to create YAML frontmatter");
}

#[test]
fn missing_required_field_is_a_decode_error() {
    let err = Post::from_file_path(
        "posts/tech/2021-05-04-hello.md",
        Some("---\ntopic: rust\n---\nbody\n"),
    )
    .unwrap_err();
    assert_eq!(err.message, "failed to create YAML frontmatter");
}

#[test]
fn end_to_end_single_post() {
    let content = content_with("rust", "intro", "# Hello World\n\nintro text\n");
    let entries = vec![(
        "posts/tech/2021-05-04-hello-world.md".to_string(),
        Some(content.clone()),
    )];
    let (results, pages) = build(&entries);
    assert_eq!(results.len(), 1);
    let post = results[0].as_ref().unwrap();
    assert_eq!(post.file_name, "2021-05-04-hello-world");
    assert_eq!(post.collection, "tech");
    assert_eq!(post.url, "tech/2021-05-04-hello-world");
    assert_eq!(pages.len(), 1);
    assert_eq!(pages[0].file_name, "2021-05-04-hello-world.html");
    let expected = comrak::markdown_to_html(&content, &comrak::Options::default());
    assert_eq!(pages[0].html, expected);
    assert!(pages[0].html.contains("Hello World"));
}

#[test]
fn dateless_stem_yields_empty_title_failure() {
    let content = content_with("t", "d", "b");
    let entries = vec![("posts/2021-05-04.md".to_string(), Some(content))];
    let (results, pages) = build(&entries);
    assert_eq!(results.len(), 1);
    assert!(pages.is_empty());
    let (state, errors) = generate_app_state(results);
    assert!(state.posts.is_empty());
    assert_eq!(errors.len(), 1);
    assert_eq!(errors[0].message, "post has no title");
}

#[test]
fn build_twice_is_identical() {
    let entries = vec![
        (
            "posts/tech/2021-05-04-hello.md".to_string(),
            Some(content_with("rust", "intro", "body one\n")),
        ),
        ("posts/tech/bad-name.md".to_string(), Some(content_with("t", "d", "b"))),
        ("posts/tech/2021-06-01-later.md".to_string(), None),
    ];
    let (results1, pages1) = build(&entries);
    let (results2, pages2) = build(&entries);
    assert_eq!(results1, results2);
    assert_eq!(pages1.len(), pages2.len());
    for (a, b) in pages1.iter().zip(pages2.iter()) {
        assert_eq!(a.file_name, b.file_name);
        assert_eq!(a.html, b.html);
    }
}

#[test]
fn successes_are_sorted_by_date() {
    let mk = |name: &str| {
        (
            format!("posts/tech/{}", name),
            Some(content_with("t", "d", "b")),
        )
    };
    let entries = vec![
        mk("2021-01-01-first.md"),
        mk("2020-06-15-second.md"),
        mk("2022-03-03-third.md"),
    ];
    let (results, _pages) = build(&entries);
    let (state, errors) = generate_app_state(results);
    assert!(errors.is_empty());
    let dates: Vec<(u32, u32, u32)> = state
        .posts
        .iter()
        .map(|p| (p.date.year, p.date.month, p.date.day))
        .collect();
    assert_eq!(dates, vec![(2020, 6, 15), (2021, 1, 1), (2022, 3, 3)]);
}

#[test]
fn equal_dates_keep_discovery_order() {
    let mk = |name: &str| {
        (
            format!("posts/tech/{}", name),
            Some(content_with("t", "d", "b")),
        )
    };
    let entries = vec![
        mk("2021-01-02-b.md"),
        mk("2021-01-01-a.md"),
        mk("2021-01-02-a.md"),
    ];
    let (results, _pages) = build(&entries);
    let (state, _errors) = generate_app_state(results);
    let names: Vec<&str> = state.posts.iter().map(|p| p.file_name.as_str()).collect();
    assert_eq!(names, vec!["2021-01-01-a", "2021-01-02-b", "2021-01-02-a"]);
}

#[test]
fn collections_are_distinct_in_first_appearance_order() {
    let mk = |coll: &str, name: &str| {
        (
            format!("posts/{}/{}", coll, name),
            Some(content_with("t", "d", "b")),
        )
    };
    let entries = vec![
        mk("tech", "2021-01-01-a.md"),
        mk("life", "2021-01-02-b.md"),
        mk("tech", "2021-01-03-c.md"),
    ];
    let (results, _pages) = build(&entries);
    let (state, errors) = generate_app_state(results);
    assert!(errors.is_empty());
    assert_eq!(state.collections, vec!["tech".to_string(), "life".to_string()]);
}

#[test]
fn failures_keep_their_relative_order() {
    let entries = vec![
        ("posts/tech/no-extension".to_string(), Some(content_with("t", "d", "b"))),
        ("posts/tech/2021-01-01-ok.md".to_string(), Some(content_with("t", "d", "b"))),
        ("posts/tech/2021-13-01-bad.md".to_string(), Some(content_with("t", "d", "b"))),
    ];
    let (results, _pages) = build(&entries);
    let (state, errors) = generate_app_state(results);
    assert_eq!(state.posts.len(), 1);
    assert_eq!(errors.len(), 2);
    assert_eq!(errors[0].message, "no file extension");
    assert_eq!(errors[1].message, "could not parse date");
}

#[test]
fn source_path_of_a_published_address() {
    let path = mdblog::render::post_source_path("tech", "2021-05-04-hello-world");
    assert_eq!(path, "posts/tech/2021-05-04-hello-world.md");
}

#[test]
fn post_error_new_keeps_the_message() {
    let err = PostError::new("anything at all");
    assert_eq!(err.message, "anything at all");
}

#[test]
fn input_steps_accumulate_until_enter() {
    let (buf, done) = input_step(Vec::new(), InputEvent::Char('h'));
    assert!(!done);
    let (buf, done) = input_step(buf, InputEvent::Char('i'));
    assert!(!done);
    let (buf, done) = input_step(buf, InputEvent::Other);
    assert!(!done);
    assert_eq!(buf, vec!['h', 'i']);
    let (buf, done) = input_step(buf, InputEvent::Enter);
    assert!(done);
    assert_eq!(buf, vec!['h', 'i']);
}
