use mdblog::date::Date;
use mdblog::mk::Post;

#[test]
fn should_return_markdown() {
    let input = "Hello World";
    let output = "<p>Hello World</p>\n";
    assert_eq!(
        comrak::markdown_to_html(input, &comrak::Options::default()),
        output
    );
}

#[test]
fn should_parse_markdown_file_name_and_return_post_struct() {
    let output = Post {
        title: "my-post".to_string(),
        date: Date::from_ymd(2000, 1, 1).unwrap(),
    };
    assert_eq!(
        Post::from_file_path("my_directory/2000-01-01-my-post.mk").unwrap(),
        output
    );
}

#[test]
fn should_fail_because_file_has_no_name() {
    let result = Post::from_file_path("");
    assert!(result.is_err());
}

#[test]
fn should_fail_because_file_has_no_name_and_provide_message() {
    let result = Post::from_file_path("");
    if let Err(err) = result {
        assert!(err.message == "file has no name")
    } else {
        panic!()
    };
}

#[test]
fn should_fail_because_file_has_no_extension() {
    let result = Post::from_file_path("my_directory/2000-01-01-my-post");
    if let Err(err) = result {
        assert!(err.message == "no file extension")
    } else {
        panic!()
    }
}

#[test]
fn should_fail_because_file_extension_is_not_mk() {
    let result = Post::from_file_path("my_directory/2000-01-01-my-post.ext");
    if let Err(err) = result {
        assert!(err.message == "invalid file extension")
    } else {
        panic!()
    }
}

#[test]
fn should_fail_because_name_has_no_year() {
    let result = Post::from_file_path("my_directory/-01-01-my-post.mk");
    if let Err(err) = result {
        assert!(err.message == "could not parse year")
    } else {
        panic!()
    }
}

#[test]
fn should_fail_because_name_has_no_month() {
    let result = Post::from_file_path("my_directory/2000-month-01-my-post.mk");
    if let Err(err) = result {
        println!("{}", err.message);
        assert!(err.message == "could not parse month")
    } else {
        panic!()
    }
}

#[test]
fn should_fail_because_name_has_no_day() {
    let result = Post::from_file_path("my_directory/2000-01-day-my-post.mk");
    if let Err(err) = result {
        println!("{}", err.message);
        assert!(err.message == "could not parse day")
    } else {
        panic!()
    }
}

#[test]
fn should_fail_because_date_invalid() {
    let result = Post::from_file_path("my_directory/2000-111-01-my-post.mk");
    if let Err(err) = result {
        println!("{}", err.message);
        assert!(err.message == "could not parse date")
    } else {
        panic!()
    }
}

#[test]
fn should_fail_because_name_has_no_title() {
    let result = Post::from_file_path("my_directory/2000-01-01.mk");
    if let Err(err) = result {
        println!("{}", err.message);
        assert!(err.message == "post has no title")
    } else {
        panic!()
    }
}
