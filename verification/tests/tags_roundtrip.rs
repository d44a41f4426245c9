use blog_server::tags::{join_tags, split_tags};

#[test]
fn join_uses_pipe_between_tags() {
    let tags = vec![String::from("rust"), String::from("blog"), String::from("x")];
    assert_eq!(join_tags(&tags), "rust|blog|x");
}

#[test]
fn join_of_one_tag_is_the_tag() {
    let tags = vec![String::from("solo")];
    assert_eq!(join_tags(&tags), "solo");
}

#[test]
fn join_of_nothing_is_empty() {
    let tags: Vec<String> = vec![];
    assert_eq!(join_tags(&tags), "");
}

#[test]
fn split_cuts_on_pipe() {
    assert_eq!(
        split_tags("rust|blog|x"),
        vec![String::from("rust"), String::from("blog"), String::from("x")]
    );
}

#[test]
fn split_of_empty_is_one_empty_segment() {
    assert_eq!(split_tags(""), vec![String::from("")]);
}

#[test]
fn round_trip_preserves_the_ordered_list() {
    let tags = vec![String::from("alpha"), String::from("beta"), String::from("gamma")];
    assert_eq!(split_tags(&join_tags(&tags)), tags);
}

#[test]
fn round_trip_keeps_empty_tags() {
    let tags = vec![String::from(""), String::from("mid"), String::from("")];
    assert_eq!(split_tags(&join_tags(&tags)), tags);
}

#[test]
fn round_trip_with_unicode_tags() {
    let tags = vec![String::from("blåbær"), String::from("日記")];
    assert_eq!(split_tags(&join_tags(&tags)), tags);
}
