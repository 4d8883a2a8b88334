use theist::file_helper::{extension, file_stem_of, filename, path, title};

#[test]
fn parent_directories() {
    assert_eq!(path("a/b/c.cos"), "a/b/");
    assert_eq!(path("c.cos"), "/");
    assert_eq!(path("/c.cos"), "//");
    assert_eq!(path("/"), "");
    assert_eq!(path(""), "");
    assert_eq!(path("a/b/"), "a/");
    assert_eq!(path("a//b"), "a/");
    assert_eq!(path("a/./b/c"), "a/./b/");
    assert_eq!(path("./a"), "./");
    assert_eq!(path("a/.."), "a/");
    assert_eq!(path("."), "/");
}

#[test]
fn names_stems_and_extensions() {
    assert_eq!(filename("dir/ball.c16"), "ball.c16");
    assert_eq!(filename("dir/.."), "");
    assert_eq!(title("dir/ball.c16"), "ball");
    assert_eq!(extension("dir/ball.c16"), "c16");
    assert_eq!(extension("dir/ball"), "");
    assert_eq!(extension(".hidden"), "");
    assert_eq!(title("a.b.c/"), "a.b");
    assert_eq!(file_stem_of("/"), None);
    assert_eq!(file_stem_of("x/y.z"), Some("y".to_string()));
}
