use wiremix::truncate::with_ellipses;

#[test]
fn equal() {
    assert_eq!(with_ellipses("hello", 5), "hello");
}

#[test]
fn larger() {
    assert_eq!(with_ellipses("hello", 6), "hello");
}

#[test]
fn shorter() {
    assert_eq!(with_ellipses("hello", 4), "h...");
}

#[test]
fn too_short() {
    assert_eq!(with_ellipses("hello", 3), "...");
}

#[test]
fn much_too_short() {
    assert_eq!(with_ellipses("hello", 2), "..");
}

#[test]
fn empty() {
    assert_eq!(with_ellipses("hello", 0), "");
}

#[test]
fn wide_characters_count_twice() {
    // Each of these takes two columns.
    assert_eq!(with_ellipses("日本語テキスト", 7), "日本...");
    assert_eq!(with_ellipses("日本", 4), "日本");
}
