use parallel_reduce::greeting::validate;

#[test]
fn empty_name_is_rejected() {
    assert_eq!(validate(""), "<p style=\"color: red;\">Name cannot be empty!</p>");
}

#[test]
fn name_is_greeted() {
    assert_eq!(validate("Ada"), "<p>Hello, Ada!</p>");
    assert_eq!(validate("Ada"), format!("<p>Hello, {}!</p>", "Ada"));
}

#[test]
fn name_is_quoted_as_given() {
    assert_eq!(validate(" "), "<p>Hello,  !</p>");
    assert_eq!(validate("Zoë 🦀"), "<p>Hello, Zoë 🦀!</p>");
    assert_eq!(validate("<b>"), "<p>Hello, <b>!</p>");
}
