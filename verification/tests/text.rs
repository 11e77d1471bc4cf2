use modpack_installer::text::{cut_at_first, to_decimal};

#[test]
fn numbers_are_written_in_decimal() {
    assert_eq!(to_decimal(0), "0");
    assert_eq!(to_decimal(7), "7");
    assert_eq!(to_decimal(10), "10");
    assert_eq!(to_decimal(1234567890), "1234567890");
    assert_eq!(to_decimal(u32::MAX), "4294967295");
    assert_eq!(to_decimal(1000), "1000");
}

#[test]
fn a_text_is_cut_at_the_first_separator() {
    assert_eq!(cut_at_first("a;b;c", ';'), ("a", Some("b;c")));
    assert_eq!(cut_at_first(";b", ';'), ("", Some("b")));
    assert_eq!(cut_at_first("a;", ';'), ("a", Some("")));
    assert_eq!(cut_at_first("abc", ';'), ("abc", None));
    assert_eq!(cut_at_first("", ';'), ("", None));
    assert_eq!(cut_at_first("\u{3042}?\u{3044}", '?'), ("\u{3042}", Some("\u{3044}")));
}
