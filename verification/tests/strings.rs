use schoology_export::text::{concat2, i64_to_string, replace_all, sanitize, str_eq, u64_to_string};

#[test]
fn sanitize_replaces_separators() {
    assert_eq!(sanitize("a/b.pdf"), "a_b.pdf");
    assert_eq!(sanitize("My/Nested/Title"), "My_Nested_Title");
    assert_eq!(sanitize("plain"), "plain");
    assert_eq!(sanitize(""), "");
    assert_eq!(sanitize("///"), "___");
    assert_eq!(sanitize("Käse/Kuchen"), "Käse_Kuchen");
}

#[test]
fn replace_all_rewrites_endpoints() {
    assert_eq!(
        replace_all("https://s/a1/assignments/77", "assignments", "submissions"),
        "https://s/a1/submissions/77"
    );
    assert_eq!(
        replace_all("https://s/a1/assignments/77", "assignments/", "grades?assignment_id="),
        "https://s/a1/grades?assignment_id=77"
    );
    assert_eq!(replace_all("aaa", "aa", "b"), "ba");
    assert_eq!(replace_all("abc", "x", "y"), "abc");
    assert_eq!(replace_all("abc", "", "y"), "abc");
    assert_eq!(replace_all("abab", "ab", ""), "");
}

#[test]
fn decimal_rendering() {
    assert_eq!(u64_to_string(0), "0");
    assert_eq!(u64_to_string(7), "7");
    assert_eq!(u64_to_string(105), "105");
    assert_eq!(u64_to_string(u64::MAX), "18446744073709551615");
    assert_eq!(i64_to_string(0), "0");
    assert_eq!(i64_to_string(42), "42");
    assert_eq!(i64_to_string(-42), "-42");
    assert_eq!(i64_to_string(i64::MIN), "-9223372036854775808");
    assert_eq!(i64_to_string(i64::MAX), "9223372036854775807");
}

#[test]
fn string_equality_and_concat() {
    assert!(str_eq("folder", "folder"));
    assert!(!str_eq("folder", "page"));
    assert!(!str_eq("folder", "folders"));
    assert!(str_eq("", ""));
    assert_eq!(concat2("a", "b"), "ab");
    assert_eq!(
        concat2("https://s/p1", "?with_attachments=TRUE&richtext=1"),
        "https://s/p1?with_attachments=TRUE&richtext=1"
    );
}
