use forum_api::text::{chars_to_string, i32_to_string, normalize_topic_string, second_token_str,
    split_colon_pair, str_chars, trim_chars};

fn norm(s: &str) -> String {
    normalize_topic_string(&s.to_owned())
}

#[test]
fn normalization_strips_and_capitalizes() {
    assert_eq!(norm("  c++ programming!! "), "C programming");
}

#[test]
fn normalization_table() {
    assert_eq!(norm("rust"), "Rust");
    assert_eq!(norm("RUST"), "Rust");
    assert_eq!(norm("  web dev  "), "Web dev");
    assert_eq!(norm("123"), "");
    assert_eq!(norm("!!!"), "");
    assert_eq!(norm(""), "");
    assert_eq!(norm("   "), "");
    assert_eq!(norm("a1b2c3"), "Abc");
    assert_eq!(norm("C#"), "C");
}

#[test]
fn normalization_handles_unicode_whitespace() {
    // no-break space counts as whitespace for both trimming and keeping
    assert_eq!(norm("\u{a0}rust\u{a0}"), "Rust");
    assert_eq!(norm("c\u{2003}sharp"), "C\u{2003}sharp");
}

#[test]
fn trim_drops_whitespace_on_both_sides() {
    let v = str_chars("  hello world \t\n");
    let t = trim_chars(&v);
    assert_eq!(chars_to_string(&t), "hello world");
}

#[test]
fn trim_of_all_whitespace_is_empty() {
    let v = str_chars(" \t \n ");
    let t = trim_chars(&v);
    assert_eq!(chars_to_string(&t), "");
}

#[test]
fn decimal_rendering_exact() {
    assert_eq!(i32_to_string(0), "0");
    assert_eq!(i32_to_string(42), "42");
    assert_eq!(i32_to_string(-7), "-7");
    assert_eq!(i32_to_string(2147483647), "2147483647");
    assert_eq!(i32_to_string(-2147483648), "-2147483648");
}

#[test]
fn colon_split_takes_first_two_segments() {
    let (a, b) = split_colon_pair(&"rust:green".to_owned());
    assert_eq!(a, "rust");
    assert_eq!(b, "green");
    let (a, b) = split_colon_pair(&"nocolor".to_owned());
    assert_eq!(a, "nocolor");
    assert_eq!(b, "");
    let (a, b) = split_colon_pair(&"a:b:c".to_owned());
    assert_eq!(a, "a");
    assert_eq!(b, "b");
}

#[test]
fn second_token_reads_bearer_credential() {
    assert_eq!(second_token_str("Bearer abc.def"), Some("abc.def".to_owned()));
    assert_eq!(second_token_str("  Bearer   tok  "), Some("tok".to_owned()));
    assert_eq!(second_token_str("Bearer"), None);
    assert_eq!(second_token_str(""), None);
}
