use gitbook2md::text::{chars_of, replace_chars, string_of};

fn replace(text: &str, from: &str, to: &str) -> String {
    string_of(&replace_chars(&chars_of(text), &chars_of(from), &chars_of(to)))
}

#[test]
fn replace_every_occurrence() {
    assert_eq!(replace("a-b-c", "-", "+"), "a+b+c");
    assert_eq!(replace("a-b-c", "-", "+"), "a-b-c".replace("-", "+"));
}

#[test]
fn replace_does_not_overlap() {
    assert_eq!(replace("aaa", "aa", "b"), "ba");
    assert_eq!(replace("aaaa", "aa", "b"), "bb");
}

#[test]
fn replace_empty_pattern_goes_between_characters() {
    assert_eq!(replace("abc", "", "-"), "-a-b-c-");
    assert_eq!(replace("", "", "-"), "-");
    assert_eq!(replace("abc", "", "-"), "abc".replace("", "-"));
}

#[test]
fn replace_without_occurrence_keeps_text() {
    assert_eq!(replace("hello", "xyz", "!"), "hello");
    assert_eq!(replace("ab", "abc", "!"), "ab");
}
