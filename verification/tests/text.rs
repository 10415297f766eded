use unveil_rs::text::{
    decimal_string, find_from, from_chars, has_suffix, matches_at, push_decimal, push_range,
    push_signed_decimal, push_str, same_text, to_chars,
};

fn chars(text: &str) -> Vec<char> {
    text.chars().collect()
}

#[test]
fn strings_and_characters_convert_both_ways() {
    assert_eq!(to_chars("aé→"), vec!['a', 'é', '→']);
    assert_eq!(to_chars(""), Vec::<char>::new());
    assert_eq!(from_chars(&vec!['a', 'é', '→']), "aé→");
    assert_eq!(from_chars(&vec![]), "");
}

#[test]
fn search_finds_the_first_occurrence_from_an_index() {
    let hay = chars("abcabcé+++");
    assert_eq!(find_from(&hay, &chars("abc"), 0), Some(0));
    assert_eq!(find_from(&hay, &chars("abc"), 1), Some(3));
    assert_eq!(find_from(&hay, &chars("abc"), 4), None);
    assert_eq!(find_from(&hay, &chars("+++"), 0), Some(7));
    assert_eq!(find_from(&hay, &chars("+++"), 7), Some(7));
    assert_eq!(find_from(&hay, &chars("+++"), 8), None);
    assert_eq!(find_from(&hay, &chars("+++"), 100), None);
    assert_eq!(find_from(&hay, &chars(""), 10), Some(10));
    assert_eq!(find_from(&hay, &chars(""), 11), None);
    assert_eq!(find_from(&chars(""), &chars("a"), 0), None);
    assert!(matches_at(&hay, &chars("cab"), 2));
    assert!(!matches_at(&hay, &chars("cab"), 3));
    assert!(!matches_at(&hay, &chars("+++"), 8));
}

#[test]
fn suffix_and_equality() {
    assert!(has_suffix(&chars("intro.md"), &chars(".md")));
    assert!(has_suffix(&chars(".md"), &chars(".md")));
    assert!(!has_suffix(&chars("md"), &chars(".md")));
    assert!(!has_suffix(&chars("intro.mdx"), &chars(".md")));
    assert!(has_suffix(&chars("x"), &chars("")));
    assert!(same_text("é", "é"));
    assert!(same_text("", ""));
    assert!(!same_text("a", "b"));
    assert!(!same_text("a", "ab"));
}

#[test]
fn numbers_in_base_ten() {
    assert_eq!(decimal_string(0), "0");
    assert_eq!(decimal_string(9), "9");
    assert_eq!(decimal_string(10), "10");
    assert_eq!(decimal_string(1234567890), "1234567890");
    assert_eq!(decimal_string(usize::MAX), usize::MAX.to_string());
    let mut out = chars("n=");
    push_decimal(&mut out, 407);
    push_str(&mut out, ";");
    push_signed_decimal(&mut out, -407);
    push_signed_decimal(&mut out, 0);
    push_range(&mut out, &chars("abcdef"), 2, 4);
    push_range(&mut out, &chars("abcdef"), 3, 3);
    assert_eq!(from_chars(&out), "n=407;-4070cd");
}
