use termlink::score;
use termlink::str_eq;
use termlink::hex::u32_to_hex;

#[test]
fn score_of_password_against_itself_is_its_length() {
    assert_eq!(score("apple", "apple"), 5);
    assert_eq!(score("", ""), 0);
    assert_eq!(score("zz", "zz"), 2);
}

#[test]
fn score_counts_positional_matches_only() {
    // a-p-p-l-e vs a-m-p-l-e: positions 0, 2, 3, 4 agree.
    assert_eq!(score("apple", "ample"), 4);
    assert_eq!(score("abc", "xyz"), 0);
    // Same multiset of letters, no positional match.
    assert_eq!(score("ab", "ba"), 0);
    assert_eq!(score("terminal", "terrapin"), 3);
}

#[test]
fn score_is_bounded_by_word_length() {
    let g = "settle";
    let p = "window";
    let s = score(g, p);
    assert!(s <= g.len());
}

#[test]
fn score_order_of_arguments_is_irrelevant() {
    assert_eq!(score("apple", "ample"), score("ample", "apple"));
    assert_eq!(score("abcd", "bcda"), score("bcda", "abcd"));
}

#[test]
fn string_equality_is_by_characters() {
    assert!(str_eq("abc", "abc"));
    assert!(!str_eq("abc", "abd"));
    assert!(!str_eq("abc", "abcd"));
    assert!(str_eq("", ""));
}

#[test]
fn hex_rendering_matches_formatter() {
    assert_eq!(u32_to_hex(0), "0");
    assert_eq!(u32_to_hex(15), "f");
    assert_eq!(u32_to_hex(16), "10");
    assert_eq!(u32_to_hex(255), "ff");
    assert_eq!(u32_to_hex(0xdeadbeef), "deadbeef");
    assert_eq!(u32_to_hex(0xdeadbeef), format!("{:x}", 0xdeadbeef_u32));
    assert_eq!(u32_to_hex(u32::MAX), format!("{:x}", u32::MAX));
}
