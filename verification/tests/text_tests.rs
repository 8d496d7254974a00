use dankbot::text::{
    chars_of, contains, decimal_of, parse_digits, parse_u16, replace, same_chars, split_chars,
    string_of,
};

fn s(v: &Vec<char>) -> String {
    string_of(v)
}

#[test]
fn replace_all_occurrences_left_to_right() {
    let r = replace(&chars_of("owo uwu owo"), &chars_of("owo"), &chars_of("ohwo"));
    assert_eq!(s(&r), "ohwo uwu ohwo");
}

#[test]
fn replace_does_not_overlap() {
    let r = replace(&chars_of("aaaa"), &chars_of("aa"), &chars_of("b"));
    assert_eq!(s(&r), "bb");
    let r = replace(&chars_of("aaa"), &chars_of("aa"), &chars_of("b"));
    assert_eq!(s(&r), "ba");
}

#[test]
fn replace_absent_pattern_keeps_text() {
    let r = replace(&chars_of("hello"), &chars_of("xyz"), &chars_of("q"));
    assert_eq!(s(&r), "hello");
}

#[test]
fn replace_by_itself_keeps_text() {
    let r = replace(&chars_of("abcabc"), &chars_of("bc"), &chars_of("bc"));
    assert_eq!(s(&r), "abcabc");
}

#[test]
fn replace_non_ascii() {
    let r = replace(&chars_of("héllo ⭐"), &chars_of("⭐"), &chars_of("star"));
    assert_eq!(s(&r), "héllo star");
}

#[test]
fn contains_finds_substring() {
    assert!(contains(&chars_of("say <@42> hi"), &chars_of("<@42>")));
    assert!(!contains(&chars_of("say <@!42> hi"), &chars_of("<@42>")));
    assert!(contains(&chars_of("abc"), &chars_of("")));
    assert!(!contains(&chars_of("ab"), &chars_of("abc")));
}

#[test]
fn decimal_rendering() {
    assert_eq!(s(&decimal_of(0)), "0");
    assert_eq!(s(&decimal_of(7)), "7");
    assert_eq!(s(&decimal_of(1234567890)), "1234567890");
    assert_eq!(s(&decimal_of(u64::MAX)), "18446744073709551615");
}

#[test]
fn digits_parse_and_round_trip() {
    assert_eq!(parse_digits(&chars_of("007")), Some(7));
    assert_eq!(parse_digits(&chars_of("18446744073709551615")), Some(u64::MAX));
    assert_eq!(parse_digits(&chars_of("18446744073709551616")), None);
    assert_eq!(parse_digits(&chars_of("")), Some(0));
    for n in [0u64, 1, 9, 10, 99, 100, 4242, u64::MAX - 1, u64::MAX] {
        assert_eq!(parse_digits(&decimal_of(n)), Some(n));
    }
}

#[test]
fn u16_parsing_like_std() {
    for text in ["5", "+5", "+", "-5", "", "65535", "65536", "007", "1a", " 1", "١"] {
        assert_eq!(parse_u16(&chars_of(text)), text.parse::<u16>().ok(), "input {:?}", text);
    }
}

#[test]
fn split_like_std() {
    for text in ["", "a", "a b", " a", "a ", "a  b", "volume 50 extra"] {
        let pieces: Vec<String> = split_chars(&chars_of(text), ' ').iter().map(|p| string_of(p)).collect();
        let expected: Vec<String> = text.split(' ').map(|p| p.to_string()).collect();
        assert_eq!(pieces, expected);
    }
}

#[test]
fn same_chars_compares() {
    assert!(same_chars(&chars_of("join"), &chars_of("join")));
    assert!(!same_chars(&chars_of("join"), &chars_of("joi")));
    assert!(!same_chars(&chars_of("join"), &chars_of("jojn")));
}

#[test]
fn replace_like_std() {
    for (text, pat, rep) in [("abc", "", "x"), ("", "", "x"), ("", "a", "b"), ("uwuwu", "uwu", "oowoo"), ("a⭐b", "", "-")] {
        let r = replace(&chars_of(text), &chars_of(pat), &chars_of(rep));
        assert_eq!(s(&r), text.replace(pat, rep), "{:?} {:?} {:?}", text, pat, rep);
    }
}
