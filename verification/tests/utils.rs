use alex::utils;

fn strings(v: &[&str]) -> Vec<String> {
    v.iter().map(|s| s.to_string()).collect()
}

#[test]
fn sanitize_string_case_1() {
    assert_eq!(utils::sanitize_string("hello").as_str(), "hello");
}

#[test]
fn sanitize_string_case_2() {
    assert_eq!(utils::sanitize_string("hello world").as_str(), "hello_world");
}

#[test]
fn sanitize_string_case_3() {
    assert_eq!(utils::sanitize_string("hello-world").as_str(), "hello_world");
}

#[test]
fn sanitize_string_case_4() {
    assert_eq!(utils::sanitize_string("hello@world!").as_str(), "hello_world_");
}

#[test]
fn sanitize_string_case_5() {
    assert_eq!(utils::sanitize_string("123abc").as_str(), "123abc");
}

#[test]
fn sanitize_string_case_6() {
    assert_eq!(utils::sanitize_string("abc123").as_str(), "abc123");
}

#[test]
fn sanitize_string_case_7() {
    assert_eq!(utils::sanitize_string("!@#$%").as_str(), "_____");
}

#[test]
fn sanitize_string_case_8() {
    assert_eq!(utils::sanitize_string("").as_str(), "");
}

#[test]
fn sanitize_string_case_9() {
    assert_eq!(utils::sanitize_string("   ").as_str(), "___");
}

#[test]
fn sanitize_string_case_10() {
    assert_eq!(utils::sanitize_string("hello\nworld").as_str(), "hello_world");
}

#[test]
fn sanitize_string_case_11() {
    assert_eq!(utils::sanitize_string("こんにちは").as_str(), "_____");
}

#[test]
fn sanitize_string_case_12() {
    assert_eq!(utils::sanitize_string("你好 世界").as_str(), "_____");
}

#[test]
fn tokenize_string_case_1() {
    assert_eq!(utils::tokenize_string("hello world"), strings(&["hello", "world"]));
}

#[test]
fn tokenize_string_case_2() {
    assert_eq!(utils::tokenize_string("hello-world"), strings(&["hello", "world"]));
}

#[test]
fn tokenize_string_case_3() {
    assert_eq!(utils::tokenize_string("hello_world"), strings(&["hello", "world"]));
}

#[test]
fn tokenize_string_case_4() {
    assert_eq!(utils::tokenize_string("hello@world!"), strings(&["hello", "world"]));
}

#[test]
fn tokenize_string_case_5() {
    assert_eq!(utils::tokenize_string("123 456"), strings(&["123", "456"]));
}

#[test]
fn tokenize_string_case_6() {
    assert_eq!(utils::tokenize_string("abc123def"), strings(&["abc123def"]));
}

#[test]
fn tokenize_string_case_7() {
    assert_eq!(utils::tokenize_string("123abc 456def"), strings(&["123abc", "456def"]));
}

#[test]
fn tokenize_string_case_8() {
    assert_eq!(utils::tokenize_string(" hello world "), strings(&["hello", "world"]));
}

#[test]
fn tokenize_string_case_9() {
    assert_eq!(utils::tokenize_string("!hello!"), strings(&["hello"]));
}

#[test]
fn tokenize_string_case_10() {
    assert_eq!(utils::tokenize_string("hello   world"), strings(&["hello", "world"]));
}

#[test]
fn tokenize_string_case_11() {
    assert_eq!(utils::tokenize_string("hello---world"), strings(&["hello", "world"]));
}

#[test]
fn tokenize_string_case_12() {
    assert_eq!(utils::tokenize_string("hello___world"), strings(&["hello", "world"]));
}

#[test]
fn tokenize_string_case_13() {
    assert_eq!(utils::tokenize_string("!!!"), strings(&[]));
}

#[test]
fn tokenize_string_case_14() {
    assert_eq!(utils::tokenize_string("   "), strings(&[]));
}

#[test]
fn tokenize_string_case_15() {
    assert_eq!(utils::tokenize_string(""), strings(&[]));
}

#[test]
fn tokenize_string_case_16() {
    assert_eq!(utils::tokenize_string("hello\nworld"), strings(&["hello", "world"]));
}

#[test]
fn tokenize_string_case_17() {
    assert_eq!(utils::tokenize_string("hello\tworld"), strings(&["hello", "world"]));
}

#[test]
fn tokenize_string_case_18() {
    assert_eq!(utils::tokenize_string("こんにちは"), strings(&[]));
}

#[test]
fn tokenize_string_case_19() {
    assert_eq!(utils::tokenize_string("你好 世界"), strings(&[]));
}

#[test]
fn tokenize_string_case_20() {
    assert_eq!(utils::tokenize_string("hello 世界 world"), strings(&["hello", "world"]));
}

#[test]
fn tokenize_after_sanitize_keeps_tokens() {
    let s = "Back in Black (Live) - AC/DC";
    let sanitized = utils::sanitize_string(s);
    assert_eq!(utils::tokenize_string(sanitized.as_str()), utils::tokenize_string(s));
    assert_eq!(utils::tokenize_string(s), strings(&["Back", "in", "Black", "Live", "AC", "DC"]));
}

#[test]
fn sanitize_twice_is_sanitize_once() {
    let once = utils::sanitize_string("a b-c!d");
    assert_eq!(utils::sanitize_string(once.as_str()), once);
}

#[test]
fn trim_removes_unicode_whitespace() {
    assert_eq!(utils::trim("  \t song \u{3000}\n"), "song");
    assert_eq!(utils::trim("   "), "");
    assert_eq!(utils::trim("a b"), "a b");
}

#[test]
fn chars_and_back() {
    let cs = utils::chars_of("héllo");
    assert_eq!(cs, vec!['h', 'é', 'l', 'l', 'o']);
    assert_eq!(utils::string_from_chars(&cs), "héllo");
}

#[test]
fn tokens_are_non_empty_alnum_runs() {
    for s in ["a--b  c", "__x1__y2", "ünïcode and ascii", "", "9"] {
        for t in utils::tokenize_string(s) {
            assert!(!t.is_empty());
            assert!(t.chars().all(|c| c.is_ascii_alphanumeric()));
        }
    }
}

#[test]
fn strip_suffix_cases() {
    assert_eq!(utils::strip_suffix("song.ogg", ".ogg"), Some("song".to_string()));
    assert_eq!(utils::strip_suffix("song.ogg", ".mp3"), None);
    assert_eq!(utils::strip_suffix("ogg", ".ogg"), None);
    assert_eq!(utils::strip_suffix(".ogg", ".ogg"), Some(String::new()));
}

#[test]
fn tokenize_joined_tokens_gives_them_back() {
    let tokens = utils::tokenize_string("  Back in -- Black (1980) ");
    assert_eq!(tokens, strings(&["Back", "in", "Black", "1980"]));
    assert_eq!(utils::tokenize_string(&tokens.join(" ")), tokens);
}
