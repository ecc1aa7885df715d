use server_voice_s3r::text::{
    begins_with, char_from, char_rfind, chars_of, decimal_of, drop_char, ends_with, find_in, has,
    join, lower_all, read_unsigned, replace_all, same, split, string_of, trimmed, trimmed_right,
    with_char, without_empty, without_tail, words_of, Sep,
};

fn strings(v: &[&str]) -> Vec<String> {
    v.iter().map(|s| s.to_string()).collect()
}

#[test]
fn characters_and_strings() {
    assert_eq!(chars_of("aё"), vec!['a', 'ё']);
    assert_eq!(string_of(&['д', 'а']), "да");
    assert!(same("да", "да"));
    assert!(!same("да", "дa"));
    assert!(!same("да", "дай"));
}

#[test]
fn finds_the_first_occurrence() {
    let t = chars_of("abcabc");
    assert_eq!(find_in(&t, &chars_of("bc")), Some(1));
    assert_eq!(find_in(&t, &chars_of("")), Some(0));
    assert_eq!(find_in(&t, &chars_of("cb")), None);
    assert_eq!(find_in(&t, &chars_of("abcabca")), None);
    assert!(has("громкость", "мкост"));
    assert!(!has("громко", "мкост"));
    assert!(has("x", ""));
}

#[test]
fn finds_single_characters() {
    let t = chars_of("a{b}c}");
    assert_eq!(char_from(&t, '}', 0), Some(3));
    assert_eq!(char_from(&t, '}', 4), Some(5));
    assert_eq!(char_from(&t, '{', 2), None);
    assert_eq!(char_rfind(&t, '}'), Some(5));
    assert_eq!(char_rfind(&t, 'z'), None);
}

#[test]
fn beginnings_and_ends() {
    assert!(begins_with("http://x", "http"));
    assert!(!begins_with("ht", "http"));
    assert!(ends_with("redfm", "fm"));
    assert!(!ends_with("m", "fm"));
    assert!(ends_with("x", ""));
}

#[test]
fn trimming_takes_unicode_space() {
    assert_eq!(trimmed("\u{a0}\t да \r\n"), "да");
    assert_eq!(trimmed("   "), "");
    assert_eq!(trimmed_right(" a \u{3000}"), " a");
    assert_eq!(trimmed(&trimmed("  a b ")), trimmed("  a b "));
    assert_eq!(without_tail("да!?.. "), "да");
    assert_eq!(without_tail("..."), "");
}

#[test]
fn splitting_keeps_empty_pieces() {
    assert_eq!(split("a,,b", Sep::Mark(',')), strings(&["a", "", "b"]));
    assert_eq!(split("", Sep::Mark(',')), strings(&[""]));
    assert_eq!(split("да, нет!", Sep::Punct), strings(&["да", "", "нет", ""]));
    assert_eq!(words_of("  a \n b  "), strings(&["a", "b"]));
    assert_eq!(without_empty(strings(&["", "x", ""])), strings(&["x"]));
    assert_eq!(join(&strings(&["a", "b", "c"]), ", "), "a, b, c");
    assert_eq!(join(&strings(&[]), ", "), "");
}

#[test]
fn replacing_characters_and_parts() {
    assert_eq!(drop_char("**a*b*", '*'), "ab");
    assert_eq!(with_char("ёлка ё", 'ё', 'е'), "елка е");
    assert_eq!(replace_all("кис фм фм", "фм", "fm"), "кис fm fm");
    assert_eq!(replace_all("aaa", "aa", "b"), "ba");
}

#[test]
fn lower_case_of_both_alphabets() {
    assert_eq!(lower_all(&strings(&["ENTER", "Нажать"])), strings(&["enter", "нажать"]));
    assert_eq!(lower_all(&strings(&["ЁЖ ЪЯ Ѐ"])), strings(&["ёж ъя ѐ"]));
    // The lowercase form of a character has no further one.
    let all: String = ('\0'..=char::MAX).collect();
    let once = lower_all(&vec![all]);
    assert_eq!(lower_all(&once), once);
    for c in once[0].chars() {
        let one = vec![c.to_string()];
        assert_eq!(lower_all(&one), one);
    }
}

#[test]
fn decimal_numbers_read_back() {
    for n in [0u64, 7, 10, 100, 65535, u64::MAX] {
        let d = decimal_of(n);
        assert_eq!(d, n.to_string());
        assert_eq!(read_unsigned(&d, u64::MAX), Some(n));
    }
}

#[test]
fn unsigned_numbers_are_strict() {
    assert_eq!(read_unsigned("+9000", 65535), Some(9000));
    assert_eq!(read_unsigned("65535", 65535), Some(65535));
    assert_eq!(read_unsigned("65536", 65535), None);
    assert_eq!(read_unsigned("", 65535), None);
    assert_eq!(read_unsigned("+", 65535), None);
    assert_eq!(read_unsigned("++1", 65535), None);
    assert_eq!(read_unsigned("-1", 65535), None);
    assert_eq!(read_unsigned(" 1", 65535), None);
    assert_eq!(read_unsigned("99999999999999999999", u64::MAX), None);
}
