use server_voice_s3r::speech::{
    clean_for_speech, fold_text, has_alphanumeric, has_foreign_script, is_meaningful_transcript,
    keeps,
};

#[test]
fn markdown_is_removed() {
    assert_eq!(clean_for_speech("  **Hi** `there` # you \n"), "Hi there  you");
    assert_eq!(clean_for_speech("see [the docs](http://x.y/z) now"), "see the docs now");
    assert_eq!(clean_for_speech("[a](1) and [b](2)"), "a and b");
    assert_eq!(clean_for_speech("a](b"), "a](b");
    assert_eq!(clean_for_speech("a](b) c"), "a](b) c");
    assert_eq!(clean_for_speech("***"), "");
    assert_eq!(clean_for_speech(""), "");
}

#[test]
fn sources_are_cut() {
    assert_eq!(clean_for_speech("It is sunny.\nSources: http://a"), "It is sunny.");
    assert_eq!(clean_for_speech("Да.\nSOURCE: x\nSources: y"), "Да.\nSOURCE: x");
    assert_eq!(clean_for_speech("Да.\nReferences: x"), "Да.");
    assert_eq!(clean_for_speech("Да.\nCitations: x"), "Да.");
    assert_eq!(clean_for_speech("sources: none"), "sources: none");
}

#[test]
fn cleaning_is_stable_on_clean_text() {
    let once = clean_for_speech("**Погода** [тут](http://x): +5 \nSources: y");
    assert_eq!(once, "Погода тут: +5");
    assert_eq!(clean_for_speech(&once), once);
}

#[test]
fn foreign_scripts() {
    assert!(has_foreign_script("привет 世界"));
    assert!(has_foreign_script("\u{0590}"));
    assert!(has_foreign_script("\u{ffef}"));
    assert!(!has_foreign_script("привет, world é"));
    assert!(!has_foreign_script("\u{fff0}"));
    assert!(has_alphanumeric("...а"));
    assert!(!has_alphanumeric("?! …"));
}

#[test]
fn meaningful_transcripts() {
    assert!(is_meaningful_transcript("привет"));
    assert!(is_meaningful_transcript("7"));
    assert!(!is_meaningful_transcript(""));
    assert!(!is_meaningful_transcript(" ... "));
    assert!(!is_meaningful_transcript("Thanks FOR WATCHING!"));
    assert!(!is_meaningful_transcript("Субтитры сделал"));
    assert!(!is_meaningful_transcript("Редактор субтитров А. Семкин"));
    assert!(is_meaningful_transcript("фильм с субтитрами"));
    assert!(!is_meaningful_transcript("Продолжение следует..."));
    assert!(!is_meaningful_transcript("안녕하세요"));
}

#[test]
fn judging_a_lowered_text() {
    assert!(keeps("Hi", "hi"));
    assert!(!keeps("Hi", "please subscribe"));
    assert!(!keeps("!!!", "hi"));
}

#[test]
fn folding_is_ascii_only() {
    assert_eq!(fold_text("OFF Да É"), "off Да É");
}

#[test]
fn cleaning_only_removes_characters() {
    for text in ["**a** [b](c) d\nSources: e", "x `y` # z", "[a](b)[c](d)", "", "plain"] {
        let mut rest = text.chars();
        let cleaned = clean_for_speech(text);
        assert!(cleaned.chars().all(|c| rest.any(|d| d == c)));
        assert!(cleaned.len() <= text.len());
    }
}
