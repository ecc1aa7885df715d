use server_voice_s3r::phrases::{
    has_word, is_affirmative, is_chat_enter, is_chat_exit, is_coding_enter, is_coding_exit,
    is_cyrillic, is_external_transcribe, is_hacker_enter, is_hacker_exit, is_list_request,
    is_negative, is_speaker_cmd, is_transcribe_enter, is_translate_enter, is_translate_exit,
    is_type_focus_off, is_type_focus_on, mentions_field, names_newline, names_radio, names_settings,
    language_named, transcribe_topic, translate_enter_heard, translate_mode_heard, word_heard,
};
use server_voice_s3r::volume::{parse_volume, volume_heard};

#[test]
fn cyrillic_letters() {
    assert!(is_cyrillic("set громкость"));
    assert!(!is_cyrillic("volume"));
    assert!(is_cyrillic("\u{0400}"));
    assert!(is_cyrillic("\u{04ff}"));
    assert!(!is_cyrillic("\u{03ff}\u{0500}"));
}

#[test]
fn whole_words_only() {
    assert!(has_word("Well, YES!", &["yes"]));
    assert!(!has_word("yesterday", &["yes"]));
    assert!(has_word("да-да", &["да"]));
    assert!(!has_word("дай", &["да"]));
    assert!(word_heard("a yes", &["no", "yes"]));
    assert!(!word_heard("a YES", &["yes"]));
}

#[test]
fn yes_and_no() {
    assert!(is_affirmative("Ну конечно!"));
    assert!(is_affirmative("okay"));
    assert!(!is_affirmative("not okayed"));
    assert!(is_negative("Стоп."));
    assert!(is_negative("no"));
    assert!(!is_negative("now"));
}

#[test]
fn volume_commands() {
    assert_eq!(parse_volume("set volume 60"), Some(60));
    assert_eq!(parse_volume("volume to eighty"), Some(80));
    assert_eq!(parse_volume("Громкость 250"), Some(100));
    assert_eq!(parse_volume("гломкость сто"), Some(100));
    assert_eq!(parse_volume("звук ноль"), Some(0));
    assert_eq!(parse_volume("VOLUME MAX"), Some(100));
    assert_eq!(parse_volume("volume please"), None);
    assert_eq!(parse_volume("set 60"), None);
    assert_eq!(parse_volume("vol 7 or 9"), Some(7));
    assert_eq!(parse_volume("volume 99999999999 ten"), Some(10));
    assert_eq!(parse_volume("volume often"), None);
}

#[test]
fn volume_of_lowered_text() {
    assert_eq!(volume_heard("volume 42", ""), Some(42));
    assert_eq!(volume_heard("volume", "mute"), Some(0));
    assert_eq!(volume_heard("volume", "ninety ten"), Some(90));
    assert_eq!(volume_heard("louder", "ten"), None);
}

#[test]
fn speaker_mode_phrases() {
    assert!(is_speaker_cmd("Speaker Mode, please"));
    assert!(is_speaker_cmd("включи режим колонки"));
    assert!(!is_speaker_cmd("speak"));
}

#[test]
fn transcription_phrases() {
    assert!(is_transcribe_enter("Режим транскрибации"));
    assert!(is_transcribe_enter("voice to text"));
    assert!(is_transcribe_enter("Диктовка")); 
    assert!(!is_transcribe_enter("scribe"));
    assert!(is_external_transcribe("внешняя транскрибация"));
    assert!(!is_external_transcribe("транскрибация"));
    assert!(!is_external_transcribe("external"));
    assert!(transcribe_topic("стенограмма"));
    assert!(mentions_field("печать в поле"));
    assert!(is_type_focus_on("Печать в поле"));
    assert!(is_type_focus_off("Выключи печать в поле"));
    assert!(!is_type_focus_off("печать в поле"));
    assert!(!is_type_focus_off("выключи"));
    assert!(names_settings("настройки"));
    assert!(names_newline("с новой строки"));
}

#[test]
fn hacker_phrases() {
    assert!(is_hacker_enter("Режим хакера"));
    assert!(is_hacker_enter("хакерский режим"));
    assert!(!is_hacker_enter("хакер"));
    assert!(is_hacker_exit("exit hacker"));
    assert!(is_hacker_exit("выйти из хакера"));
    assert!(!is_hacker_exit("выйти"));
}

#[test]
fn translate_phrases() {
    assert!(is_translate_enter("Режим перевода"));
    assert!(is_translate_enter("translate mode"));
    assert!(!is_translate_enter("переводи на немецкий"));
    assert!(is_translate_enter("Включи переводчик"));
    assert!(is_translate_enter("I want to start translating"));
    assert!(is_translate_enter("на минуту включи перевод"));
    assert!(is_translate_enter("Включи переводчик на минуту"));
    assert!(is_translate_enter("translate mode, I need to talk"));
    assert!(!is_translate_enter("режим перевода на турецкий"));
    assert!(!is_translate_enter("let's translate into Turkish"));
    assert!(!is_translate_enter("Включи перевод на немецкий"));
    assert!(!is_translate_enter("включи перевод на эсперанто"));
    assert!(!is_translate_enter("Включи немецкий переводчик"));
    assert!(!is_translate_enter("turn on translate to Klingon"));
    assert!(!is_translate_enter("start translating into Spanish"));
    assert!(language_named("translate mode, german"));
    assert!(!language_named("translate mode"));
    assert!(translate_mode_heard("включи перевод на немецкий"));
    assert!(!translate_enter_heard("включи перевод на немецкий"));
    assert!(is_translate_exit("выйти из перевода"));
    assert!(is_translate_exit("stop translate"));
    assert!(is_translate_exit("хватит переводить"));
    assert!(!is_translate_exit("хватит"));
    assert!(!is_translate_exit("translate this"));
}

#[test]
fn coding_phrases() {
    assert!(is_coding_enter("coding mode"));
    assert!(is_coding_enter("режим программирования"));
    assert!(is_coding_exit("exit coding mode"));
    assert!(is_coding_exit("закончи программирование"));
    assert!(!is_coding_exit("закончи программу"));
    assert!(!is_coding_exit("coding"));
}

#[test]
fn chat_phrases() {
    assert!(is_chat_enter("Давай поговорим"));
    assert!(is_chat_enter("let's chat"));
    assert!(!is_chat_enter("what time is it"));
    assert!(is_chat_exit("Goodbye!"));
    assert!(is_chat_exit("хватит болтать"));
    assert!(is_chat_exit("заканчиваем разговор"));
    assert!(!is_chat_exit("хватит"));
    assert!(!is_chat_exit("болтать"));
}

#[test]
fn radio_phrases() {
    assert!(is_list_request("Список станций"));
    assert!(is_list_request("what is AVAILABLE"));
    assert!(!is_list_request("jazz"));
    assert!(names_radio("включи джаз"));
    assert!(!names_radio("джаз"));
}
