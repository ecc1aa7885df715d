//! Keyword rules: what a spoken phrase asks for, in Russian or English.
//!
//! Every rule comes as a statement over the lowered text (`*_in`), a function that decides it
//! on a text that is already lowered (`*_heard`), and the function that lowers a transcript
//! first.

use vstd::prelude::*;
use crate::text::{
    alphanumeric, has, lower, occurs, occurs_at, piece_between_separators, piece_start, pieces,
    pieces_stand_alone, split, stands_alone, str_texts, texts, Sep,
};

verus! {

/// A Cyrillic letter.
pub open spec fn cyrillic(c: char) -> bool {
    0x0400 <= c as u32 <= 0x04FF
}

/// Some letter of the text is Cyrillic.
pub open spec fn speaks_russian(t: Seq<char>) -> bool {
    exists|i: int| 0 <= i < t.len() && cyrillic(#[trigger] t[i])
}

/// True if the text contains any Cyrillic letters (used to pick the reply language).
pub fn is_cyrillic(t: &str) -> (b: bool)
    ensures
        b == speaks_russian(t@),
{
    for c in it: t.chars()
        invariant
            it.seq() == t@,
            forall|i: int| 0 <= i < it.index() ==> !cyrillic(#[trigger] t@[i]),
    {
        assert(c == t@[it.index() as int]);
        if 0x0400 <= c as u32 && c as u32 <= 0x04FF {
            return true;
        }
    }
    false
}

/// One of `list` is a whole word of the text.
pub open spec fn has_any_word(t: Seq<char>, list: Seq<Seq<char>>) -> bool {
    exists|i: int|
        0 <= i < pieces(t, Sep::Punct).len() && list.contains(
            #[trigger] pieces(t, Sep::Punct)[i],
        )
}

/// True if the lowered text `t` holds one of `list` as a whole word: between two characters
/// that are neither letters nor digits.
pub fn word_heard(t: &str, list: &[&str]) -> (b: bool)
    ensures
        b == has_any_word(t@, str_texts(list@)),
{
    let p: Vec<String> = split(t, Sep::Punct);
    let mut i: usize = 0;
    while i < p.len()
        invariant
            0 <= i <= p@.len(),
            texts(p@) == pieces(t@, Sep::Punct),
            forall|k: int|
                0 <= k < i ==> !str_texts(list@).contains(
                    #[trigger] pieces(t@, Sep::Punct)[k],
                ),
        decreases p@.len() - i,
    {
        assert(texts(p@)[i as int] == p@[i as int]@);
        let mut k: usize = 0;
        while k < list.len()
            invariant
                0 <= i < p@.len(),
                0 <= k <= list@.len(),
                texts(p@) == pieces(t@, Sep::Punct),
                texts(p@)[i as int] == p@[i as int]@,
                forall|m: int| 0 <= m < k ==> #[trigger] str_texts(list@)[m] != p@[i as int]@,
            decreases list@.len() - k,
        {
            assert(str_texts(list@)[k as int] == list@[k as int]@);
            if crate::text::same(p[i].as_str(), list[k]) {
                assert(str_texts(list@).contains(pieces(t@, Sep::Punct)[i as int]));
                return true;
            }
            k += 1;
        }
        assert(!str_texts(list@).contains(p@[i as int]@));
        i += 1;
    }
    assert(p@.len() == texts(p@).len());
    false
}

/// True if one of `list` is a whole word of the text, in any case.
pub fn has_word(t: &str, list: &[&str]) -> (b: bool)
    ensures
        b == has_any_word(lower(t@), str_texts(list@)),
{
    let low: String = t.to_lowercase();
    word_heard(low.as_str(), list)
}

/// The words that agree to a proposed action.
pub open spec fn yes_words() -> Seq<Seq<char>> {
    seq![
        "yes"@, "yeah"@, "yep"@, "yup"@, "sure"@, "ok"@, "okay"@, "да"@, "ага"@, "давай"@,
        "конечно"@, "угу"@, "ладно"@,
    ]
}

/// True if a whole word of the text is one that agrees to a proposed action.
pub fn is_affirmative(t: &str) -> (b: bool)
    ensures
        b == has_any_word(lower(t@), yes_words()),
{
    let low: String = t.to_lowercase();
    affirmative_heard(low.as_str())
}

/// `is_affirmative` on a text that is already lowered.
pub fn affirmative_heard(t: &str) -> (b: bool)
    ensures
        b == has_any_word(t@, yes_words()),
{
    let list: [&str; 13] = [
        "yes", "yeah", "yep", "yup", "sure", "ok", "okay", "да", "ага", "давай", "конечно",
        "угу", "ладно",
    ];
    assert(str_texts(list@) =~= yes_words());
    word_heard(t, &list)
}

/// The words that decline a proposed action.
pub open spec fn no_words() -> Seq<Seq<char>> {
    seq![
        "no"@, "nope"@, "cancel"@, "stop"@, "нет"@, "отмена"@, "отмени"@, "стоп"@, "неа"@,
    ]
}

/// True if a whole word of the text is one that declines a proposed action.
pub fn is_negative(t: &str) -> (b: bool)
    ensures
        b == has_any_word(lower(t@), no_words()),
{
    let low: String = t.to_lowercase();
    negative_heard(low.as_str())
}

/// `is_negative` on a text that is already lowered.
pub fn negative_heard(t: &str) -> (b: bool)
    ensures
        b == has_any_word(t@, no_words()),
{
    let list: [&str; 9] = [
        "no", "nope", "cancel", "stop", "нет", "отмена", "отмени", "стоп", "неа",
    ];
    assert(str_texts(list@) =~= no_words());
    word_heard(t, &list)
}

/// The lowered text names the volume: in English, in Russian, or in a common mis-hearing of the
/// Russian word.
pub open spec fn volume_word_in(t: Seq<char>) -> bool {
    occurs(t, "volume"@) || occurs(t, "vol "@) || occurs(t, "мкост"@) || occurs(t, "звук"@)
        || occurs(t, "громк"@) || occurs(t, "гломк"@)
}

/// True if the lowered text names the volume: in English, in Russian, or in a common mis-hearing
/// of the Russian word.
pub fn names_volume(t: &str) -> (b: bool)
    ensures
        b == volume_word_in(t@),
{
    has(t, "volume") || has(t, "vol ") || has(t, "мкост") || has(t, "звук")
        || has(t, "громк") || has(t, "гломк")
}

/// The lowered text asks to enter speaker mode.
pub open spec fn speaker_in(t: Seq<char>) -> bool {
    occurs(t, "speaker mode"@) || occurs(t, "pc speaker"@) || occurs(t, "колонк"@)
        || occurs(t, "динамик"@) || occurs(t, "режим колон"@)
}

/// `is_speaker_cmd` on a text that is already lowered.
pub fn speaker_heard(t: &str) -> (b: bool)
    ensures
        b == speaker_in(t@),
{
    has(t, "speaker mode") || has(t, "pc speaker") || has(t, "колонк") || has(t, "динамик")
        || has(t, "режим колон")
}

/// True if the text asks to enter speaker mode.
pub fn is_speaker_cmd(t: &str) -> (b: bool)
    ensures
        b == speaker_in(lower(t@)),
{
    let low: String = t.to_lowercase();
    speaker_heard(low.as_str())
}

/// The lowered text is about transcription, stenography or dictation.
pub open spec fn topic_in(t: Seq<char>) -> bool {
    occurs(t, "transcrib"@) || occurs(t, "voice to text"@) || occurs(t, "dictation"@)
        || occurs(t, "транскри"@) || occurs(t, "стеногра"@) || occurs(t, "диктов"@)
        || occurs(t, "голос в текст"@)
}

/// True if the lowered text is about transcription, stenography or dictation.
pub fn transcribe_topic(t: &str) -> (b: bool)
    ensures
        b == topic_in(t@),
{
    has(t, "transcrib") || has(t, "voice to text") || has(t, "dictation")
        || has(t, "транскри") || has(t, "стеногра") || has(t, "диктов")
        || has(t, "голос в текст")
}

/// The lowered text mentions pasting into the focused field.
pub open spec fn field_in(t: Seq<char>) -> bool {
    occurs(t, "в поле"@) || occurs(t, "в input"@) || occurs(t, "в инпут"@)
        || occurs(t, "into field"@) || occurs(t, "into input"@) || occurs(t, "typing into"@)
        || occurs(t, "live dictation"@)
}

/// True if the lowered text mentions pasting into the focused field.
pub fn mentions_field(t: &str) -> (b: bool)
    ensures
        b == field_in(t@),
{
    has(t, "в поле") || has(t, "в input") || has(t, "в инпут") || has(t, "into field")
        || has(t, "into input") || has(t, "typing into") || has(t, "live dictation")
}

/// The lowered text switches live dictation off: it names the field and a stop word.
pub open spec fn typing_off_in(t: Seq<char>) -> bool {
    field_in(t)
        && (occurs(t, "выключ"@) || occurs(t, "отключ"@) || occurs(t, "останов"@)
            || occurs(t, "стоп"@) || occurs(t, "не "@) || occurs(t, "off"@)
            || occurs(t, "disable"@) || occurs(t, "stop"@))
}

/// `is_type_focus_off` on a text that is already lowered.
pub fn typing_off_heard(t: &str) -> (b: bool)
    ensures
        b == typing_off_in(t@),
{
    mentions_field(t)
        && (has(t, "выключ") || has(t, "отключ") || has(t, "останов") || has(t, "стоп")
            || has(t, "не ") || has(t, "off") || has(t, "disable") || has(t, "stop"))
}

/// True if the text switches live dictation off: it names the field and a stop word.
pub fn is_type_focus_off(t: &str) -> (b: bool)
    ensures
        b == typing_off_in(lower(t@)),
{
    let low: String = t.to_lowercase();
    typing_off_heard(low.as_str())
}

/// The lowered text names the field, which switches live dictation on.
pub open spec fn typing_on_in(t: Seq<char>) -> bool {
    field_in(t)
}

/// `is_type_focus_on` on a text that is already lowered.
pub fn typing_on_heard(t: &str) -> (b: bool)
    ensures
        b == typing_on_in(t@),
{
    mentions_field(t)
}

/// True if the text names the field, which switches live dictation on.
pub fn is_type_focus_on(t: &str) -> (b: bool)
    ensures
        b == typing_on_in(lower(t@)),
{
    let low: String = t.to_lowercase();
    typing_on_heard(low.as_str())
}

/// The lowered text asks for transcription in the cloud.
pub open spec fn external_in(t: Seq<char>) -> bool {
    topic_in(t) && (occurs(t, "внешн"@) || occurs(t, "external"@))
}

/// `is_external_transcribe` on a text that is already lowered.
pub fn external_heard(t: &str) -> (b: bool)
    ensures
        b == external_in(t@),
{
    transcribe_topic(t) && (has(t, "внешн") || has(t, "external"))
}

/// True if the text asks for transcription in the cloud.
pub fn is_external_transcribe(t: &str) -> (b: bool)
    ensures
        b == external_in(lower(t@)),
{
    let low: String = t.to_lowercase();
    external_heard(low.as_str())
}

/// The lowered text asks for transcription.
pub open spec fn transcribe_enter_in(t: Seq<char>) -> bool {
    topic_in(t)
}

/// `is_transcribe_enter` on a text that is already lowered.
pub fn transcribe_enter_heard(t: &str) -> (b: bool)
    ensures
        b == transcribe_enter_in(t@),
{
    transcribe_topic(t)
}

/// True if the text asks for transcription.
pub fn is_transcribe_enter(t: &str) -> (b: bool)
    ensures
        b == transcribe_enter_in(lower(t@)),
{
    let low: String = t.to_lowercase();
    transcribe_enter_heard(low.as_str())
}

/// The lowered text asks for hacker mode.
pub open spec fn hacker_enter_in(t: Seq<char>) -> bool {
    occurs(t, "режим хакер"@) || occurs(t, "режим взлом"@) || occurs(t, "hacker mode"@)
        || (occurs(t, "хакер"@) && occurs(t, "режим"@))
}

/// `is_hacker_enter` on a text that is already lowered.
pub fn hacker_enter_heard(t: &str) -> (b: bool)
    ensures
        b == hacker_enter_in(t@),
{
    has(t, "режим хакер") || has(t, "режим взлом") || has(t, "hacker mode")
        || (has(t, "хакер") && has(t, "режим"))
}

/// True if the text asks for hacker mode.
pub fn is_hacker_enter(t: &str) -> (b: bool)
    ensures
        b == hacker_enter_in(lower(t@)),
{
    let low: String = t.to_lowercase();
    hacker_enter_heard(low.as_str())
}

/// The lowered text asks to leave hacker mode.
pub open spec fn hacker_exit_in(t: Seq<char>) -> bool {
    (occurs(t, "хакер"@) || occurs(t, "hacker"@))
        && (occurs(t, "выйти"@) || occurs(t, "выход"@) || occurs(t, "стоп"@)
            || occurs(t, "закончи"@) || occurs(t, "выключ"@) || occurs(t, "exit"@)
            || occurs(t, "stop"@))
}

/// `is_hacker_exit` on a text that is already lowered.
pub fn hacker_exit_heard(t: &str) -> (b: bool)
    ensures
        b == hacker_exit_in(t@),
{
    (has(t, "хакер") || has(t, "hacker"))
        && (has(t, "выйти") || has(t, "выход") || has(t, "стоп") || has(t, "закончи")
            || has(t, "выключ") || has(t, "exit") || has(t, "stop"))
}

/// True if the text asks to leave hacker mode.
pub fn is_hacker_exit(t: &str) -> (b: bool)
    ensures
        b == hacker_exit_in(lower(t@)),
{
    let low: String = t.to_lowercase();
    hacker_exit_heard(low.as_str())
}

/// The lowered text asks to leave translate mode: a stop word together with the word for
/// translation.
pub open spec fn translate_exit_in(t: Seq<char>) -> bool {
    (occurs(t, "перевод"@)
            && (occurs(t, "выйти"@) || occurs(t, "выход"@) || occurs(t, "выключ"@)
                || occurs(t, "закончи"@) || occurs(t, "останови"@) || occurs(t, "стоп"@)
                || occurs(t, "хватит"@)))
        || (occurs(t, "translat"@)
            && (occurs(t, "exit"@) || occurs(t, "stop"@) || occurs(t, "off"@)
                || occurs(t, "quit"@) || occurs(t, "end"@) || occurs(t, "turn off"@)))
        || occurs(t, "хватит переводить"@)
}

/// `is_translate_exit` on a text that is already lowered.
pub fn translate_exit_heard(t: &str) -> (b: bool)
    ensures
        b == translate_exit_in(t@),
{
    (has(t, "перевод")
            && (has(t, "выйти") || has(t, "выход") || has(t, "выключ") || has(t, "закончи")
                || has(t, "останови") || has(t, "стоп") || has(t, "хватит")))
        || (has(t, "translat")
            && (has(t, "exit") || has(t, "stop") || has(t, "off") || has(t, "quit")
                || has(t, "end") || has(t, "turn off")))
        || has(t, "хватит переводить")
}

/// True if the text asks to leave translate mode: a stop word together with the word for
/// translation.
pub fn is_translate_exit(t: &str) -> (b: bool)
    ensures
        b == translate_exit_in(lower(t@)),
{
    let low: String = t.to_lowercase();
    translate_exit_heard(low.as_str())
}

/// The lowered text holds the name of a language.
pub open spec fn language_in(t: Seq<char>) -> bool {
    occurs(t, "английск"@) || occurs(t, "русск"@) || occurs(t, "немецк"@)
        || occurs(t, "испанск"@) || occurs(t, "французск"@) || occurs(t, "итальянск"@)
        || occurs(t, "украинск"@) || occurs(t, "польск"@) || occurs(t, "португальск"@)
        || occurs(t, "китайск"@) || occurs(t, "японск"@) || occurs(t, "арабск"@)
        || occurs(t, "english"@) || occurs(t, "russian"@) || occurs(t, "german"@)
        || occurs(t, "spanish"@) || occurs(t, "french"@) || occurs(t, "italian"@)
        || occurs(t, "ukrainian"@) || occurs(t, "polish"@) || occurs(t, "portuguese"@)
        || occurs(t, "chinese"@) || occurs(t, "japanese"@) || occurs(t, "arabic"@)
}

/// True if the lowered text holds the name of a language.
pub fn has_language(t: &str) -> (b: bool)
    ensures
        b == language_in(t@),
{
    has(t, "английск") || has(t, "русск") || has(t, "немецк") || has(t, "испанск")
        || has(t, "французск") || has(t, "итальянск") || has(t, "украинск")
        || has(t, "польск") || has(t, "португальск") || has(t, "китайск")
        || has(t, "японск") || has(t, "арабск") || has(t, "english") || has(t, "russian")
        || has(t, "german") || has(t, "spanish") || has(t, "french") || has(t, "italian")
        || has(t, "ukrainian") || has(t, "polish") || has(t, "portuguese")
        || has(t, "chinese") || has(t, "japanese") || has(t, "arabic")
}

/// The lowered text says right behind the word for translating to what it is translated.
pub open spec fn target_in(t: Seq<char>) -> bool {
    occurs(t, "перевод на "@) || occurs(t, "перевода на "@) || occurs(t, "переводи на "@)
        || occurs(t, "переводить на "@) || occurs(t, "переведи на "@)
        || occurs(t, "translate to "@) || occurs(t, "translating to "@)
        || occurs(t, "translation to "@) || occurs(t, "translator to "@)
        || occurs(t, "translate into "@) || occurs(t, "translating into "@)
        || occurs(t, "translation into "@) || occurs(t, "translator into "@)
}

/// True if the lowered text says right behind the word for translating to what it is
/// translated.
pub fn has_target(t: &str) -> (b: bool)
    ensures
        b == target_in(t@),
{
    has(t, "перевод на ") || has(t, "перевода на ") || has(t, "переводи на ")
        || has(t, "переводить на ") || has(t, "переведи на ") || has(t, "translate to ")
        || has(t, "translating to ") || has(t, "translation to ")
        || has(t, "translator to ") || has(t, "translate into ")
        || has(t, "translating into ") || has(t, "translation into ")
        || has(t, "translator into ")
}

/// The lowered text names a language to translate to: it holds the name of one, or says right
/// behind the word for translating to which.
pub open spec fn names_language(t: Seq<char>) -> bool {
    language_in(t) || target_in(t)
}

/// True if the lowered text names a language to translate to.
pub fn language_named(t: &str) -> (b: bool)
    ensures
        b == names_language(t@),
{
    has_language(t) || has_target(t)
}

/// The lowered text asks for translate mode.
pub open spec fn translate_mode_in(t: Seq<char>) -> bool {
    occurs(t, "режим перевод"@) || occurs(t, "режим переводчик"@)
        || occurs(t, "включи перевод"@) || occurs(t, "включи переводчик"@)
        || occurs(t, "запусти перевод"@) || occurs(t, "переводчик"@)
        || occurs(t, "translate mode"@) || occurs(t, "turn on translate"@)
        || occurs(t, "start translat"@) || occurs(t, "let's translate"@)
}

/// The lowered text asks for translate mode without naming a language.
pub open spec fn translate_enter_in(t: Seq<char>) -> bool {
    translate_mode_in(t) && !names_language(t)
}

/// True if the lowered text asks for translate mode, with or without a language.
pub fn translate_mode_heard(t: &str) -> (b: bool)
    ensures
        b == translate_mode_in(t@),
{
    has(t, "режим перевод") || has(t, "режим переводчик") || has(t, "включи перевод")
        || has(t, "включи переводчик") || has(t, "запусти перевод") || has(t, "переводчик")
        || has(t, "translate mode") || has(t, "turn on translate") || has(t, "start translat")
        || has(t, "let's translate")
}

/// `is_translate_enter` on a text that is already lowered.
pub fn translate_enter_heard(t: &str) -> (b: bool)
    ensures
        b == translate_enter_in(t@),
{
    translate_mode_heard(t) && !language_named(t)
}

/// A request that names a language does not enter translate mode by itself: it is left to the
/// language model, which picks the language. Every other request for the mode enters it.
pub proof fn named_language_is_left_to_the_model(t: Seq<char>)
    ensures
        names_language(t) ==> !translate_enter_in(t),
        translate_mode_in(t) && !names_language(t) ==> translate_enter_in(t),
        language_in(t) || target_in(t) ==> !translate_enter_in(t),
        translate_mode_in(t) && !language_in(t) && !target_in(t) ==> translate_enter_in(t),
        translate_enter_in(t) ==> translate_mode_in(t),
{
}

/// True if the text asks for translate mode without naming a language.
pub fn is_translate_enter(t: &str) -> (b: bool)
    ensures
        b == translate_enter_in(lower(t@)),
{
    let low: String = t.to_lowercase();
    translate_enter_heard(low.as_str())
}

/// The lowered text asks for coding mode.
pub open spec fn coding_enter_in(t: Seq<char>) -> bool {
    occurs(t, "coding mode"@) || occurs(t, "start coding"@) || occurs(t, "let's code"@)
        || occurs(t, "режим программир"@) || occurs(t, "программирован"@)
        || occurs(t, "кодинг"@)
}

/// `is_coding_enter` on a text that is already lowered.
pub fn coding_enter_heard(t: &str) -> (b: bool)
    ensures
        b == coding_enter_in(t@),
{
    has(t, "coding mode") || has(t, "start coding") || has(t, "let's code")
        || has(t, "режим программир") || has(t, "программирован") || has(t, "кодинг")
}

/// True if the text asks for coding mode.
pub fn is_coding_enter(t: &str) -> (b: bool)
    ensures
        b == coding_enter_in(lower(t@)),
{
    let low: String = t.to_lowercase();
    coding_enter_heard(low.as_str())
}

/// The lowered text asks to leave coding mode: a stop word together with the name of the mode.
pub open spec fn coding_exit_in(t: Seq<char>) -> bool {
    (occurs(t, "выйти"@) || occurs(t, "выйди"@) || occurs(t, "выход"@)
            || occurs(t, "закончи"@) || occurs(t, "заверши"@) || occurs(t, "стоп"@)
            || occurs(t, "выключи"@) || occurs(t, "exit"@) || occurs(t, "stop"@)
            || occurs(t, "leave"@) || occurs(t, "end"@) || occurs(t, "quit"@))
        && (occurs(t, "программир"@) || occurs(t, "кодинг"@) || occurs(t, "coding"@))
}

/// `is_coding_exit` on a text that is already lowered.
pub fn coding_exit_heard(t: &str) -> (b: bool)
    ensures
        b == coding_exit_in(t@),
{
    (has(t, "выйти") || has(t, "выйди") || has(t, "выход") || has(t, "закончи")
            || has(t, "заверши") || has(t, "стоп") || has(t, "выключи") || has(t, "exit")
            || has(t, "stop") || has(t, "leave") || has(t, "end") || has(t, "quit"))
        && (has(t, "программир") || has(t, "кодинг") || has(t, "coding"))
}

/// True if the text asks to leave coding mode: a stop word together with the name of the mode.
pub fn is_coding_exit(t: &str) -> (b: bool)
    ensures
        b == coding_exit_in(lower(t@)),
{
    let low: String = t.to_lowercase();
    coding_exit_heard(low.as_str())
}

/// The lowered text asks for chat mode.
pub open spec fn chat_enter_in(t: Seq<char>) -> bool {
    occurs(t, "режим разговор"@) || occurs(t, "режим бесед"@) || occurs(t, "режим чат"@)
        || occurs(t, "поговор"@) || occurs(t, "поболта"@) || occurs(t, "побеседуем"@)
        || occurs(t, "попизд"@) || occurs(t, "chat mode"@) || occurs(t, "let's chat"@)
        || occurs(t, "let's talk"@)
}

/// `is_chat_enter` on a text that is already lowered.
pub fn chat_enter_heard(t: &str) -> (b: bool)
    ensures
        b == chat_enter_in(t@),
{
    has(t, "режим разговор") || has(t, "режим бесед") || has(t, "режим чат")
        || has(t, "поговор") || has(t, "поболта") || has(t, "побеседуем") || has(t, "попизд")
        || has(t, "chat mode") || has(t, "let's chat") || has(t, "let's talk")
}

/// True if the text asks for chat mode.
pub fn is_chat_enter(t: &str) -> (b: bool)
    ensures
        b == chat_enter_in(lower(t@)),
{
    let low: String = t.to_lowercase();
    chat_enter_heard(low.as_str())
}

/// The lowered text asks to leave chat mode: by name, or by a stop word together with a word for
/// talking.
pub open spec fn chat_exit_in(t: Seq<char>) -> bool {
    (occurs(t, "выйти из разговор"@) || occurs(t, "выйти из бесед"@)
            || occurs(t, "выйти из чат"@) || occurs(t, "exit chat"@) || occurs(t, "stop chat"@)
            || occurs(t, "leave chat"@) || occurs(t, "end chat"@) || occurs(t, "до свидания"@)
            || occurs(t, "goodbye"@))
        || ((occurs(t, "закончи"@) || occurs(t, "заканчива"@) || occurs(t, "заверши"@)
                || occurs(t, "хватит"@) || occurs(t, "стоп"@) || occurs(t, "прекрат"@)
                || occurs(t, "конец"@))
            && (occurs(t, "разгов"@) || occurs(t, "бесед"@) || occurs(t, "болта"@)
                || occurs(t, "чат"@) || occurs(t, "общ"@)))
}

/// `is_chat_exit` on a text that is already lowered.
pub fn chat_exit_heard(t: &str) -> (b: bool)
    ensures
        b == chat_exit_in(t@),
{
    (has(t, "выйти из разговор") || has(t, "выйти из бесед") || has(t, "выйти из чат")
            || has(t, "exit chat") || has(t, "stop chat") || has(t, "leave chat")
            || has(t, "end chat") || has(t, "до свидания") || has(t, "goodbye"))
        || ((has(t, "закончи") || has(t, "заканчива") || has(t, "заверши")
                || has(t, "хватит") || has(t, "стоп") || has(t, "прекрат") || has(t, "конец"))
            && (has(t, "разгов") || has(t, "бесед") || has(t, "болта") || has(t, "чат")
                || has(t, "общ")))
}

/// True if the text asks to leave chat mode: by name, or by a stop word together with a word for
/// talking.
pub fn is_chat_exit(t: &str) -> (b: bool)
    ensures
        b == chat_exit_in(lower(t@)),
{
    let low: String = t.to_lowercase();
    chat_exit_heard(low.as_str())
}

/// The lowered text asks which stations there are, not for one of them.
pub open spec fn list_request_in(t: Seq<char>) -> bool {
    occurs(t, "list"@) || occurs(t, "список"@) || occurs(t, "станци"@)
        || occurs(t, "какие"@) || occurs(t, "available"@) || occurs(t, "что есть"@)
}

/// `is_list_request` on a text that is already lowered.
pub fn list_request_heard(t: &str) -> (b: bool)
    ensures
        b == list_request_in(t@),
{
    has(t, "list") || has(t, "список") || has(t, "станци") || has(t, "какие")
        || has(t, "available") || has(t, "что есть")
}

/// True if the text asks which stations there are, not for one of them.
pub fn is_list_request(t: &str) -> (b: bool)
    ensures
        b == list_request_in(lower(t@)),
{
    let low: String = t.to_lowercase();
    list_request_heard(low.as_str())
}

/// The lowered text holds a phrase that speech recognition invents on near-silence.
pub open spec fn junk_in(t: Seq<char>) -> bool {
    occurs(t, "продолжение следует"@) || occurs(t, "субтитры"@) || occurs(t, "субтитров"@)
        || occurs(t, "спасибо за просмотр"@) || occurs(t, "for watching"@)
        || occurs(t, "subscribe"@) || occurs(t, "subtitles"@)
}

/// True if the lowered text holds a phrase that speech recognition invents on near-silence.
pub fn is_junk(t: &str) -> (b: bool)
    ensures
        b == junk_in(t@),
{
    has(t, "продолжение следует") || has(t, "субтитры") || has(t, "субтитров")
        || has(t, "спасибо за просмотр") || has(t, "for watching") || has(t, "subscribe")
        || has(t, "subtitles")
}

/// The lowered text is about the settings of transcription.
pub open spec fn settings_in(t: Seq<char>) -> bool {
    occurs(t, "настройк"@) || occurs(t, "транскри"@) || occurs(t, "стеногра"@)
        || occurs(t, "диктов"@)
}

/// True if the lowered text is about the settings of transcription.
pub fn names_settings(t: &str) -> (b: bool)
    ensures
        b == settings_in(t@),
{
    has(t, "настройк") || has(t, "транскри") || has(t, "стеногра") || has(t, "диктов")
}

/// The lowered text names the separator that starts a new line.
pub open spec fn newline_in(t: Seq<char>) -> bool {
    occurs(t, "новой строк"@) || occurs(t, "новая строк"@) || occurs(t, "новой строки"@)
        || occurs(t, "перенос"@) || occurs(t, "энтер"@) || occurs(t, "enter"@)
        || occurs(t, "new line"@) || occurs(t, "newline"@)
}

/// True if the lowered text names the separator that starts a new line.
pub fn names_newline(t: &str) -> (b: bool)
    ensures
        b == newline_in(t@),
{
    has(t, "новой строк") || has(t, "новая строк") || has(t, "новой строки")
        || has(t, "перенос") || has(t, "энтер") || has(t, "enter") || has(t, "new line")
        || has(t, "newline")
}

/// The lowered text names the separator that is a space.
pub open spec fn space_in(t: Seq<char>) -> bool {
    occurs(t, "пробел"@) || occurs(t, "space"@)
}

/// True if the lowered text names the separator that is a space.
pub fn names_space(t: &str) -> (b: bool)
    ensures
        b == space_in(t@),
{
    has(t, "пробел") || has(t, "space")
}

/// The lowered text asks for no separator.
pub open spec fn joined_up_in(t: Seq<char>) -> bool {
    occurs(t, "слитно"@) || occurs(t, "без пробел"@) || occurs(t, "без разделит"@)
}

/// True if the lowered text asks for no separator.
pub fn names_joined(t: &str) -> (b: bool)
    ensures
        b == joined_up_in(t@),
{
    has(t, "слитно") || has(t, "без пробел") || has(t, "без разделит")
}

/// The lowered text asks for delivery by the clipboard.
pub open spec fn paste_in(t: Seq<char>) -> bool {
    occurs(t, "ctrl"@) || occurs(t, "контрол"@) || occurs(t, "вставк"@)
        || occurs(t, "буфер"@) || occurs(t, "paste"@)
}

/// True if the lowered text asks for delivery by the clipboard.
pub fn names_paste(t: &str) -> (b: bool)
    ensures
        b == paste_in(t@),
{
    has(t, "ctrl") || has(t, "контрол") || has(t, "вставк") || has(t, "буфер")
        || has(t, "paste")
}

/// The lowered text asks for delivery by key strokes.
pub open spec fn keys_in(t: Seq<char>) -> bool {
    occurs(t, "нативн"@) || occurs(t, "клавиш"@) || occurs(t, "native"@)
        || occurs(t, "sendinput"@) || occurs(t, "печать клавиш"@)
}

/// True if the lowered text asks for delivery by key strokes.
pub fn names_keys(t: &str) -> (b: bool)
    ensures
        b == keys_in(t@),
{
    has(t, "нативн") || has(t, "клавиш") || has(t, "native") || has(t, "sendinput")
        || has(t, "печать клавиш")
}

/// The lowered text names the compressor.
pub open spec fn compressor_in(t: Seq<char>) -> bool {
    occurs(t, "компрессор"@) || occurs(t, "compressor"@)
}

/// True if the lowered text names the compressor.
pub fn names_compressor(t: &str) -> (b: bool)
    ensures
        b == compressor_in(t@),
{
    has(t, "компрессор") || has(t, "compressor")
}

/// The lowered text asks to switch something off.
pub open spec fn switch_off_in(t: Seq<char>) -> bool {
    occurs(t, "выключ"@) || occurs(t, "выкл"@) || occurs(t, "останов"@)
        || occurs(t, "turn off"@) || occurs(t, "switch off"@) || occurs(t, "shut"@)
}

/// True if the lowered text asks to switch something off.
pub fn names_switch_off(t: &str) -> (b: bool)
    ensures
        b == switch_off_in(t@),
{
    has(t, "выключ") || has(t, "выкл") || has(t, "останов") || has(t, "turn off")
        || has(t, "switch off") || has(t, "shut")
}

/// The lowered text asks to switch something on.
pub open spec fn switch_on_in(t: Seq<char>) -> bool {
    occurs(t, "включ"@) || occurs(t, "запус"@) || occurs(t, "turn on"@)
        || occurs(t, "switch on"@) || occurs(t, "start"@)
}

/// True if the lowered text asks to switch something on.
pub fn names_switch_on(t: &str) -> (b: bool)
    ensures
        b == switch_on_in(t@),
{
    has(t, "включ") || has(t, "запус") || has(t, "turn on") || has(t, "switch on")
        || has(t, "start")
}

/// The lowered text asks to toggle something.
pub open spec fn toggle_in(t: Seq<char>) -> bool {
    occurs(t, "переключ"@) || occurs(t, "toggle"@)
}

/// True if the lowered text asks to toggle something.
pub fn names_toggle(t: &str) -> (b: bool)
    ensures
        b == toggle_in(t@),
{
    has(t, "переключ") || has(t, "toggle")
}

/// The lowered text asks for the state of something.
pub open spec fn status_in(t: Seq<char>) -> bool {
    occurs(t, "состоян"@) || occurs(t, "статус"@) || occurs(t, "status"@)
        || occurs(t, "работает"@) || occurs(t, "проверь"@)
}

/// True if the lowered text asks for the state of something.
pub fn names_status(t: &str) -> (b: bool)
    ensures
        b == status_in(t@),
{
    has(t, "состоян") || has(t, "статус") || has(t, "status") || has(t, "работает")
        || has(t, "проверь")
}

/// The lowered text speaks of radio or of playing something.
pub open spec fn radio_context_in(t: Seq<char>) -> bool {
    occurs(t, "радио"@) || occurs(t, "radio"@) || occurs(t, "fm"@) || occurs(t, "станц"@)
        || occurs(t, "station"@) || occurs(t, "включ"@) || occurs(t, "поставь"@)
        || occurs(t, "переключ"@) || occurs(t, "вруб"@) || occurs(t, "запусти"@)
        || occurs(t, "play"@) || occurs(t, "switch"@) || occurs(t, "turn on"@)
        || occurs(t, "put on"@) || occurs(t, "tune"@)
}

/// True if the lowered text speaks of radio or of playing something.
pub fn names_radio(t: &str) -> (b: bool)
    ensures
        b == radio_context_in(t@),
{
    has(t, "радио") || has(t, "radio") || has(t, "fm") || has(t, "станц")
        || has(t, "station") || has(t, "включ") || has(t, "поставь") || has(t, "переключ")
        || has(t, "вруб") || has(t, "запусти") || has(t, "play") || has(t, "switch")
        || has(t, "turn on") || has(t, "put on") || has(t, "tune")
}

// ---------------------------------------------------------------- laws

/// A word of the list that stands alone in the text, whatever stands around it, is heard.
pub proof fn whole_word_is_heard(t: Seq<char>, w: Seq<char>, i: int, list: Seq<Seq<char>>)
    requires
        list.contains(w),
        stands_alone(t, w, i, Sep::Punct),
        forall|k: int| 0 <= k < w.len() ==> alphanumeric(#[trigger] w[k]),
    ensures
        has_any_word(t, list),
{
    piece_between_separators(t, w, i, Sep::Punct);
    let k = choose|k: int|
        0 <= k < pieces(t, Sep::Punct).len() && pieces(t, Sep::Punct)[k] == w;
    assert(list.contains(pieces(t, Sep::Punct)[k]));
}

/// Only a word that stands alone is heard: never a part of a longer word.
pub proof fn heard_word_stands_alone(t: Seq<char>, list: Seq<Seq<char>>)
    requires
        has_any_word(t, list),
    ensures
        exists|w: Seq<char>, i: int| list.contains(w) && stands_alone(t, w, i, Sep::Punct),
{
    let k = choose|k: int|
        0 <= k < pieces(t, Sep::Punct).len() && list.contains(
            #[trigger] pieces(t, Sep::Punct)[k],
        );
    pieces_stand_alone(t, Sep::Punct, k);
    assert(stands_alone(
        t,
        pieces(t, Sep::Punct)[k],
        piece_start(pieces(t, Sep::Punct), k),
        Sep::Punct,
    ));
}

/// `w` is said as a word of its own.
pub open spec fn said(t: Seq<char>, w: Seq<char>) -> bool {
    has_any_word(t, seq![w])
}

proof fn said_is_heard(t: Seq<char>, w: Seq<char>, list: Seq<Seq<char>>)
    requires
        list.contains(w),
        said(t, w),
    ensures
        has_any_word(t, list),
{
    let k = choose|k: int|
        0 <= k < pieces(t, Sep::Punct).len() && seq![w].contains(
            #[trigger] pieces(t, Sep::Punct)[k],
        );
    assert(pieces(t, Sep::Punct)[k] == w);
    assert(list.contains(pieces(t, Sep::Punct)[k]));
}

proof fn heard_is_said(t: Seq<char>, list: Seq<Seq<char>>) -> (m: int)
    requires
        has_any_word(t, list),
    ensures
        0 <= m < list.len(),
        said(t, list[m]),
{
    let k = choose|k: int|
        0 <= k < pieces(t, Sep::Punct).len() && list.contains(
            #[trigger] pieces(t, Sep::Punct)[k],
        );
    let p = pieces(t, Sep::Punct)[k];
    let m = choose|m: int| 0 <= m < list.len() && list[m] == p;
    assert(seq![list[m]][0] == p);
    assert(seq![list[m]].contains(pieces(t, Sep::Punct)[k]));
    m
}

/// Each of these words, said as a word of its own, agrees to what was proposed, in either
/// language; nothing else does.
pub proof fn these_words_agree(t: Seq<char>)
    ensures
        said(t, "yes"@) ==> has_any_word(t, yes_words()),
        said(t, "yeah"@) ==> has_any_word(t, yes_words()),
        said(t, "yep"@) ==> has_any_word(t, yes_words()),
        said(t, "yup"@) ==> has_any_word(t, yes_words()),
        said(t, "sure"@) ==> has_any_word(t, yes_words()),
        said(t, "ok"@) ==> has_any_word(t, yes_words()),
        said(t, "okay"@) ==> has_any_word(t, yes_words()),
        said(t, "да"@) ==> has_any_word(t, yes_words()),
        said(t, "ага"@) ==> has_any_word(t, yes_words()),
        said(t, "давай"@) ==> has_any_word(t, yes_words()),
        said(t, "конечно"@) ==> has_any_word(t, yes_words()),
        said(t, "угу"@) ==> has_any_word(t, yes_words()),
        said(t, "ладно"@) ==> has_any_word(t, yes_words()),
        has_any_word(t, yes_words()) ==> (
            said(t, "yes"@) || said(t, "yeah"@) || said(t, "yep"@)
                || said(t, "yup"@) || said(t, "sure"@) || said(t, "ok"@)
                || said(t, "okay"@) || said(t, "да"@) || said(t, "ага"@)
                || said(t, "давай"@) || said(t, "конечно"@) || said(t, "угу"@)
                || said(t, "ладно"@)
        ),
{
    let list = yes_words();
    assert(list[0] == "yes"@);
    if said(t, "yes"@) {
        said_is_heard(t, "yes"@, list);
    }
    assert(list[1] == "yeah"@);
    if said(t, "yeah"@) {
        said_is_heard(t, "yeah"@, list);
    }
    assert(list[2] == "yep"@);
    if said(t, "yep"@) {
        said_is_heard(t, "yep"@, list);
    }
    assert(list[3] == "yup"@);
    if said(t, "yup"@) {
        said_is_heard(t, "yup"@, list);
    }
    assert(list[4] == "sure"@);
    if said(t, "sure"@) {
        said_is_heard(t, "sure"@, list);
    }
    assert(list[5] == "ok"@);
    if said(t, "ok"@) {
        said_is_heard(t, "ok"@, list);
    }
    assert(list[6] == "okay"@);
    if said(t, "okay"@) {
        said_is_heard(t, "okay"@, list);
    }
    assert(list[7] == "да"@);
    if said(t, "да"@) {
        said_is_heard(t, "да"@, list);
    }
    assert(list[8] == "ага"@);
    if said(t, "ага"@) {
        said_is_heard(t, "ага"@, list);
    }
    assert(list[9] == "давай"@);
    if said(t, "давай"@) {
        said_is_heard(t, "давай"@, list);
    }
    assert(list[10] == "конечно"@);
    if said(t, "конечно"@) {
        said_is_heard(t, "конечно"@, list);
    }
    assert(list[11] == "угу"@);
    if said(t, "угу"@) {
        said_is_heard(t, "угу"@, list);
    }
    assert(list[12] == "ладно"@);
    if said(t, "ладно"@) {
        said_is_heard(t, "ладно"@, list);
    }
    if has_any_word(t, list) {
        let m = heard_is_said(t, list);
    }
}

/// Each of these words, said as a word of its own, declines what was proposed, in either
/// language; nothing else does.
pub proof fn these_words_decline(t: Seq<char>)
    ensures
        said(t, "no"@) ==> has_any_word(t, no_words()),
        said(t, "nope"@) ==> has_any_word(t, no_words()),
        said(t, "cancel"@) ==> has_any_word(t, no_words()),
        said(t, "stop"@) ==> has_any_word(t, no_words()),
        said(t, "нет"@) ==> has_any_word(t, no_words()),
        said(t, "отмена"@) ==> has_any_word(t, no_words()),
        said(t, "отмени"@) ==> has_any_word(t, no_words()),
        said(t, "стоп"@) ==> has_any_word(t, no_words()),
        said(t, "неа"@) ==> has_any_word(t, no_words()),
        has_any_word(t, no_words()) ==> (
            said(t, "no"@) || said(t, "nope"@) || said(t, "cancel"@)
                || said(t, "stop"@) || said(t, "нет"@) || said(t, "отмена"@)
                || said(t, "отмени"@) || said(t, "стоп"@) || said(t, "неа"@)
        ),
{
    let list = no_words();
    assert(list[0] == "no"@);
    if said(t, "no"@) {
        said_is_heard(t, "no"@, list);
    }
    assert(list[1] == "nope"@);
    if said(t, "nope"@) {
        said_is_heard(t, "nope"@, list);
    }
    assert(list[2] == "cancel"@);
    if said(t, "cancel"@) {
        said_is_heard(t, "cancel"@, list);
    }
    assert(list[3] == "stop"@);
    if said(t, "stop"@) {
        said_is_heard(t, "stop"@, list);
    }
    assert(list[4] == "нет"@);
    if said(t, "нет"@) {
        said_is_heard(t, "нет"@, list);
    }
    assert(list[5] == "отмена"@);
    if said(t, "отмена"@) {
        said_is_heard(t, "отмена"@, list);
    }
    assert(list[6] == "отмени"@);
    if said(t, "отмени"@) {
        said_is_heard(t, "отмени"@, list);
    }
    assert(list[7] == "стоп"@);
    if said(t, "стоп"@) {
        said_is_heard(t, "стоп"@, list);
    }
    assert(list[8] == "неа"@);
    if said(t, "неа"@) {
        said_is_heard(t, "неа"@, list);
    }
    if has_any_word(t, list) {
        let m = heard_is_said(t, list);
    }
}

/// A phrase names the volume exactly where one of these stands in it, whatever stands around it.
pub proof fn these_name_the_volume(t: Seq<char>)
    ensures
        occurs(t, "volume"@) ==> volume_word_in(t),
        occurs(t, "vol "@) ==> volume_word_in(t),
        occurs(t, "мкост"@) ==> volume_word_in(t),
        occurs(t, "звук"@) ==> volume_word_in(t),
        occurs(t, "громк"@) ==> volume_word_in(t),
        occurs(t, "гломк"@) ==> volume_word_in(t),
        volume_word_in(t) ==> (
            occurs(t, "volume"@) || occurs(t, "vol "@) || occurs(t, "мкост"@)
                || occurs(t, "звук"@) || occurs(t, "громк"@) || occurs(t, "гломк"@)
        ),
{
}

/// A phrase asks for speaker mode exactly where one of these stands in it.
pub proof fn these_ask_for_speaker_mode(t: Seq<char>)
    ensures
        occurs(t, "speaker mode"@) ==> speaker_in(t),
        occurs(t, "pc speaker"@) ==> speaker_in(t),
        occurs(t, "колонк"@) ==> speaker_in(t),
        occurs(t, "динамик"@) ==> speaker_in(t),
        occurs(t, "режим колон"@) ==> speaker_in(t),
        speaker_in(t) ==> (
            occurs(t, "speaker mode"@) || occurs(t, "pc speaker"@) || occurs(t, "колонк"@)
                || occurs(t, "динамик"@) || occurs(t, "режим колон"@)
        ),
{
}

/// A phrase asks for transcription exactly where one of these stands in it.
pub proof fn these_ask_for_transcription(t: Seq<char>)
    ensures
        occurs(t, "transcrib"@) ==> transcribe_enter_in(t),
        occurs(t, "voice to text"@) ==> transcribe_enter_in(t),
        occurs(t, "dictation"@) ==> transcribe_enter_in(t),
        occurs(t, "транскри"@) ==> transcribe_enter_in(t),
        occurs(t, "стеногра"@) ==> transcribe_enter_in(t),
        occurs(t, "диктов"@) ==> transcribe_enter_in(t),
        occurs(t, "голос в текст"@) ==> transcribe_enter_in(t),
        transcribe_enter_in(t) ==> (
            occurs(t, "transcrib"@) || occurs(t, "voice to text"@)
                || occurs(t, "dictation"@) || occurs(t, "транскри"@) || occurs(t, "стеногра"@)
                || occurs(t, "диктов"@) || occurs(t, "голос в текст"@)
        ),
{
}

/// A phrase switches live dictation on exactly where it names the field.
pub proof fn these_name_the_field(t: Seq<char>)
    ensures
        occurs(t, "в поле"@) ==> typing_on_in(t),
        occurs(t, "в input"@) ==> typing_on_in(t),
        occurs(t, "в инпут"@) ==> typing_on_in(t),
        occurs(t, "into field"@) ==> typing_on_in(t),
        occurs(t, "into input"@) ==> typing_on_in(t),
        occurs(t, "typing into"@) ==> typing_on_in(t),
        occurs(t, "live dictation"@) ==> typing_on_in(t),
        typing_on_in(t) ==> (
            occurs(t, "в поле"@) || occurs(t, "в input"@) || occurs(t, "в инпут"@)
                || occurs(t, "into field"@) || occurs(t, "into input"@)
                || occurs(t, "typing into"@) || occurs(t, "live dictation"@)
        ),
{
}

/// A phrase asks for coding mode exactly where one of these stands in it.
pub proof fn these_ask_for_coding_mode(t: Seq<char>)
    ensures
        occurs(t, "coding mode"@) ==> coding_enter_in(t),
        occurs(t, "start coding"@) ==> coding_enter_in(t),
        occurs(t, "let's code"@) ==> coding_enter_in(t),
        occurs(t, "режим программир"@) ==> coding_enter_in(t),
        occurs(t, "программирован"@) ==> coding_enter_in(t),
        occurs(t, "кодинг"@) ==> coding_enter_in(t),
        coding_enter_in(t) ==> (
            occurs(t, "coding mode"@) || occurs(t, "start coding"@)
                || occurs(t, "let's code"@) || occurs(t, "режим программир"@)
                || occurs(t, "программирован"@) || occurs(t, "кодинг"@)
        ),
{
}

/// A phrase asks for chat mode exactly where one of these stands in it.
pub proof fn these_ask_for_chat_mode(t: Seq<char>)
    ensures
        occurs(t, "режим разговор"@) ==> chat_enter_in(t),
        occurs(t, "режим бесед"@) ==> chat_enter_in(t),
        occurs(t, "режим чат"@) ==> chat_enter_in(t),
        occurs(t, "поговор"@) ==> chat_enter_in(t),
        occurs(t, "поболта"@) ==> chat_enter_in(t),
        occurs(t, "побеседуем"@) ==> chat_enter_in(t),
        occurs(t, "попизд"@) ==> chat_enter_in(t),
        occurs(t, "chat mode"@) ==> chat_enter_in(t),
        occurs(t, "let's chat"@) ==> chat_enter_in(t),
        occurs(t, "let's talk"@) ==> chat_enter_in(t),
        chat_enter_in(t) ==> (
            occurs(t, "режим разговор"@) || occurs(t, "режим бесед"@)
                || occurs(t, "режим чат"@) || occurs(t, "поговор"@) || occurs(t, "поболта"@)
                || occurs(t, "побеседуем"@) || occurs(t, "попизд"@) || occurs(t, "chat mode"@)
                || occurs(t, "let's chat"@) || occurs(t, "let's talk"@)
        ),
{
}

/// A request asks which stations there are exactly where one of these stands in it.
pub proof fn these_ask_for_the_list(t: Seq<char>)
    ensures
        occurs(t, "list"@) ==> list_request_in(t),
        occurs(t, "список"@) ==> list_request_in(t),
        occurs(t, "станци"@) ==> list_request_in(t),
        occurs(t, "какие"@) ==> list_request_in(t),
        occurs(t, "available"@) ==> list_request_in(t),
        occurs(t, "что есть"@) ==> list_request_in(t),
        list_request_in(t) ==> (
            occurs(t, "list"@) || occurs(t, "список"@) || occurs(t, "станци"@)
                || occurs(t, "какие"@) || occurs(t, "available"@) || occurs(t, "что есть"@)
        ),
{
}

/// A transcript is an invention of speech recognition exactly where one of these stands in it.
pub proof fn these_are_junk(t: Seq<char>)
    ensures
        occurs(t, "продолжение следует"@) ==> junk_in(t),
        occurs(t, "субтитры"@) ==> junk_in(t),
        occurs(t, "субтитров"@) ==> junk_in(t),
        occurs(t, "спасибо за просмотр"@) ==> junk_in(t),
        occurs(t, "for watching"@) ==> junk_in(t),
        occurs(t, "subscribe"@) ==> junk_in(t),
        occurs(t, "subtitles"@) ==> junk_in(t),
        junk_in(t) ==> (
            occurs(t, "продолжение следует"@) || occurs(t, "субтитры"@)
                || occurs(t, "субтитров"@) || occurs(t, "спасибо за просмотр"@)
                || occurs(t, "for watching"@) || occurs(t, "subscribe"@)
                || occurs(t, "subtitles"@)
        ),
{
}

/// A phrase names a language exactly where one of these stands in it.
pub proof fn these_name_languages(t: Seq<char>)
    ensures
        occurs(t, "английск"@) ==> language_in(t),
        occurs(t, "русск"@) ==> language_in(t),
        occurs(t, "немецк"@) ==> language_in(t),
        occurs(t, "испанск"@) ==> language_in(t),
        occurs(t, "французск"@) ==> language_in(t),
        occurs(t, "итальянск"@) ==> language_in(t),
        occurs(t, "украинск"@) ==> language_in(t),
        occurs(t, "польск"@) ==> language_in(t),
        occurs(t, "португальск"@) ==> language_in(t),
        occurs(t, "китайск"@) ==> language_in(t),
        occurs(t, "японск"@) ==> language_in(t),
        occurs(t, "арабск"@) ==> language_in(t),
        occurs(t, "english"@) ==> language_in(t),
        occurs(t, "russian"@) ==> language_in(t),
        occurs(t, "german"@) ==> language_in(t),
        occurs(t, "spanish"@) ==> language_in(t),
        occurs(t, "french"@) ==> language_in(t),
        occurs(t, "italian"@) ==> language_in(t),
        occurs(t, "ukrainian"@) ==> language_in(t),
        occurs(t, "polish"@) ==> language_in(t),
        occurs(t, "portuguese"@) ==> language_in(t),
        occurs(t, "chinese"@) ==> language_in(t),
        occurs(t, "japanese"@) ==> language_in(t),
        occurs(t, "arabic"@) ==> language_in(t),
        language_in(t) ==> (
            occurs(t, "английск"@) || occurs(t, "русск"@) || occurs(t, "немецк"@)
                || occurs(t, "испанск"@) || occurs(t, "французск"@) || occurs(t, "итальянск"@)
                || occurs(t, "украинск"@) || occurs(t, "польск"@) || occurs(t, "португальск"@)
                || occurs(t, "китайск"@) || occurs(t, "японск"@) || occurs(t, "арабск"@)
                || occurs(t, "english"@) || occurs(t, "russian"@) || occurs(t, "german"@)
                || occurs(t, "spanish"@) || occurs(t, "french"@) || occurs(t, "italian"@)
                || occurs(t, "ukrainian"@) || occurs(t, "polish"@) || occurs(t, "portuguese"@)
                || occurs(t, "chinese"@) || occurs(t, "japanese"@) || occurs(t, "arabic"@)
        ),
{
}

/// A phrase says right behind the word for translating to what it is translated exactly where
/// one of these stands in it.
pub proof fn these_say_to_what(t: Seq<char>)
    ensures
        occurs(t, "перевод на "@) ==> target_in(t),
        occurs(t, "перевода на "@) ==> target_in(t),
        occurs(t, "переводи на "@) ==> target_in(t),
        occurs(t, "переводить на "@) ==> target_in(t),
        occurs(t, "переведи на "@) ==> target_in(t),
        occurs(t, "translate to "@) ==> target_in(t),
        occurs(t, "translating to "@) ==> target_in(t),
        occurs(t, "translation to "@) ==> target_in(t),
        occurs(t, "translator to "@) ==> target_in(t),
        occurs(t, "translate into "@) ==> target_in(t),
        occurs(t, "translating into "@) ==> target_in(t),
        occurs(t, "translation into "@) ==> target_in(t),
        occurs(t, "translator into "@) ==> target_in(t),
        target_in(t) ==> (
            occurs(t, "перевод на "@) || occurs(t, "перевода на "@)
                || occurs(t, "переводи на "@) || occurs(t, "переводить на "@)
                || occurs(t, "переведи на "@) || occurs(t, "translate to "@)
                || occurs(t, "translating to "@) || occurs(t, "translation to "@)
                || occurs(t, "translator to "@) || occurs(t, "translate into "@)
                || occurs(t, "translating into "@) || occurs(t, "translation into "@)
                || occurs(t, "translator into "@)
        ),
{
}

/// A phrase asks for translate mode, with or without a language, exactly where one of these
/// stands in it.
pub proof fn these_ask_for_translate_mode(t: Seq<char>)
    ensures
        occurs(t, "режим перевод"@) ==> translate_mode_in(t),
        occurs(t, "режим переводчик"@) ==> translate_mode_in(t),
        occurs(t, "включи перевод"@) ==> translate_mode_in(t),
        occurs(t, "включи переводчик"@) ==> translate_mode_in(t),
        occurs(t, "запусти перевод"@) ==> translate_mode_in(t),
        occurs(t, "переводчик"@) ==> translate_mode_in(t),
        occurs(t, "translate mode"@) ==> translate_mode_in(t),
        occurs(t, "turn on translate"@) ==> translate_mode_in(t),
        occurs(t, "start translat"@) ==> translate_mode_in(t),
        occurs(t, "let's translate"@) ==> translate_mode_in(t),
        translate_mode_in(t) ==> (
            occurs(t, "режим перевод"@) || occurs(t, "режим переводчик"@)
                || occurs(t, "включи перевод"@) || occurs(t, "включи переводчик"@)
                || occurs(t, "запусти перевод"@) || occurs(t, "переводчик"@)
                || occurs(t, "translate mode"@) || occurs(t, "turn on translate"@)
                || occurs(t, "start translat"@) || occurs(t, "let's translate"@)
        ),
{
}

/// A phrase is about the settings of transcription exactly where one of these stands in it.
pub proof fn these_are_about_settings(t: Seq<char>)
    ensures
        occurs(t, "настройк"@) ==> settings_in(t),
        occurs(t, "транскри"@) ==> settings_in(t),
        occurs(t, "стеногра"@) ==> settings_in(t),
        occurs(t, "диктов"@) ==> settings_in(t),
        settings_in(t) ==> (
            occurs(t, "настройк"@) || occurs(t, "транскри"@) || occurs(t, "стеногра"@)
                || occurs(t, "диктов"@)
        ),
{
}

/// A phrase names the new line exactly where one of these stands in it.
pub proof fn these_name_the_new_line(t: Seq<char>)
    ensures
        occurs(t, "новой строк"@) ==> newline_in(t),
        occurs(t, "новая строк"@) ==> newline_in(t),
        occurs(t, "новой строки"@) ==> newline_in(t),
        occurs(t, "перенос"@) ==> newline_in(t),
        occurs(t, "энтер"@) ==> newline_in(t),
        occurs(t, "enter"@) ==> newline_in(t),
        occurs(t, "new line"@) ==> newline_in(t),
        occurs(t, "newline"@) ==> newline_in(t),
        newline_in(t) ==> (
            occurs(t, "новой строк"@) || occurs(t, "новая строк"@)
                || occurs(t, "новой строки"@) || occurs(t, "перенос"@) || occurs(t, "энтер"@)
                || occurs(t, "enter"@) || occurs(t, "new line"@) || occurs(t, "newline"@)
        ),
{
}

/// A phrase names the space exactly where one of these stands in it.
pub proof fn these_name_the_space(t: Seq<char>)
    ensures
        occurs(t, "пробел"@) ==> space_in(t),
        occurs(t, "space"@) ==> space_in(t),
        space_in(t) ==> (
            occurs(t, "пробел"@) || occurs(t, "space"@)
        ),
{
}

/// A phrase asks for no separator exactly where one of these stands in it.
pub proof fn these_name_no_separator(t: Seq<char>)
    ensures
        occurs(t, "слитно"@) ==> joined_up_in(t),
        occurs(t, "без пробел"@) ==> joined_up_in(t),
        occurs(t, "без разделит"@) ==> joined_up_in(t),
        joined_up_in(t) ==> (
            occurs(t, "слитно"@) || occurs(t, "без пробел"@) || occurs(t, "без разделит"@)
        ),
{
}

/// A phrase names the clipboard exactly where one of these stands in it.
pub proof fn these_name_the_clipboard(t: Seq<char>)
    ensures
        occurs(t, "ctrl"@) ==> paste_in(t),
        occurs(t, "контрол"@) ==> paste_in(t),
        occurs(t, "вставк"@) ==> paste_in(t),
        occurs(t, "буфер"@) ==> paste_in(t),
        occurs(t, "paste"@) ==> paste_in(t),
        paste_in(t) ==> (
            occurs(t, "ctrl"@) || occurs(t, "контрол"@) || occurs(t, "вставк"@)
                || occurs(t, "буфер"@) || occurs(t, "paste"@)
        ),
{
}

/// A phrase names the key strokes exactly where one of these stands in it.
pub proof fn these_name_the_keys(t: Seq<char>)
    ensures
        occurs(t, "нативн"@) ==> keys_in(t),
        occurs(t, "клавиш"@) ==> keys_in(t),
        occurs(t, "native"@) ==> keys_in(t),
        occurs(t, "sendinput"@) ==> keys_in(t),
        occurs(t, "печать клавиш"@) ==> keys_in(t),
        keys_in(t) ==> (
            occurs(t, "нативн"@) || occurs(t, "клавиш"@) || occurs(t, "native"@)
                || occurs(t, "sendinput"@) || occurs(t, "печать клавиш"@)
        ),
{
}

/// A phrase names the compressor exactly where one of these stands in it.
pub proof fn these_name_the_compressor(t: Seq<char>)
    ensures
        occurs(t, "компрессор"@) ==> compressor_in(t),
        occurs(t, "compressor"@) ==> compressor_in(t),
        compressor_in(t) ==> (
            occurs(t, "компрессор"@) || occurs(t, "compressor"@)
        ),
{
}

/// A phrase asks to switch off exactly where one of these stands in it.
pub proof fn these_switch_off(t: Seq<char>)
    ensures
        occurs(t, "выключ"@) ==> switch_off_in(t),
        occurs(t, "выкл"@) ==> switch_off_in(t),
        occurs(t, "останов"@) ==> switch_off_in(t),
        occurs(t, "turn off"@) ==> switch_off_in(t),
        occurs(t, "switch off"@) ==> switch_off_in(t),
        occurs(t, "shut"@) ==> switch_off_in(t),
        switch_off_in(t) ==> (
            occurs(t, "выключ"@) || occurs(t, "выкл"@) || occurs(t, "останов"@)
                || occurs(t, "turn off"@) || occurs(t, "switch off"@) || occurs(t, "shut"@)
        ),
{
}

/// A phrase asks to switch on exactly where one of these stands in it.
pub proof fn these_switch_on(t: Seq<char>)
    ensures
        occurs(t, "включ"@) ==> switch_on_in(t),
        occurs(t, "запус"@) ==> switch_on_in(t),
        occurs(t, "turn on"@) ==> switch_on_in(t),
        occurs(t, "switch on"@) ==> switch_on_in(t),
        occurs(t, "start"@) ==> switch_on_in(t),
        switch_on_in(t) ==> (
            occurs(t, "включ"@) || occurs(t, "запус"@) || occurs(t, "turn on"@)
                || occurs(t, "switch on"@) || occurs(t, "start"@)
        ),
{
}

/// A phrase asks to toggle exactly where one of these stands in it.
pub proof fn these_toggle(t: Seq<char>)
    ensures
        occurs(t, "переключ"@) ==> toggle_in(t),
        occurs(t, "toggle"@) ==> toggle_in(t),
        toggle_in(t) ==> (
            occurs(t, "переключ"@) || occurs(t, "toggle"@)
        ),
{
}

/// A phrase asks for the state exactly where one of these stands in it.
pub proof fn these_ask_for_the_state(t: Seq<char>)
    ensures
        occurs(t, "состоян"@) ==> status_in(t),
        occurs(t, "статус"@) ==> status_in(t),
        occurs(t, "status"@) ==> status_in(t),
        occurs(t, "работает"@) ==> status_in(t),
        occurs(t, "проверь"@) ==> status_in(t),
        status_in(t) ==> (
            occurs(t, "состоян"@) || occurs(t, "статус"@) || occurs(t, "status"@)
                || occurs(t, "работает"@) || occurs(t, "проверь"@)
        ),
{
}

/// A phrase speaks of radio or of playing something exactly where one of these stands in it.
pub proof fn these_speak_of_radio(t: Seq<char>)
    ensures
        occurs(t, "радио"@) ==> radio_context_in(t),
        occurs(t, "radio"@) ==> radio_context_in(t),
        occurs(t, "fm"@) ==> radio_context_in(t),
        occurs(t, "станц"@) ==> radio_context_in(t),
        occurs(t, "station"@) ==> radio_context_in(t),
        occurs(t, "включ"@) ==> radio_context_in(t),
        occurs(t, "поставь"@) ==> radio_context_in(t),
        occurs(t, "переключ"@) ==> radio_context_in(t),
        occurs(t, "вруб"@) ==> radio_context_in(t),
        occurs(t, "запусти"@) ==> radio_context_in(t),
        occurs(t, "play"@) ==> radio_context_in(t),
        occurs(t, "switch"@) ==> radio_context_in(t),
        occurs(t, "turn on"@) ==> radio_context_in(t),
        occurs(t, "put on"@) ==> radio_context_in(t),
        occurs(t, "tune"@) ==> radio_context_in(t),
        radio_context_in(t) ==> (
            occurs(t, "радио"@) || occurs(t, "radio"@) || occurs(t, "fm"@)
                || occurs(t, "станц"@) || occurs(t, "station"@) || occurs(t, "включ"@)
                || occurs(t, "поставь"@) || occurs(t, "переключ"@) || occurs(t, "вруб"@)
                || occurs(t, "запусти"@) || occurs(t, "play"@) || occurs(t, "switch"@)
                || occurs(t, "turn on"@) || occurs(t, "put on"@) || occurs(t, "tune"@)
        ),
{
}

/// A phrase switches live dictation off exactly where it names the field and a word for stopping.
pub proof fn these_switch_typing_off(t: Seq<char>)
    ensures
        ({
            let named = occurs(t, "в поле"@) || occurs(t, "в input"@) || occurs(t, "в инпут"@)
                || occurs(t, "into field"@) || occurs(t, "into input"@)
                || occurs(t, "typing into"@) || occurs(t, "live dictation"@);
            let stopped = occurs(t, "выключ"@) || occurs(t, "отключ"@) || occurs(t, "останов"@)
                || occurs(t, "стоп"@) || occurs(t, "не "@) || occurs(t, "off"@)
                || occurs(t, "disable"@) || occurs(t, "stop"@);
            &&& named && stopped ==> typing_off_in(t)
            &&& typing_off_in(t) ==> (named && stopped)
        }),
{
}

/// A phrase leaves hacker mode exactly where it names the mode and a word for stopping.
pub proof fn these_leave_hacker_mode(t: Seq<char>)
    ensures
        ({
            let named = occurs(t, "хакер"@) || occurs(t, "hacker"@);
            let stopped = occurs(t, "выйти"@) || occurs(t, "выход"@) || occurs(t, "стоп"@)
                || occurs(t, "закончи"@) || occurs(t, "выключ"@) || occurs(t, "exit"@)
                || occurs(t, "stop"@);
            &&& named && stopped ==> hacker_exit_in(t)
            &&& hacker_exit_in(t) ==> (named && stopped)
        }),
{
}

/// A phrase leaves coding mode exactly where it names the mode and a word for stopping.
pub proof fn these_leave_coding_mode(t: Seq<char>)
    ensures
        ({
            let named = occurs(t, "программир"@) || occurs(t, "кодинг"@) || occurs(t, "coding"@);
            let stopped = occurs(t, "выйти"@) || occurs(t, "выйди"@) || occurs(t, "выход"@)
                || occurs(t, "закончи"@) || occurs(t, "заверши"@) || occurs(t, "стоп"@)
                || occurs(t, "выключи"@) || occurs(t, "exit"@) || occurs(t, "stop"@)
                || occurs(t, "leave"@) || occurs(t, "end"@) || occurs(t, "quit"@);
            &&& named && stopped ==> coding_exit_in(t)
            &&& coding_exit_in(t) ==> (named && stopped)
        }),
{
}

/// A phrase leaves translate mode exactly where it names translation and a word for stopping, of
/// one language.
pub proof fn these_leave_translate_mode(t: Seq<char>)
    ensures
        ({
            let russian = occurs(t, "выйти"@) || occurs(t, "выход"@) || occurs(t, "выключ"@)
                || occurs(t, "закончи"@) || occurs(t, "останови"@) || occurs(t, "стоп"@)
                || occurs(t, "хватит"@);
            let english = occurs(t, "exit"@) || occurs(t, "stop"@) || occurs(t, "off"@)
                || occurs(t, "quit"@) || occurs(t, "end"@) || occurs(t, "turn off"@);
            &&& occurs(t, "перевод"@) && russian ==> translate_exit_in(t)
            &&& occurs(t, "translat"@) && english ==> translate_exit_in(t)
            &&& occurs(t, "хватит переводить"@) ==> translate_exit_in(t)
            &&& translate_exit_in(t) ==> (occurs(t, "перевод"@) && russian) || (occurs(
                t,
                "translat"@,
            ) && english) || occurs(t, "хватит переводить"@)
        }),
{
}

/// A phrase leaves chat mode exactly where it says so by name, or holds a word for stopping and a
/// word for talking.
pub proof fn these_leave_chat_mode(t: Seq<char>)
    ensures
        ({
            let named = occurs(t, "разгов"@) || occurs(t, "бесед"@) || occurs(t, "болта"@)
                || occurs(t, "чат"@) || occurs(t, "общ"@);
            let stopped = occurs(t, "закончи"@) || occurs(t, "заканчива"@) || occurs(t, "заверши"@)
                || occurs(t, "хватит"@) || occurs(t, "стоп"@) || occurs(t, "прекрат"@)
                || occurs(t, "конец"@);
            let said_so = occurs(t, "выйти из разговор"@) || occurs(t, "выйти из бесед"@)
                || occurs(t, "выйти из чат"@) || occurs(t, "exit chat"@)
                || occurs(t, "stop chat"@) || occurs(t, "leave chat"@) || occurs(t, "end chat"@)
                || occurs(t, "до свидания"@) || occurs(t, "goodbye"@);
            &&& named && stopped ==> chat_exit_in(t)
            &&& said_so ==> chat_exit_in(t)
            &&& chat_exit_in(t) ==> (named && stopped) || said_so
        }),
{
}

/// A phrase asks for hacker mode exactly where one of these stands in it.
pub proof fn these_ask_for_hacker_mode(t: Seq<char>)
    ensures
        occurs(t, "режим хакер"@) ==> hacker_enter_in(t),
        occurs(t, "режим взлом"@) ==> hacker_enter_in(t),
        occurs(t, "hacker mode"@) ==> hacker_enter_in(t),
        occurs(t, "хакер"@) && occurs(t, "режим"@) ==> hacker_enter_in(t),
        hacker_enter_in(t) ==> (
            occurs(t, "режим хакер"@) || occurs(t, "режим взлом"@)
                || occurs(t, "hacker mode"@)
                || (occurs(t, "хакер"@) && occurs(t, "режим"@))
        ),
{
}

/// Words around a request never take it back: a phrase that asks for a mode still does so with
/// more words before and behind it.
pub proof fn more_words_do_not_matter(a: Seq<char>, t: Seq<char>, b: Seq<char>)
    ensures
        coding_enter_in(t) ==> coding_enter_in(a + t + b),
        coding_exit_in(t) ==> coding_exit_in(a + t + b),
        chat_enter_in(t) ==> chat_enter_in(a + t + b),
        chat_exit_in(t) ==> chat_exit_in(a + t + b),
        hacker_enter_in(t) ==> hacker_enter_in(a + t + b),
        hacker_exit_in(t) ==> hacker_exit_in(a + t + b),
        translate_mode_in(t) ==> translate_mode_in(a + t + b),
        translate_exit_in(t) ==> translate_exit_in(a + t + b),
        transcribe_enter_in(t) ==> transcribe_enter_in(a + t + b),
        volume_word_in(t) ==> volume_word_in(a + t + b),
        speaker_in(t) ==> speaker_in(a + t + b),
        junk_in(t) ==> junk_in(a + t + b),
{
    assert forall|w: Seq<char>| occurs(t, w) implies #[trigger] occurs(a + t + b, w) by {
        let i = choose|i: int| occurs_at(t, w, i);
        assert((a + t + b).subrange(a.len() + i, a.len() + i + w.len()) =~= t.subrange(
            i,
            i + w.len(),
        ));
        assert(occurs_at(a + t + b, w, a.len() + i));
    }
}

} // verus!
