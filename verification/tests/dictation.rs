use server_voice_s3r::dictation::{
    count_enter_words, deliver_transcript, plan_delivery, print_transcript, send_ctrl_v, send_enter,
    transcribe_settings_step, type_into_focus, utf16_units, Delivery, Dictation, Key, KeyEvent,
    Method, Separator, VK_CONTROL, VK_RETURN, VK_SHIFT, VK_V,
};

fn typing(separator: Separator, method: Method) -> Dictation {
    Dictation { typing: true, separator, method, started: false }
}

fn pasted(d: Delivery) -> String {
    match d {
        Delivery::Paste { payload } => payload,
        _ => panic!("not pasted"),
    }
}

fn submitted(d: Delivery) -> String {
    match d {
        Delivery::Submit { text } => text,
        _ => panic!("not submitted"),
    }
}

fn setting(d: &mut Dictation, low: &str) -> String {
    match transcribe_settings_step(d, low) {
        Some(w) => w,
        None => panic!("no setting"),
    }
}

#[test]
fn settings_by_voice() {
    let mut d = typing(Separator::Space, Method::Paste);
    assert_eq!(setting(&mut d, "настройки с новой строки"), "Готово, каждая фраза с новой строки.");
    assert!(d.separator == Separator::NewLine);
    assert_eq!(setting(&mut d, "настройки пробел"), "Готово, фразы через пробел.");
    assert!(d.separator == Separator::Space);
    assert_eq!(setting(&mut d, "диктовка слитно"), "Готово, без разделителя.");
    assert!(d.separator == Separator::Joined);
    assert_eq!(setting(&mut d, "настройки нативный"), "Готово, набор клавишами.");
    assert!(d.method == Method::Keys);
    assert_eq!(setting(&mut d, "настройки буфер"), "Готово, вставка через Ctrl+V.");
    assert!(d.method == Method::Paste);
    assert_eq!(setting(&mut d, "выключи печать в поле"), "Печать в поле выключена.");
    assert!(!d.typing);
    assert_eq!(setting(&mut d, "печать в поле"), "Печать в поле включена.");
    assert!(d.typing);
    assert!(transcribe_settings_step(&mut d, "пробел").is_none());
    assert!(transcribe_settings_step(&mut d, "настройки").is_none());
}

#[test]
fn a_named_space_comes_before_none() {
    let mut d = typing(Separator::NewLine, Method::Paste);
    assert_eq!(setting(&mut d, "настройки без пробела"), "Готово, фразы через пробел.");
    assert!(d.separator == Separator::Space);
    assert_eq!(setting(&mut d, "настройки без разделителя"), "Готово, без разделителя.");
    assert!(d.separator == Separator::Joined);
}

#[test]
fn separators_stand_before_later_phrases() {
    let mut d = typing(Separator::NewLine, Method::Paste);
    assert_eq!(pasted(deliver_transcript(&mut d, " Привет. ")), "Привет");
    assert_eq!(pasted(deliver_transcript(&mut d, "Как дела?..")), "\nКак дела?");
    let mut d = typing(Separator::Space, Method::Paste);
    assert_eq!(pasted(deliver_transcript(&mut d, "One.")), "One.");
    assert_eq!(pasted(deliver_transcript(&mut d, "Two.")), " Two.");
    let mut d = typing(Separator::Joined, Method::Paste);
    deliver_transcript(&mut d, "a");
    assert_eq!(pasted(deliver_transcript(&mut d, "b")), "b");
}

#[test]
fn keys_keep_a_copy() {
    let mut d = typing(Separator::NewLine, Method::Keys);
    deliver_transcript(&mut d, "a");
    match deliver_transcript(&mut d, "b.") {
        Delivery::Type { payload, text } => {
            assert_eq!(payload, "\nb");
            assert_eq!(text, "b");
        }
        _ => panic!("not typed"),
    }
}

#[test]
fn spoken_enter_submits() {
    let mut d = typing(Separator::NewLine, Method::Paste);
    deliver_transcript(&mut d, "погода");
    assert!(d.started);
    assert_eq!(submitted(deliver_transcript(&mut d, "погода в Риге, нажать Энтер.")), "погода в Риге,");
    assert!(!d.started);
    assert_eq!(submitted(deliver_transcript(&mut d, "hello press enter")), "hello");
    assert_eq!(submitted(deliver_transcript(&mut d, "hello ENTER!")), "hello");
    assert_eq!(submitted(deliver_transcript(&mut d, "привет нажми")), "привет");
    assert_eq!(submitted(deliver_transcript(&mut d, "иди назад энтер")), "иди");
    assert_eq!(pasted(deliver_transcript(&mut d, "иди назад")), "иди назад");
    assert_eq!(submitted(deliver_transcript(&mut d, "Enter")), "");
}

#[test]
fn without_typing_only_the_clipboard() {
    let mut d = typing(Separator::NewLine, Method::Paste);
    d.typing = false;
    match deliver_transcript(&mut d, "text.") {
        Delivery::Copy { text } => assert_eq!(text, "text"),
        _ => panic!("not copied"),
    }
    assert!(!d.started);
    assert!(matches!(deliver_transcript(&mut d, "enter"), Delivery::Nothing));
    assert!(matches!(deliver_transcript(&mut d, "..."), Delivery::Nothing));
    assert!(matches!(plan_delivery(&mut d, "".to_string(), true), Delivery::Nothing));
}

#[test]
fn junk_is_not_printed() {
    let mut d = typing(Separator::NewLine, Method::Paste);
    assert!(print_transcript(&mut d, "Thanks for watching!").is_none());
    assert!(print_transcript(&mut d, " . ").is_none());
    assert!(!d.started);
    let (line, delivery) = print_transcript(&mut d, " Привет. ").unwrap();
    assert_eq!(line, "Привет.");
    assert_eq!(pasted(delivery), "Привет");
}

#[test]
fn enter_words_are_counted() {
    let low = |s: &str| s.split(' ').map(|w| w.to_string()).collect::<Vec<String>>();
    assert_eq!(count_enter_words(&low("a нажать ентер")), 2);
    assert_eq!(count_enter_words(&low("a enter")), 1);
    assert_eq!(count_enter_words(&low("a press")), 1);
    assert_eq!(count_enter_words(&low("a назад")), 0);
    assert_eq!(count_enter_words(&Vec::new()), 0);
}

#[test]
fn keys_of_a_text() {
    let down = |key: Key| KeyEvent { key, up: false };
    let up = |key: Key| KeyEvent { key, up: true };
    let got = type_into_focus("a\n");
    let want = vec![
        down(Key::Unit(0x61)),
        up(Key::Unit(0x61)),
        down(Key::Virtual(VK_SHIFT)),
        down(Key::Virtual(VK_RETURN)),
        up(Key::Virtual(VK_RETURN)),
        up(Key::Virtual(VK_SHIFT)),
    ];
    assert!(got == want);
    assert!(type_into_focus("").is_empty());
    assert!(send_enter() == vec![down(Key::Virtual(VK_RETURN)), up(Key::Virtual(VK_RETURN))]);
    let paste = vec![
        down(Key::Virtual(VK_CONTROL)),
        down(Key::Virtual(VK_V)),
        up(Key::Virtual(VK_V)),
        up(Key::Virtual(VK_CONTROL)),
    ];
    assert!(send_ctrl_v() == paste);
}

#[test]
fn units_agree_with_std() {
    for t in ["", "abc", "Привет", "😀 a\u{10000}\u{10ffff}\u{ffff}"] {
        assert_eq!(utf16_units(t), t.encode_utf16().collect::<Vec<u16>>());
    }
}
