use server_voice_s3r::brain::{
    command_reply, openai_answer, openai_brain, radio_playing, radio_reply, read_brain,
    skills_apply, skills_decide, skills_route, windows_answer, windows_brain, windows_prompt,
    windows_speak, BrainReply, Step,
};
use server_voice_s3r::compressor::RelayAction;
use server_voice_s3r::config::{load_config, Config, Environment};
use server_voice_s3r::dictation::{Dictation, Method, Separator};
use server_voice_s3r::modes::{
    chat_mode_reply, coding_mode_reply, hacker_mode_reply, translate_mode_reply, Action,
};
use server_voice_s3r::prompts::Persona;
use server_voice_s3r::protocol::{
    Reply, CTRL_NONE, CTRL_SPEAKER, CTRL_STREAM_EXTERNAL, CTRL_TRANSCRIBE,
};
use server_voice_s3r::replies::Decision;
use server_voice_s3r::session::{listen, Session};

fn config(vars: &[(&str, &str)]) -> Config {
    let mut all = vec![("CODE_DIR".to_string(), "/code".to_string())];
    all.extend(vars.iter().map(|(k, v)| (k.to_string(), v.to_string())));
    match load_config(&Environment::new(all), "/chat") {
        Ok(c) => c,
        Err(e) => panic!("{}", e.message()),
    }
}

fn session() -> Session {
    Session::new(Dictation {
        typing: true,
        separator: Separator::NewLine,
        method: Method::Paste,
        started: false,
    })
}

fn route(s: &mut Session, c: &Config, said: &str) -> Action {
    skills_route(s, c, &Persona::from_byte(0, c), &listen(said))
}

fn reply(a: Action) -> (u8, Option<String>) {
    match a {
        Action::Reply(r) => (r.control, r.words),
        _ => panic!("not a reply"),
    }
}

fn said(r: Reply) -> (u8, String) {
    (r.control, r.words.unwrap())
}

fn words(control: u8, w: &str) -> (u8, Option<String>) {
    (control, Some(w.to_string()))
}

fn step_reply(s: Step) -> (u8, Option<String>) {
    match s {
        Step::Reply(r) => (r.control, r.words),
        _ => panic!("not a reply"),
    }
}

fn choice(skill: &str) -> BrainReply {
    BrainReply {
        skill: skill.to_string(),
        level: None,
        say: String::new(),
        query: String::new(),
        url: String::new(),
        listing: false,
        target: String::new(),
        action: String::new(),
    }
}

fn apply(s: &mut Session, c: &Config, russian: bool, b: &BrainReply) -> Action {
    let v = s.flags.last_volume;
    skills_apply(s, c, &Persona::from_byte(0, c), russian, v, b)
}

#[test]
fn silence_is_not_routed() {
    let c = config(&[]);
    assert_eq!(reply(route(&mut session(), &c, "  ")), (CTRL_NONE, None));
}

#[test]
fn settings_come_before_transcription() {
    let c = config(&[]);
    let mut s = session();
    let r = reply(route(&mut s, &c, "Настройки для стенограммы: пробел"));
    assert_eq!(r, words(CTRL_NONE, "Готово, фразы через пробел."));
    assert!(s.flags.dictation.separator == Separator::Space);
    let r = reply(route(&mut s, &c, "Стенограмма"));
    assert_eq!(r, words(CTRL_STREAM_EXTERNAL, "Режим транскрибации включён. Говорите."));
    let r = reply(route(&mut s, &c, "Transcribe mode"));
    assert_eq!(r, words(CTRL_STREAM_EXTERNAL, "Transcribe mode on. Speak now."));
}

#[test]
fn chat_mode() {
    let c = config(&[]);
    let mut s = session();
    let r = reply(route(&mut s, &c, "Let's chat"));
    assert_eq!(r, words(CTRL_TRANSCRIBE, "Chat mode on. What's on your mind?"));
    assert!(s.flags.chat);
    for again in [false, true, true] {
        match route(&mut s, &c, "Включи радио") {
            Action::Chat(call) => {
                assert_eq!(call.dir, "/chat");
                assert_eq!(call.args.contains(&"--continue".to_string()), again);
                assert!(call.prompt.ends_with("User said: Включи радио"));
            }
            _ => panic!("not a chat"),
        }
    }
    assert_eq!(reply(route(&mut s, &c, "...")), (CTRL_TRANSCRIBE, None));
    let r = reply(route(&mut s, &c, "Хватит болтать"));
    assert_eq!(r, words(CTRL_NONE, "Вышла из режима разговора."));
    assert!(!s.flags.chat);
    assert_eq!(said(chat_mode_reply(&listen("hi"), " **Hello** ")), (CTRL_TRANSCRIBE, "Hello".to_string()));
    assert_eq!(said(chat_mode_reply(&listen("hi"), "")), (CTRL_TRANSCRIBE, "Go on.".to_string()));
    assert_eq!(said(chat_mode_reply(&listen("да"), "#")), (CTRL_TRANSCRIBE, "Слушаю.".to_string()));
}

#[test]
fn translate_mode() {
    let mut s = session();
    let r = reply(route(&mut s, &config(&[]), "Режим перевода"));
    assert_eq!(r, words(CTRL_NONE, "Ключ переводчика не задан."));
    let c = config(&[("GOOGLE_TRANSLATE_API_KEY", "k")]);
    let r = reply(route(&mut s, &c, "Translate mode"));
    assert_eq!(r, words(CTRL_TRANSCRIBE, "Translate mode on. I'll translate between English and Russian."));
    assert_eq!(s.target, "auto");
    let mut named = session();
    assert!(matches!(route(&mut named, &c, "Включи перевод на немецкий"), Action::AskBrain));
    assert!(!named.flags.translate);
    for (utterance, to) in [("Привет", "en"), ("Hello", "ru")] {
        match route(&mut s, &c, utterance) {
            Action::Translate { text, target } => {
                assert_eq!(text, utterance);
                assert_eq!(target, to);
            }
            _ => panic!("not a translation"),
        }
    }
    s.target = "es".to_string();
    match route(&mut s, &c, "Hello") {
        Action::Translate { target, .. } => assert_eq!(target, "es"),
        _ => panic!("not a translation"),
    }
    assert_eq!(reply(route(&mut s, &c, "!!!")), (CTRL_TRANSCRIBE, None));
    let r = reply(route(&mut s, &c, "stop translate"));
    assert_eq!(r, words(CTRL_NONE, "Exiting translate mode."));
    assert!(!s.flags.translate);
    let h = listen("Hello");
    assert_eq!(said(translate_mode_reply(&h, "Привет")), (CTRL_TRANSCRIBE, "Привет".to_string()));
    assert_eq!(said(translate_mode_reply(&h, "  ")), (CTRL_TRANSCRIBE, "Hello".to_string()));
}

#[test]
fn hacker_mode() {
    let c = config(&[]);
    let mut s = session();
    let r = reply(route(&mut s, &c, "Режим хакера"));
    assert_eq!(r, words(CTRL_TRANSCRIBE, "Режим хакера активирован. Назови цель — что взламываем?"));
    match route(&mut s, &c, "the toaster") {
        Action::Hack { system, user } => {
            assert!(system.contains("ONLY in English"));
            assert_eq!(user, "the toaster");
        }
        _ => panic!("not a report"),
    }
    assert_eq!(reply(route(&mut s, &c, ".")), (CTRL_TRANSCRIBE, None));
    assert_eq!(reply(route(&mut s, &c, "exit hacker")), words(CTRL_NONE, "Exiting hacker mode."));
    let h = listen("цель");
    assert_eq!(said(hacker_mode_reply(&h, "")), (CTRL_TRANSCRIBE, "Цель взломана. Все данные у нас.".to_string()));
    assert_eq!(said(hacker_mode_reply(&h, "`Готово`")), (CTRL_TRANSCRIBE, "Готово".to_string()));
}

#[test]
fn coding_mode() {
    let c = config(&[]);
    let mut s = session();
    let r = reply(route(&mut s, &c, "coding mode"));
    assert_eq!(r, words(CTRL_TRANSCRIBE, "Coding mode on. Press the button for each command."));
    assert!(s.flags.coding);
    assert!(!s.flags.coding_started);
    for again in [false, true, true] {
        match route(&mut s, &c, "run the tests") {
            Action::Code(call) => {
                assert_eq!(call.dir, "/code");
                assert_eq!(call.args.contains(&"--continue".to_string()), again);
            }
            _ => panic!("not a command"),
        }
    }
    assert_eq!(reply(route(&mut s, &c, "?")), (CTRL_TRANSCRIBE, None));
    assert_eq!(reply(route(&mut s, &c, "exit coding mode")), words(CTRL_NONE, "Exited coding mode."));
    assert!(!s.flags.coding);
    assert_eq!(said(coding_mode_reply("All green.")), (CTRL_TRANSCRIBE, "All green.".to_string()));
    assert_eq!(said(coding_mode_reply(" ")), (CTRL_TRANSCRIBE, "Done.".to_string()));
}

#[test]
fn the_rest_of_the_routing() {
    let c = config(&[("COMPRESSOR_HOST", "plc"), ("RADIO_FAV_1", "Jazz | http://jazz")]);
    let mut s = session();
    match route(&mut s, &c, "Включи компрессор") {
        Action::Relay { action, russian } => {
            assert!(action == RelayAction::On);
            assert!(russian);
        }
        _ => panic!("not the relay"),
    }
    match route(&mut s, &c, "play jazz") {
        Action::TryRadio { name, url } => {
            assert_eq!(name, "Jazz");
            assert_eq!(url, "http://jazz");
        }
        _ => panic!("not the radio"),
    }
    assert!(matches!(route(&mut s, &c, "what is the weather"), Action::AskBrain));
    assert!(matches!(route(&mut s, &config(&[]), "Включи компрессор"), Action::AskBrain));
    let r = radio_playing();
    assert_eq!(r.control, CTRL_SPEAKER);
    assert!(r.words.is_none());
}

#[test]
fn replies_of_the_brain() {
    let b = read_brain("{\"skill\":\"radio\",\"query\":\"Список\",\"url\":\"u\",\"target\":\" ES \",\"action\":\"ON\",\"say\":\"*ok*\"}");
    assert_eq!(b.skill, "radio");
    assert_eq!(b.say, "ok");
    assert!(b.listing);
    assert_eq!(b.target, "es");
    assert_eq!(b.action, "on");
    assert_eq!(b.url, "u");
    let b = read_brain("It is **sunny**.");
    assert_eq!(b.skill, "answer");
    assert_eq!(b.say, "It is sunny.");
    assert_eq!(b.level, None);
}

#[test]
fn volume_and_speaker_skills() {
    let c = config(&[]);
    let mut s = session();
    let mut b = choice("volume");
    b.level = Some(40);
    assert_eq!(reply(apply(&mut s, &c, false, &b)), words(40, "Volume 40."));
    assert_eq!(s.flags.last_volume, 40);
    b.level = None;
    b.say = "Тише".to_string();
    assert_eq!(reply(apply(&mut s, &c, true, &b)), words(40, "Тише"));
    b.level = Some(255);
    assert_eq!(reply(apply(&mut s, &c, true, &b)).0, 100);
    let mut b = choice("speaker");
    assert_eq!(reply(apply(&mut s, &c, false, &b)), words(CTRL_SPEAKER, "Speaker mode on."));
    assert_eq!(s.flags.last_volume, 100);
    b.level = Some(70);
    assert_eq!(reply(apply(&mut s, &c, false, &b)), words(198, "Speaker mode on."));
    assert_eq!(s.flags.last_volume, 70);
}

#[test]
fn radio_skill() {
    let c = config(&[("RADIO_FAV_1", "A"), ("RADIO_FAV_2", "B")]);
    let mut s = session();
    let mut b = choice("radio");
    assert_eq!(reply(apply(&mut s, &c, false, &b)), words(CTRL_NONE, "Available: A, B. Name a station."));
    assert_eq!(reply(apply(&mut s, &c, true, &b)), words(CTRL_NONE, "Доступны: A, B. Назови станцию."));
    let none = config(&[]);
    assert_eq!(
        reply(apply(&mut s, &none, false, &b)),
        words(CTRL_NONE, "No stations saved. Name a station and I'll find it.")
    );
    b.say = "Here.".to_string();
    b.query = "list".to_string();
    b.listing = true;
    assert_eq!(reply(apply(&mut s, &c, false, &b)), words(CTRL_NONE, "Here."));
    b.url = "http://x".to_string();
    match apply(&mut s, &c, false, &b) {
        Action::FindStation { query, url } => {
            assert_eq!(query, "list");
            assert_eq!(url, "http://x");
        }
        _ => panic!("not a search"),
    }
    assert_eq!(radio_reply(true, true, true).control, CTRL_SPEAKER);
    assert!(radio_reply(true, true, true).words.is_none());
    assert_eq!(said(radio_reply(true, true, false)).1, "Не удалось запустить радио.");
    assert_eq!(said(radio_reply(false, true, false)).1, "Couldn't start the radio.");
    assert_eq!(said(radio_reply(true, false, false)).1, "Не нашла рабочую станцию, попробуй другую.");
    assert_eq!(said(radio_reply(false, false, false)).1, "Couldn't find a working station, try another.");
}

#[test]
fn translate_skill() {
    let c = config(&[("GOOGLE_TRANSLATE_API_KEY", "k")]);
    let mut s = session();
    let mut b = choice("translate");
    let r = reply(apply(&mut s, &c, false, &b));
    assert_eq!(r, words(CTRL_TRANSCRIBE, "Translate mode on, translating to en."));
    assert!(s.flags.translate);
    assert_eq!(s.target, "en");
    b.target = "de".to_string();
    let r = reply(apply(&mut s, &c, true, &b));
    assert_eq!(r, words(CTRL_TRANSCRIBE, "Режим перевода включён, перевожу на «de»."));
    let mut s = session();
    let r = reply(apply(&mut s, &config(&[]), false, &b));
    assert_eq!(r, words(CTRL_NONE, "Translation key is not set."));
    assert!(!s.flags.translate);
}

#[test]
fn other_skills() {
    let c = config(&[]);
    let mut s = session();
    let mut b = choice("compressor");
    b.action = "toggle".to_string();
    match apply(&mut s, &c, true, &b) {
        Action::Relay { action, russian } => {
            assert!(action == RelayAction::Toggle);
            assert!(russian);
        }
        _ => panic!("not the relay"),
    }
    let mut b = choice("answer");
    assert_eq!(reply(apply(&mut s, &c, true, &b)), (CTRL_NONE, None));
    b.say = "Hi".to_string();
    assert_eq!(reply(apply(&mut s, &c, true, &b)), words(CTRL_NONE, "Hi"));
    let p = Persona::from_byte(0, &c);
    let a = skills_decide(&mut s, &c, &p, &listen("громче"), 50, "{\"skill\":\"volume\"}");
    assert_eq!(reply(a), words(50, "Volume 50."));
    let a = skills_decide(&mut s, &c, &p, &listen("hi"), 50, "Just **text**");
    assert_eq!(reply(a), words(CTRL_NONE, "Just text"));
}

#[test]
fn the_agent_asks_before_it_acts() {
    let mut s = session();
    assert!(matches!(windows_brain(&mut s, true, &listen("open notepad")), Step::Ask));
    let raw = "{\"action\":true,\"say\":\"Открою блокнот.\",\"cmd\":\"notepad\"}";
    let r = windows_answer(&mut s, true, raw);
    assert_eq!(said(r), (CTRL_NONE, "Открою блокнот. Сказать да или нет?".to_string()));
    assert_eq!(s.pending, Some("notepad".to_string()));
    assert_eq!(step_reply(windows_brain(&mut s, true, &listen(" "))), (CTRL_NONE, None));
    assert!(s.pending.is_some());
    match windows_brain(&mut s, true, &listen("Да, давай")) {
        Step::Run { cmd, russian } => {
            assert_eq!(cmd, "notepad");
            assert!(russian);
        }
        _ => panic!("not run"),
    }
    assert!(s.pending.is_none());
    assert!(matches!(windows_brain(&mut s, true, &listen("yes")), Step::Ask));
    assert_eq!(said(command_reply(true, true)).1, "Готово.");
    assert_eq!(said(command_reply(true, false)).1, "Не получилось.");
    assert_eq!(said(command_reply(false, true)).1, "Done.");
    assert_eq!(said(command_reply(false, false)).1, "That didn't work.");
}

#[test]
fn proposals_can_be_declined() {
    let mut s = session();
    s.pending = Some("x".to_string());
    let r = step_reply(windows_brain(&mut s, true, &listen("no")));
    assert_eq!(r, words(CTRL_NONE, "Okay, cancelled."));
    assert!(s.pending.is_none());
    s.pending = Some("x".to_string());
    let r = step_reply(windows_brain(&mut s, true, &listen("volume 30")));
    assert_eq!(r, words(30, "Volume set to 30."));
    assert!(s.pending.is_none());
    s.pending = Some("x".to_string());
    assert!(matches!(windows_brain(&mut s, false, &listen("yes")), Step::Ask));
    assert!(s.pending.is_some());
}

#[test]
fn the_local_assistant_speaks() {
    let mut s = session();
    let r = windows_speak(&mut s, true, "raw *text*", None);
    assert_eq!(said(r).1, "raw text");
    let d = Decision { action: true, say: String::new(), cmd: None };
    assert_eq!(said(windows_speak(&mut s, true, "raw", Some(d))).1, "raw");
    let d = Decision { action: true, say: "Go?".to_string(), cmd: Some("c".to_string()) };
    assert_eq!(said(windows_speak(&mut s, true, "raw", Some(d))).1, "Go? Say yes or no.");
    let d = Decision { action: false, say: "Hi".to_string(), cmd: Some("c".to_string()) };
    assert_eq!(said(windows_speak(&mut s, true, "raw", Some(d))).1, "Hi");
    let mut s = session();
    let raw = "{\"action\":true,\"say\":\"a\",\"cmd\":\"c\"}";
    assert_eq!(said(windows_answer(&mut s, false, raw)).1, raw);
    assert!(s.pending.is_none());
    assert!(windows_answer(&mut s, false, " # ").words.is_none());
    assert!(windows_prompt(true, "x").starts_with("You are a voice assistant"));
    assert!(windows_prompt(false, "x").starts_with("Current time is"));
}

#[test]
fn plain_chat() {
    assert_eq!(step_reply(openai_brain(&listen(""))), (CTRL_NONE, None));
    assert_eq!(step_reply(openai_brain(&listen("громкость сорок"))), words(40, "Volume set to 40."));
    assert_eq!(step_reply(openai_brain(&listen("speaker mode"))), words(CTRL_SPEAKER, "Speaker mode on."));
    assert_eq!(
        step_reply(openai_brain(&listen("режим колонки"))),
        words(CTRL_SPEAKER, "Включаю режим колонки.")
    );
    assert!(matches!(openai_brain(&listen("hello")), Step::Ask));
    assert_eq!(said(openai_answer("[x](y)")), (CTRL_NONE, "x".to_string()));
}

#[test]
fn transcription_starts_in_any_mode() {
    let c = config(&[]);
    let mut s = session();
    s.flags.chat = true;
    s.flags.coding = true;
    assert_eq!(reply(route(&mut s, &c, "Стенограмма")).0, CTRL_STREAM_EXTERNAL);
    assert!(s.flags.chat);
    assert!(s.flags.coding);
}
