use server_voice_s3r::dictation::{Dictation, Method, Separator};
use server_voice_s3r::protocol::{
    decode_header, frame, mode_of, Command, Mode, Reply, CTRL_NONE, CTRL_SPEAKER,
    CTRL_STREAM_EXTERNAL, CTRL_STREAM_LOCAL, CTRL_TRANSCRIBE,
};
use server_voice_s3r::session::{
    begin_turn, listen, skip_silence, transcribe_turn, Opening, Session,
};

fn session() -> Session {
    Session::new(Dictation {
        typing: true,
        separator: Separator::NewLine,
        method: Method::Paste,
        started: false,
    })
}

fn loud() -> Vec<u8> {
    (0..4000).flat_map(|_| 1000i16.to_le_bytes()).collect()
}

fn quiet() -> Vec<u8> {
    vec![0u8; 8000]
}

fn silent(r: &Reply, control: u8) -> bool {
    r.control == control && r.words.is_none()
}

#[test]
fn control_bytes() {
    assert_eq!(Command::Keep.byte(), 0xFF);
    assert_eq!(Command::Volume(100).byte(), 100);
    assert_eq!(Command::Speaker.byte(), 0xFE);
    assert_eq!(Command::VolumeAndSpeaker(0).byte(), 128);
    assert_eq!(Command::VolumeAndSpeaker(100).byte(), 228);
    assert_eq!(Command::KeepListening.byte(), 0xFD);
    assert_eq!(Command::StreamLocal.byte(), CTRL_STREAM_LOCAL);
    assert_eq!(Command::StreamExternal.byte(), CTRL_STREAM_EXTERNAL);
}

#[test]
fn headers() {
    let h = decode_header(0x81);
    assert!(h.exit);
    assert_eq!(h.persona, 1);
    let h = decode_header(0x7f);
    assert!(!h.exit);
    assert_eq!(h.persona, 127);
}

#[test]
fn frames() {
    assert_eq!(frame(CTRL_NONE, &[]), None);
    assert_eq!(frame(CTRL_NONE, &[1, 2]), Some(vec![0xFF, 1, 2]));
    assert_eq!(frame(50, &[]), Some(vec![50]));
    assert_eq!(frame(CTRL_SPEAKER, &[9]), Some(vec![0xFE, 9]));
}

#[test]
fn modes_by_name() {
    assert!(mode_of("loopback") == Mode::Loopback);
    assert!(mode_of("windows") == Mode::Windows);
    assert!(mode_of("openai") == Mode::OpenAi);
    assert!(mode_of("skills") == Mode::Skills);
    assert!(mode_of("Skills") == Mode::Unknown);
}

#[test]
fn the_button_leaves_every_mode() {
    let mut s = session();
    s.flags.chat = true;
    s.flags.coding = true;
    s.flags.translate = true;
    s.flags.hacker = true;
    s.flags.transcribe = true;
    s.flags.silence_streak = 9;
    s.flags.last_volume = 30;
    match begin_turn(&mut s, true, Mode::Skills, 100_000, 0, 60) {
        Opening::Close(r) => {
            assert_eq!(r.control, CTRL_NONE);
            assert_eq!(r.words, Some("Transcribe mode off.".to_string()));
        }
        _ => panic!("not closed"),
    }
    assert!(!(s.flags.chat || s.flags.coding || s.flags.translate || s.flags.hacker || s.flags.transcribe));
    assert_eq!(s.flags.silence_streak, 0);
    assert_eq!(s.flags.last_volume, 30);
}

#[test]
fn the_idle_timeout_leaves_transcribe_mode() {
    let mut s = session();
    s.flags.transcribe = true;
    assert!(matches!(begin_turn(&mut s, false, Mode::Skills, 9000, 59, 60), Opening::Transcribe));
    match begin_turn(&mut s, false, Mode::Skills, 0, 60, 60) {
        Opening::Close(r) => {
            assert_eq!(r.control, CTRL_NONE);
            assert_eq!(r.words, Some("Transcribe mode off.".to_string()));
        }
        _ => panic!("not closed"),
    }
    assert!(!s.flags.transcribe);
    s.flags.transcribe = true;
    match begin_turn(&mut s, false, Mode::OpenAi, 0, 60, 60) {
        Opening::Close(r) => assert!(silent(&r, CTRL_NONE)),
        _ => panic!("not closed"),
    }
}

#[test]
fn turns_go_by_the_mode() {
    let mut s = session();
    assert!(matches!(begin_turn(&mut s, false, Mode::Skills, 3999, 0, 60), Opening::TooShort));
    assert!(matches!(begin_turn(&mut s, false, Mode::Skills, 4000, 0, 60), Opening::Skills));
    assert!(matches!(begin_turn(&mut s, false, Mode::Loopback, 4000, 0, 60), Opening::Echo));
    assert!(matches!(begin_turn(&mut s, false, Mode::Windows, 4000, 0, 60), Opening::Windows));
    assert!(matches!(begin_turn(&mut s, false, Mode::OpenAi, 4000, 0, 60), Opening::OpenAi));
    assert!(matches!(begin_turn(&mut s, false, Mode::Unknown, 4000, 0, 60), Opening::UnknownMode));
}

#[test]
fn fifteen_silent_turns_end_a_mode() {
    let mut s = session();
    s.flags.hacker = true;
    for _ in 0..14 {
        assert!(silent(&skip_silence(&mut s, &quiet()).unwrap(), CTRL_TRANSCRIBE));
        assert!(s.flags.hacker);
    }
    assert!(silent(&skip_silence(&mut s, &quiet()).unwrap(), CTRL_NONE));
    assert!(!s.flags.hacker);
    assert_eq!(s.flags.silence_streak, 0);
    assert!(silent(&skip_silence(&mut s, &quiet()).unwrap(), CTRL_NONE));
}

#[test]
fn speech_resets_the_silent_turns() {
    let mut s = session();
    s.flags.chat = true;
    for _ in 0..14 {
        skip_silence(&mut s, &quiet());
    }
    assert!(skip_silence(&mut s, &loud()).is_none());
    assert_eq!(s.flags.silence_streak, 0);
    assert!(silent(&skip_silence(&mut s, &quiet()).unwrap(), CTRL_TRANSCRIBE));
    assert!(s.flags.chat);
}

#[test]
fn transcribe_turns_keep_listening() {
    let (text, r) = transcribe_turn(" Привет ");
    assert_eq!(text, Some("Привет".to_string()));
    assert!(silent(&r, CTRL_TRANSCRIBE));
    let (text, r) = transcribe_turn("  ");
    assert_eq!(text, None);
    assert!(silent(&r, CTRL_TRANSCRIBE));
}

#[test]
fn utterances_are_prepared() {
    let h = listen("  Громче! ");
    assert_eq!(h.text, "Громче!");
    assert_eq!(h.low, "громче!");
    assert_eq!(h.again, "громче!");
    assert!(h.worth);
    assert!(h.is_russian());
    assert!(!listen("...").worth);
    assert!(!listen("louder").is_russian());
}

#[test]
fn sessions_start_idle() {
    let s = session();
    assert_eq!(s.flags.last_volume, 75);
    assert_eq!(s.target, "");
    assert!(s.pending.is_none());
}

#[test]
fn only_transcribe_mode_ends_aloud() {
    for mode in [Mode::Skills, Mode::Windows, Mode::OpenAi, Mode::Loopback, Mode::Unknown] {
        let mut s = session();
        s.flags.chat = true;
        match begin_turn(&mut s, true, mode, 0, 0, 60) {
            Opening::Close(r) => assert!(silent(&r, CTRL_NONE)),
            _ => panic!("not closed"),
        }
        assert!(!s.flags.chat);
    }
    let mut s = session();
    s.flags.transcribe = true;
    match begin_turn(&mut s, true, Mode::Windows, 0, 0, 60) {
        Opening::Close(r) => assert!(silent(&r, CTRL_NONE)),
        _ => panic!("not closed"),
    }
    assert!(!s.flags.transcribe);
}
