use server_voice_s3r::config::{
    config_with, debug_realtime, dictation_settings, dotenv_entries, env_or, load_config,
    load_dotenv, load_radio_favorites, method_setting, parse_line, separator_setting,
    type_focus_setting, Config, ConfigError, Environment,
};
use server_voice_s3r::dictation::{Method, Separator};
use server_voice_s3r::prompts::{Persona, JARVIS_CODING, SOPHIA_SKILLS};

fn env(vars: &[(&str, &str)]) -> Environment {
    Environment::new(vars.iter().map(|(k, v)| (k.to_string(), v.to_string())).collect())
}

fn entry(line: &str) -> (String, String) {
    parse_line(line).unwrap()
}

fn config(vars: &[(&str, &str)]) -> Config {
    match load_config(&env(vars), "/tmp/chat") {
        Ok(c) => c,
        Err(e) => panic!("{}", e.message()),
    }
}

#[test]
fn lines_of_a_settings_file() {
    assert_eq!(entry(" MODE = skills "), ("MODE".to_string(), "skills".to_string()));
    assert_eq!(entry("A=b=c").1, "b=c");
    assert_eq!(entry("A=x # comment").1, "x");
    assert_eq!(entry("A=x\t# c # d").1, "x");
    assert_eq!(entry("A=http://h/#part").1, "http://h/#part");
    assert_eq!(entry("A=\"q v\"").1, "q v");
    assert_eq!(entry("A='q' # c").1, "q");
    assert_eq!(entry("A=\"").1, "\"");
    assert_eq!(entry("A=\"x'").1, "\"x'");
    assert_eq!(entry("A=").1, "");
    assert_eq!(entry("A=#x").1, "#x");
    assert!(parse_line("# A=b").is_none());
    assert!(parse_line("").is_none());
    assert!(parse_line("no equals").is_none());
    assert!(parse_line("=x").is_none());
}

#[test]
fn settings_files() {
    let e = dotenv_entries("A=1\r\n#c\n\nB=2\nA=3");
    let want: Vec<(String, String)> = [("A", "1"), ("B", "2"), ("A", "3")]
        .iter()
        .map(|(k, v)| (k.to_string(), v.to_string()))
        .collect();
    assert_eq!(e, want);
}

#[test]
fn the_environment_overrides_the_file() {
    let mut e = env(&[("A", "real")]);
    load_dotenv(&mut e, "A=file\nB=first\nB=second");
    assert_eq!(e.get("A"), Some("real".to_string()));
    assert_eq!(e.get("B"), Some("first".to_string()));
    assert_eq!(e.get("C"), None);
    assert_eq!(env_or(&e, "C", "d"), "d");
    assert_eq!(env_or(&e, "A", "d"), "real");
}

#[test]
fn defaults() {
    let c = config(&[]);
    assert_eq!(c.mode, "windows");
    assert_eq!(c.api_key, "");
    assert_eq!(c.port, 9000);
    assert_eq!(c.chat_model, "gpt-4o-mini");
    assert_eq!(c.tts_model, "gpt-4o-mini-tts");
    assert_eq!(c.tts_voice_sophia, "nova");
    assert_eq!(c.tts_voice_jarvis, "onyx");
    assert_eq!(c.stt_model, "whisper-1");
    assert_eq!(c.stt_engine, "whisper");
    assert_eq!(c.stt_url, "http://127.0.0.1:9100/stt");
    assert_eq!(c.tts_speed, "1.3");
    assert!(c.agent);
    assert!(!c.debug_wav);
    assert_eq!(c.code_dir, "C:/Users/gravi/voice-code");
    assert_eq!(c.chat_dir, "/tmp/chat");
    assert_eq!(c.transcribe_timeout_secs, 60);
    assert_eq!(c.realtime_model, "gpt-4o-transcribe");
    assert_eq!(c.realtime_silence_ms, 1500);
    assert_eq!(c.google_translate_key, "");
    assert!(c.radio_favorites.is_empty());
    assert_eq!(c.compressor_host, "");
    assert_eq!(c.compressor_net, "192.168.3.");
}

#[test]
fn settings_are_read() {
    let c = config(&[
        ("MODE", "SKILLS"),
        ("OPENAI_API_KEY", "key"),
        ("PORT", "80"),
        ("STT_ENGINE", "SAPI"),
        ("AGENT", "0"),
        ("DEBUG_WAV", ""),
        ("CHAT_DIR", "/c"),
        ("TRANSCRIBE_TIMEOUT", "x"),
        ("REALTIME_SILENCE_MS", "200"),
        ("COMPRESSOR_HOST", " plc "),
        ("COMPRESSOR_NET", " "),
        ("RADIO_FAV_2", "B | http://b"),
        ("RADIO_FAV_1", "A"),
        ("RADIO_FAV_21", "C"),
    ]);
    assert_eq!(c.mode, "skills");
    assert_eq!(c.api_key, "key");
    assert_eq!(c.port, 80);
    assert_eq!(c.stt_engine, "sapi");
    assert!(!c.agent);
    assert!(c.debug_wav);
    assert_eq!(c.chat_dir, "/c");
    assert_eq!(c.transcribe_timeout_secs, 60);
    assert_eq!(c.realtime_silence_ms, 200);
    assert_eq!(c.compressor_host, "plc");
    assert_eq!(c.compressor_net, "");
    let names: Vec<&str> = c.radio_favorites.iter().map(|s| s.name.as_str()).collect();
    assert_eq!(names, vec!["A", "B"]);
    assert_eq!(config(&[("PORT", "70000")]).port, 9000);
}

#[test]
fn loopback_wins_over_the_mode() {
    assert_eq!(config(&[("LOOPBACK", "1"), ("MODE", "openai")]).mode, "loopback");
}

#[test]
fn a_missing_key_is_an_error() {
    match load_config(&env(&[("MODE", "OpenAI")]), "") {
        Err(e) => assert_eq!(e.message(), "MODE=openai needs OPENAI_API_KEY (for Whisper STT + TTS)"),
        Ok(_) => panic!("no error"),
    }
    match config_with(&env(&[]), "skills".to_string(), "whisper".to_string(), "") {
        Err(ConfigError::MissingKey { mode }) => assert_eq!(mode, "skills"),
        Ok(_) => panic!("no error"),
    }
}

#[test]
fn dictation_settings_from_the_environment() {
    let d = dictation_settings(&env(&[]));
    assert!(d.typing);
    assert!(d.separator == Separator::NewLine);
    assert!(d.method == Method::Paste);
    assert!(!d.started);
    let d = dictation_settings(&env(&[
        ("TYPE_INTO_FOCUS", " OFF "),
        ("TRANSCRIBE_SEP", "Пробел"),
        ("DICTATION_METHOD", "SendInput"),
    ]));
    assert!(!d.typing);
    assert!(d.separator == Separator::Space);
    assert!(d.method == Method::Keys);
    assert!(separator_setting("2") == Separator::Joined);
    assert!(separator_setting("line") == Separator::NewLine);
    assert!(method_setting("paste") == Method::Paste);
    assert!(!type_focus_setting("false"));
    assert!(type_focus_setting("yes"));
}

#[test]
fn realtime_debugging() {
    assert!(!debug_realtime(&env(&[])));
    for no in ["", "0", " False ", "NO", "off"] {
        assert!(!debug_realtime(&env(&[("REALTIME_DEBUG", no)])));
    }
    assert!(debug_realtime(&env(&[("REALTIME_DEBUG", "1")])));
}

#[test]
fn favorites_from_the_environment() {
    let f = load_radio_favorites(&env(&[("RADIO_FAV_20", "Z | u | a"), ("RADIO_FAV_3", " ")]));
    assert_eq!(f.len(), 1);
    assert_eq!(f[0].name, "Z");
}

#[test]
fn personas() {
    let c = config(&[("TTS_VOICE_JARVIS", "echo")]);
    let j = Persona::from_byte(1, &c);
    assert_eq!(j.name, "Jarvis");
    assert_eq!(j.voice, "echo");
    assert_eq!(j.coding_intro, JARVIS_CODING);
    for b in [0u8, 2, 127] {
        let s = Persona::from_byte(b, &c);
        assert_eq!(s.name, "Sophia");
        assert_eq!(s.voice, "nova");
        assert_eq!(s.skills_intro, SOPHIA_SKILLS);
    }
}
