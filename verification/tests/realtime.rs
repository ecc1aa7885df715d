use server_voice_s3r::dictation::{Delivery, Dictation, Method, Separator};
use server_voice_s3r::json::{field_text, read_json};
use server_voice_s3r::realtime::{
    append_encoded, append_message, handle_realtime_event, setup_message, take_realtime_event, Shown,
};

fn dictation() -> Dictation {
    Dictation { typing: true, separator: Separator::NewLine, method: Method::Paste, started: false }
}

fn event(message: &str, seg: &mut String, d: &mut Dictation) -> Shown {
    handle_realtime_event(message, seg, d, false)
}

#[test]
fn sound_is_appended() {
    // 0, 300, 600, 900 at 16 kHz are six samples at 24 kHz.
    let pcm: Vec<u8> = [0i16, 300, 600, 900].iter().flat_map(|v| v.to_le_bytes()).collect();
    let m = append_message(&pcm);
    let v = read_json(&m).unwrap();
    assert_eq!(field_text(&v, "type"), "input_audio_buffer.append");
    // 0, 200, 400, 600, 800, 900 as little-endian bytes in Base64.
    assert_eq!(field_text(&v, "audio"), "AADIAJABWAIgA4QD");
    // One sample stays one, which leaves two bytes in the last group; two become three.
    let one = read_json(&append_message(&[0, 0])).unwrap();
    assert_eq!(field_text(&one, "audio"), "AAA=");
    let two = read_json(&append_message(&[0, 0, 0x2c, 1])).unwrap();
    assert_eq!(field_text(&two, "audio"), "AADIACwB");
    let empty = read_json(&append_message(&[])).unwrap();
    assert_eq!(field_text(&empty, "audio"), "");
    assert_eq!(
        append_encoded("QQ==".to_string()),
        "{\"audio\":\"QQ==\",\"type\":\"input_audio_buffer.append\"}"
    );
}

#[test]
fn sessions_are_set_up() {
    let half = serde_json::Value::from(0.5);
    let v = read_json(&setup_message("model-x", 1500, half)).unwrap();
    assert_eq!(v["type"].as_str(), Some("session.update"));
    let input = &v["session"]["audio"]["input"];
    assert_eq!(v["session"]["type"].as_str(), Some("transcription"));
    assert_eq!(input["format"]["type"].as_str(), Some("audio/pcm"));
    assert_eq!(input["format"]["rate"].as_u64(), Some(24_000));
    assert_eq!(input["transcription"]["model"].as_str(), Some("model-x"));
    assert!(input["transcription"]["prompt"].as_str().unwrap().contains("letter ё where it belongs"));
    assert_eq!(input["turn_detection"]["type"].as_str(), Some("server_vad"));
    assert_eq!(input["turn_detection"]["threshold"].as_f64(), Some(0.5));
    assert_eq!(input["turn_detection"]["prefix_padding_ms"].as_u64(), Some(300));
    assert_eq!(input["turn_detection"]["silence_duration_ms"].as_u64(), Some(1500));
    let one = read_json(&setup_message("m", 7, serde_json::Value::from(1u64))).unwrap();
    let turns = &one["session"]["audio"]["input"]["turn_detection"];
    assert_eq!(turns["threshold"].as_u64(), Some(1));
    assert_eq!(turns["silence_duration_ms"].as_u64(), Some(7));
}

#[test]
fn live_text_is_printed_as_it_comes() {
    let mut seg = String::new();
    let mut d = dictation();
    let s = event("{\"type\":\"x.transcription.delta\",\"delta\":\"При\"}", &mut seg, &mut d);
    assert_eq!(s.print, "При");
    let s = event("{\"type\":\"x.transcription.delta\",\"delta\":\"вет\"}", &mut seg, &mut d);
    assert_eq!(s.print, "вет");
    assert_eq!(seg, "Привет");
    let s = event("{\"type\":\"x.transcription.delta\",\"delta\":\"世\"}", &mut seg, &mut d);
    assert_eq!(s.print, "");
    assert_eq!(seg, "Привет");
    let s = event("{\"type\":\"x.transcription.completed\",\"transcript\":\" Привет \"}", &mut seg, &mut d);
    assert_eq!(s.print, "\n");
    assert_eq!(seg, "");
    match s.delivery {
        Some(Delivery::Paste { payload }) => assert_eq!(payload, "Привет"),
        _ => panic!("not delivered"),
    }
    assert!(d.started);
}

#[test]
fn a_finished_phrase_is_never_lost() {
    let mut seg = String::from("Прив");
    let mut d = dictation();
    let s = event("{\"type\":\"transcription.completed\",\"transcript\":\"Привет\"}", &mut seg, &mut d);
    assert_eq!(s.print, "\nПривет\n");
    let s = event("{\"type\":\"transcription.completed\",\"transcript\":\"Ещё\"}", &mut seg, &mut d);
    assert_eq!(s.print, "Ещё\n");
    seg.push_str("live");
    let s = event("{\"type\":\"transcription.completed\"}", &mut seg, &mut d);
    assert_eq!(s.print, "\n");
    assert!(s.delivery.is_none());
    assert_eq!(seg, "");
}

#[test]
fn junk_phrases_are_not_delivered() {
    let mut seg = String::from("x");
    let mut d = dictation();
    let s = event("{\"type\":\"transcription.completed\",\"transcript\":\"감사합니다\"}", &mut seg, &mut d);
    assert_eq!(s.print, "");
    assert!(s.delivery.is_none());
    assert_eq!(seg, "");
    let s = event("{\"type\":\"transcription.completed\",\"transcript\":\"Thanks for watching\"}", &mut seg, &mut d);
    assert_eq!(s.print, "Thanks for watching\n");
    assert!(s.delivery.is_none());
    assert!(!d.started);
}

#[test]
fn errors_and_debugging_are_logged() {
    let mut seg = String::new();
    let mut d = dictation();
    let v = read_json("{\"type\":\"error\",\"error\":{\"code\":7}}").unwrap();
    let s = take_realtime_event(&v, &mut seg, &mut d, false);
    assert_eq!(s.logs, vec!["[stream] Realtime error: {\"code\":7}"]);
    let s = take_realtime_event(&v, &mut seg, &mut d, true);
    assert_eq!(s.logs, vec!["[rt] error", "[stream] Realtime error: {\"code\":7}"]);
    let v = read_json("{\"type\":\"transcription.delta\",\"delta\":\"a\"}").unwrap();
    assert!(take_realtime_event(&v, &mut seg, &mut d, true).logs.is_empty());
    let v = read_json("{\"type\":\"session.created\"}").unwrap();
    assert!(take_realtime_event(&v, &mut seg, &mut d, false).logs.is_empty());
    let s = handle_realtime_event("not json", &mut seg, &mut d, true);
    assert!(s.logs.is_empty());
    assert_eq!(seg, "a");
}
