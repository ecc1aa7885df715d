use server_voice_s3r::json::{field_text, read_json};
use server_voice_s3r::replies::{
    chat_reply, google_reply, json_str, local_whisper_reply, outer_object, parse_decision,
    parse_skill, read_choice, read_decision, read_outer, read_station, station_reply,
    whisper_reply, ServiceError,
};
use server_voice_s3r::requests::{chat_request, speech_request};

fn refused(r: Result<String, ServiceError>) -> String {
    match r {
        Err(ServiceError::Refused { message }) => message,
        _ => panic!("not refused"),
    }
}

fn not_json(r: Result<String, ServiceError>) -> bool {
    matches!(r, Err(ServiceError::NotJson))
}

fn ok(r: Result<String, ServiceError>) -> String {
    match r {
        Ok(t) => t,
        Err(_) => panic!("an error"),
    }
}

#[test]
fn the_outermost_object() {
    assert_eq!(outer_object("x {\"a\":{}} y"), Some("{\"a\":{}}".to_string()));
    assert_eq!(outer_object("} {"), None);
    assert_eq!(outer_object("{"), None);
    assert_eq!(outer_object("none"), None);
    assert!(read_outer("text {\"a\":1} more").is_some());
    assert!(read_outer("text {broken} more").is_none());
}

#[test]
fn json_is_read() {
    let v = read_json("{\"a\":\"b\",\"n\":1}").unwrap();
    assert_eq!(field_text(&v, "a"), "b");
    assert_eq!(field_text(&v, "n"), "");
    assert_eq!(field_text(&v, "missing"), "");
    assert!(read_json("{").is_none());
}

#[test]
fn decisions() {
    let d = parse_decision("ok: {\"action\":true,\"say\":\"Opening.\",\"cmd\":\"start x\"}").unwrap();
    assert!(d.action);
    assert_eq!(d.say, "Opening.");
    assert_eq!(d.cmd, Some("start x".to_string()));
    let d = parse_decision("{\"action\":\"yes\",\"cmd\":\"\"}").unwrap();
    assert!(!d.action);
    assert_eq!(d.say, "");
    assert_eq!(d.cmd, None);
    assert!(parse_decision("no json").is_none());
    assert!(parse_decision("{a}").is_none());
    let v = read_json("{\"action\":false,\"say\":\"hi\"}").unwrap();
    assert_eq!(read_decision(&v).say, "hi");
}

#[test]
fn skills() {
    let c = parse_skill("```json\n{\"skill\":\"volume\",\"level\":250,\"say\":\"ok\"}\n```").unwrap();
    assert_eq!(c.skill, "volume");
    assert_eq!(c.level, Some(100));
    assert_eq!(c.say, "ok");
    let c = parse_skill("{\"skill\":\"speaker\",\"level\":-3}").unwrap();
    assert_eq!(c.level, None);
    assert_eq!(c.say, "");
    let c = parse_skill("{\"skill\":\"speaker\",\"level\":40.5}").unwrap();
    assert_eq!(c.level, None);
    assert!(parse_skill("{\"say\":\"x\"}").is_none());
    assert!(parse_skill("plain").is_none());
    let v = read_json("{\"skill\":\"x\",\"level\":7}").unwrap();
    assert_eq!(read_choice(&v).unwrap().level, Some(7));
}

#[test]
fn single_fields() {
    let raw = "sure {\"query\":\"jazz\",\"url\":5}";
    assert_eq!(json_str(raw, "query"), "jazz");
    assert_eq!(json_str(raw, "url"), "");
    assert_eq!(json_str("", "query"), "");
}

#[test]
fn transcripts_of_services() {
    assert_eq!(ok(whisper_reply(true, "200 OK", "{\"text\":\" hi \"}")), " hi ");
    assert_eq!(ok(whisper_reply(true, "200 OK", "{}")), "");
    assert!(not_json(whisper_reply(true, "200 OK", "<html>")));
    assert_eq!(refused(whisper_reply(false, "401 Unauthorized", "no key")), "whisper 401 Unauthorized: no key");
    assert_eq!(ok(local_whisper_reply("{\"text\":\" hi \"}")), "hi");
    assert!(not_json(local_whisper_reply("oops")));
}

#[test]
fn answers_of_services() {
    let body = "{\"choices\":[{\"message\":{\"content\":\"Sunny.\"}},{}]}";
    assert_eq!(ok(chat_reply(true, "200 OK", body)), "Sunny.");
    assert_eq!(ok(chat_reply(true, "200 OK", "{\"choices\":[]}")), "");
    assert!(not_json(chat_reply(true, "200 OK", "")));
    assert_eq!(refused(chat_reply(false, "500", "x")), "chat 500: x");
    let body = "{\"data\":{\"translations\":[{\"translatedText\":\"hello\"}]}}";
    assert_eq!(ok(google_reply(true, "200 OK", body)), "hello");
    assert_eq!(ok(google_reply(true, "200 OK", "[]")), "");
    assert!(not_json(google_reply(true, "200 OK", "x")));
    assert_eq!(refused(google_reply(false, "403", "b")), "google translate 403: b");
}

#[test]
fn stations_of_the_directory() {
    let both = "[{\"url_resolved\":\"http://a\",\"url\":\"http://b\"}]";
    assert_eq!(station_reply(both), Some("http://a".to_string()));
    assert_eq!(station_reply("[{\"url\":\"https://b\"}]"), Some("https://b".to_string()));
    assert_eq!(station_reply("[{\"url_resolved\":\"\",\"url\":\"http://b\"}]"), None);
    assert_eq!(station_reply("[]"), None);
    assert_eq!(station_reply("{}"), None);
    assert_eq!(station_reply("x"), None);
    let v = read_json("[{\"url\":\"ftp://b\"}]").unwrap();
    assert_eq!(read_station(&v), None);
}

#[test]
fn chat_requests_carry_both_messages() {
    let v = chat_request("gpt", "be short", "привет");
    assert_eq!(
        v.to_string(),
        "{\"messages\":[{\"content\":\"be short\",\"role\":\"system\"},{\"content\":\"привет\",\"role\":\"user\"}],\"model\":\"gpt\"}"
    );
}

#[test]
fn speech_requests_carry_five_fields() {
    let v = speech_request("tts", "nova", "Привет", serde_json::Value::from(1.5));
    assert_eq!(
        v.to_string(),
        "{\"input\":\"Привет\",\"model\":\"tts\",\"response_format\":\"pcm\",\"speed\":1.5,\"voice\":\"nova\"}"
    );
}
