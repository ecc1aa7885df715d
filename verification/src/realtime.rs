//! Streaming transcription: the messages to the service, and the events that it sends.

use vstd::prelude::*;
use base64::Engine as _;
use crate::audio::{
    resample, resampled, resampled_len, sample_bytes, samples, DEVICE_RATE, TTS_RATE,
};
use crate::dictation::{
    deliver_transcript, delivered_text, ends_with_enter, fresh_phrase_is_pasted_as_it_is,
    phrase_is_copied_whole, Delivery, DeliveryView, Dictation, Method, Separator,
};
use crate::json::{
    field, field_text, json_parse, json_text, json_view, number, read_json, text, to_text, Json,
    MAX_DEPTH,
};
use crate::requests::{pair, quad, single, triple};
use crate::speech::{has_foreign_script, holds_foreign, is_meaningful_transcript, meaningful};
use crate::text::{ends_with, occurs_at, same, texts, trim, trim_is_idempotent, trimmed};

verus! {

// ---------------------------------------------------------------- messages

/// The character of the standard Base64 alphabet for a six-bit number.
pub open spec fn base64_char(v: int) -> char {
    if v < 26 {
        ('A' as u32 + v) as char
    } else if v < 52 {
        ('a' as u32 + (v - 26)) as char
    } else if v < 62 {
        ('0' as u32 + (v - 52)) as char
    } else if v == 62 {
        '+'
    } else {
        '/'
    }
}

/// The three bytes of group `g` as one number, with zeros behind the end.
pub open spec fn base64_group(b: Seq<u8>, g: int) -> int {
    let at = |i: int|
        if i < b.len() {
            b[i] as int
        } else {
            0
        };
    0x1_0000 * at(3 * g) + 0x100 * at(3 * g + 1) + at(3 * g + 2)
}

/// Standard Base64 with padding: four characters of six bits each for every three bytes begun,
/// and `=` where no byte is left to write.
pub open spec fn base64_standard(b: Seq<u8>) -> Seq<char> {
    Seq::new(
        ((b.len() + 2) / 3 * 4) as nat,
        |i: int|
            {
                let bits = base64_group(b, i / 4);
                if 3 * (i / 4) + i % 4 > b.len() {
                    '='
                } else if i % 4 == 0 {
                    base64_char(bits / 0x4_0000)
                } else if i % 4 == 1 {
                    base64_char(bits / 0x1000 % 64)
                } else if i % 4 == 2 {
                    base64_char(bits / 64 % 64)
                } else {
                    base64_char(bits % 64)
                }
            },
    )
}

/// `base64::engine::general_purpose::STANDARD.encode` writes bytes in the standard Base64
/// alphabet, with padding. The call panics where so many characters do not fit in memory.
#[verifier::external_body]
fn encode_base64(b: &[u8]) -> (r: String)
    requires
        (b@.len() + 2) / 3 * 4 <= isize::MAX,
    ensures
        r@ == base64_standard(b@),
{
    base64::engine::general_purpose::STANDARD.encode(b)
}

/// The six-bit number of a character of the alphabet; padding counts as zero.
pub open spec fn base64_value(c: char) -> int {
    if 'A' <= c <= 'Z' {
        c as u32 - 'A' as u32
    } else if 'a' <= c <= 'z' {
        c as u32 - 'a' as u32 + 26
    } else if '0' <= c <= '9' {
        c as u32 - '0' as u32 + 52
    } else if c == '+' {
        62
    } else if c == '/' {
        63
    } else {
        0
    }
}

/// Byte `i` of what the text `t` encodes.
pub open spec fn base64_byte(t: Seq<char>, i: int) -> int {
    let g = 4 * (i / 3);
    let bits = 0x4_0000 * base64_value(t[g]) + 0x1000 * base64_value(t[g + 1]) + 64 * base64_value(
        t[g + 2],
    ) + base64_value(t[g + 3]);
    if i % 3 == 0 {
        bits / 0x1_0000
    } else if i % 3 == 1 {
        bits / 0x100 % 0x100
    } else {
        bits % 0x100
    }
}

proof fn base64_char_reads_back(v: int)
    requires
        0 <= v < 64,
    ensures
        base64_value(base64_char(v)) == v,
{
}

/// Six-bit numbers, put together again.
proof fn regrouped(bits: int)
    requires
        0 <= bits < 0x100_0000,
    ensures
        0x4_0000 * (bits / 0x4_0000) + 0x1000 * (bits / 0x1000 % 64) + 64 * (bits / 64 % 64) + bits
            % 64 == bits,
        0 <= bits / 0x4_0000 < 64,
{
}

/// The bytes of a group, taken apart again.
proof fn group_bytes(x: int, y: int, z: int)
    requires
        0 <= x < 256,
        0 <= y < 256,
        0 <= z < 256,
    ensures
        ({
            let bits = 0x1_0000 * x + 0x100 * y + z;
            &&& 0 <= bits < 0x100_0000
            &&& bits / 0x1_0000 == x
            &&& bits / 0x100 % 0x100 == y
            &&& bits % 0x100 == z
            &&& y == 0 && z == 0 ==> bits / 64 % 64 == 0 && bits % 64 == 0
            &&& z == 0 ==> bits % 64 == 0
        }),
{
}

/// Every byte reads back from its encoding.
pub proof fn base64_reads_back(b: Seq<u8>, i: int)
    requires
        0 <= i < b.len(),
    ensures
        base64_byte(base64_standard(b), i) == b[i],
{
    let t = base64_standard(b);
    let g = i / 3;
    let n = b.len() as int;
    let bits = base64_group(b, g);
    let x = b[3 * g] as int;
    let y = if 3 * g + 1 < n {
        b[3 * g + 1] as int
    } else {
        0
    };
    let z = if 3 * g + 2 < n {
        b[3 * g + 2] as int
    } else {
        0
    };
    assert(bits == 0x1_0000 * x + 0x100 * y + z);
    group_bytes(x, y, z);
    regrouped(bits);
    base64_char_reads_back(bits / 0x4_0000);
    base64_char_reads_back(bits / 0x1000 % 64);
    base64_char_reads_back(bits / 64 % 64);
    base64_char_reads_back(bits % 64);
    assert(4 * g + 3 < t.len());
    assert(base64_value(t[4 * g]) == bits / 0x4_0000);
    assert(base64_value(t[4 * g + 1]) == bits / 0x1000 % 64);
    assert(base64_value(t[4 * g + 2]) == bits / 64 % 64);
    assert(base64_value(t[4 * g + 3]) == bits % 64);
}

/// The message that appends sound to the buffer of the service.
pub open spec fn append_body(audio: Seq<char>) -> Json {
    Json::Record(
        Map::empty().insert("type"@, Json::Text("input_audio_buffer.append"@)).insert(
            "audio"@,
            Json::Text(audio),
        ),
    )
}

/// The sound of the device at the rate of the service, as Base64.
pub open spec fn device_audio(pcm: Seq<u8>) -> Seq<char> {
    base64_standard(
        sample_bytes(resampled(samples(pcm), DEVICE_RATE as int, TTS_RATE as int)),
    )
}

/// The message for sound that is already encoded.
pub fn append_encoded(audio: String) -> (r: String)
    ensures
        r@ == json_text(append_body(audio@)),
        json_parse(r@) == Some(append_body(audio@)),
{
    let ghost a = audio@;
    proof {
        append_keys_differ();
    }
    let v: serde_json::Value = pair(
        "type",
        text("input_audio_buffer.append".to_owned()),
        "audio",
        text(audio),
    );
    assert(json_view(v) == append_body(a));
    assert(append_body(a).sturdy(MAX_DEPTH as nat)) by {
        reveal_with_fuel(Json::sturdy, 2);
    }
    to_text(&v)
}

/// The message for a chunk of the microphone: resampled, encoded, and framed as JSON. The
/// service reads back what was put in.
pub fn append_message(pcm: &[u8]) -> (r: String)
    requires
        (2 * resampled_len(
            samples(pcm@).len() as int,
            DEVICE_RATE as int,
            TTS_RATE as int,
        ) + 2) / 3 * 4 <= isize::MAX,
    ensures
        r@ == json_text(append_body(device_audio(pcm@))),
        json_parse(r@) == Some(append_body(device_audio(pcm@))),
{
    let pcm24: Vec<u8> = resample(pcm, DEVICE_RATE, TTS_RATE);
    assert(pcm24@ =~= sample_bytes(resampled(samples(pcm@), 16000, 24000)));
    append_encoded(encode_base64(pcm24.as_slice()))
}

/// The service finds the kind of the message and the sound in it.
pub proof fn append_body_reads_back(audio: Seq<char>)
    ensures
        append_body(audio).field("type"@) == Json::Text("input_audio_buffer.append"@),
        append_body(audio).field("audio"@) == Json::Text(audio),
{
    append_keys_differ();
}

proof fn append_keys_differ()
    ensures
        "type"@ != "audio"@,
{
    reveal_strlit("type");
    reveal_strlit("audio");
    assert("type"@.len() != "audio"@.len());
}

/// What the recognizer is told about the language.
pub const LANGUAGE_HINT: &'static str = "The audio is spoken in Russian or English only. In \
    Russian, use the letter ё where it belongs (её, ещё, всё, ёлка).";

/// The format of the sound: that of the service.
pub open spec fn format_body() -> Json {
    Json::Record(
        Map::empty().insert("type"@, Json::Text("audio/pcm"@)).insert(
            "rate"@,
            Json::Unsigned(TTS_RATE as u64),
        ),
    )
}

/// The model, and what it is told about the language.
pub open spec fn transcription_body(model: Seq<char>) -> Json {
    Json::Record(
        Map::empty().insert("model"@, Json::Text(model)).insert(
            "prompt"@,
            Json::Text(LANGUAGE_HINT@),
        ),
    )
}

/// How the service tells phrases apart: by the level of speech and the silence that ends it.
pub open spec fn turns_body(silence_ms: u64, threshold: Json) -> Json {
    Json::Record(
        Map::empty().insert("type"@, Json::Text("server_vad"@)).insert(
            "threshold"@,
            threshold,
        ).insert("prefix_padding_ms"@, Json::Unsigned(300)).insert(
            "silence_duration_ms"@,
            Json::Unsigned(silence_ms),
        ),
    )
}

/// The settings of the sound that comes in.
pub open spec fn input_body(model: Seq<char>, silence_ms: u64, threshold: Json) -> Json {
    Json::Record(
        Map::empty().insert("format"@, format_body()).insert(
            "transcription"@,
            transcription_body(model),
        ).insert("turn_detection"@, turns_body(silence_ms, threshold)),
    )
}

/// The message that sets up a session: sound at the rate of the service, the model, and the
/// silence that ends a phrase.
pub open spec fn setup_body(model: Seq<char>, silence_ms: u64, threshold: Json) -> Json {
    let audio = Json::Record(
        Map::empty().insert("input"@, input_body(model, silence_ms, threshold)),
    );
    let session = Json::Record(
        Map::empty().insert("type"@, Json::Text("transcription"@)).insert("audio"@, audio),
    );
    Json::Record(
        Map::empty().insert("type"@, Json::Text("session.update"@)).insert("session"@, session),
    )
}

/// The setup holds no float but the threshold, and is not deep.
proof fn setup_is_sturdy(model: Seq<char>, silence_ms: u64, threshold: Json)
    requires
        threshold.sturdy(90),
    ensures
        setup_body(model, silence_ms, threshold).sturdy(95),
{
    reveal_with_fuel(Json::sturdy, 2);
    assert(format_body().sturdy(91));
    assert(transcription_body(model).sturdy(91));
    assert(turns_body(silence_ms, threshold).sturdy(91));
    let input = input_body(model, silence_ms, threshold);
    assert(input.sturdy(92));
    let audio = Json::Record(Map::empty().insert("input"@, input));
    assert(audio.sturdy(93));
    let session = Json::Record(
        Map::empty().insert("type"@, Json::Text("transcription"@)).insert("audio"@, audio),
    );
    assert(session.sturdy(94));
}

/// The service finds the model, the rate of the sound and the silence that ends a phrase.
pub proof fn setup_body_reads_back(model: Seq<char>, silence_ms: u64, threshold: Json)
    ensures
        ({
            let input = setup_body(model, silence_ms, threshold).field("session"@).field(
                "audio"@,
            ).field("input"@);
            &&& setup_body(model, silence_ms, threshold).field("type"@) == Json::Text(
                "session.update"@,
            )
            &&& input.field("format"@).field("rate"@) == Json::Unsigned(TTS_RATE as u64)
            &&& input.field("transcription"@).field("model"@) == Json::Text(model)
            &&& input.field("transcription"@).field("prompt"@) == Json::Text(LANGUAGE_HINT@)
            &&& input.field("format"@).field("type"@) == Json::Text("audio/pcm"@)
            &&& input.field("format"@).field("rate"@) == Json::Unsigned(24_000)
            &&& setup_body(model, silence_ms, threshold).field("session"@).field("type"@)
                == Json::Text("transcription"@)
            &&& input.field("turn_detection"@).field("type"@) == Json::Text("server_vad"@)
            &&& input.field("turn_detection"@).field("prefix_padding_ms"@) == Json::Unsigned(300)
            &&& input.field("turn_detection"@).field("threshold"@) == threshold
            &&& input.field("turn_detection"@).field("silence_duration_ms"@) == Json::Unsigned(
                silence_ms,
            )
        }),
{
    setup_keys_differ();
}

proof fn setup_keys_differ()
    ensures
        "type"@ != "session"@,
        "type"@ != "audio"@,
        "type"@ != "rate"@,
        "model"@ != "prompt"@,
        "format"@ != "transcription"@,
        "format"@ != "turn_detection"@,
        "transcription"@ != "turn_detection"@,
        "type"@ != "threshold"@,
        "type"@ != "prefix_padding_ms"@,
        "type"@ != "silence_duration_ms"@,
        "threshold"@ != "prefix_padding_ms"@,
        "threshold"@ != "silence_duration_ms"@,
        "prefix_padding_ms"@ != "silence_duration_ms"@,
{
    reveal_strlit("type");
    reveal_strlit("session");
    reveal_strlit("audio");
    reveal_strlit("rate");
    reveal_strlit("model");
    reveal_strlit("prompt");
    reveal_strlit("format");
    reveal_strlit("transcription");
    reveal_strlit("turn_detection");
    reveal_strlit("threshold");
    reveal_strlit("prefix_padding_ms");
    reveal_strlit("silence_duration_ms");
    assert("type"@.len() == 4 && "session"@.len() == 7 && "audio"@.len() == 5);
    assert("type"@[0] != "rate"@[0] && "model"@.len() != "prompt"@.len());
    assert("format"@.len() == 6 && "transcription"@.len() == 13 && "turn_detection"@.len() == 14);
    assert("threshold"@.len() == 9 && "prefix_padding_ms"@.len() == 17
        && "silence_duration_ms"@.len() == 19);
}

/// The message that sets up a session. `threshold` is the level at which sound counts as
/// speech.
pub fn setup_message(model: &str, silence_ms: u64, threshold: serde_json::Value) -> (r: String)
    ensures
        r@ == json_text(setup_body(model@, silence_ms, json_view(threshold))),
        json_view(threshold).sturdy(90) ==> json_parse(r@) == Some(
            setup_body(model@, silence_ms, json_view(threshold)),
        ),
{
    let ghost tv = json_view(threshold);
    proof {
        setup_keys_differ();
    }
    let format: serde_json::Value = pair(
        "type",
        text("audio/pcm".to_owned()),
        "rate",
        number(TTS_RATE as u64),
    );
    let transcription: serde_json::Value = pair(
        "model",
        text(model.to_owned()),
        "prompt",
        text(LANGUAGE_HINT.to_owned()),
    );
    let turns: serde_json::Value = quad(
        "type",
        text("server_vad".to_owned()),
        "threshold",
        threshold,
        "prefix_padding_ms",
        number(300),
        "silence_duration_ms",
        number(silence_ms),
    );
    let input: serde_json::Value = triple(
        "format",
        format,
        "transcription",
        transcription,
        "turn_detection",
        turns,
    );
    let session: serde_json::Value = pair(
        "type",
        text("transcription".to_owned()),
        "audio",
        single("input", input),
    );
    let v: serde_json::Value = pair(
        "type",
        text("session.update".to_owned()),
        "session",
        session,
    );
    proof {
        if tv.sturdy(90) {
            setup_is_sturdy(model@, silence_ms, tv);
            json_view(v).sturdy_grows(95, MAX_DEPTH as nat);
        }
    }
    to_text(&v)
}

// ---------------------------------------------------------------- events

/// The kinds of events that matter, told by the ends of their names.
pub open spec fn is_delta(kind: Seq<char>) -> bool {
    occurs_at(kind, "transcription.delta"@, kind.len() - "transcription.delta"@.len())
}

pub open spec fn is_completed(kind: Seq<char>) -> bool {
    occurs_at(kind, "transcription.completed"@, kind.len() - "transcription.completed"@.len())
}

/// What an event does: what to print, which lines to log, and where a finished phrase goes.
pub struct Shown {
    pub print: String,
    pub logs: Vec<String>,
    pub delivery: Option<Delivery>,
}

/// The value of a `Shown`.
#[verifier::ext_equal]
pub struct ShownView {
    pub print: Seq<char>,
    pub logs: Seq<Seq<char>>,
    pub delivery: Option<DeliveryView>,
}

impl View for Shown {
    type V = ShownView;

    open spec fn view(&self) -> ShownView {
        ShownView {
            print: self.print@,
            logs: texts(self.logs@),
            delivery: match self.delivery {
                Some(d) => Some(d@),
                None => None,
            },
        }
    }
}

/// What is printed when a phrase is complete: only the line end where the live text `seg`
/// already showed the phrase, and else the phrase on a line of its own.
pub open spec fn completed_print(seg: Seq<char>, full: Seq<char>) -> Seq<char> {
    if full.len() > 0 && trim(seg) == full {
        "\n"@
    } else {
        (if trim(seg).len() > 0 {
            "\n"@
        } else {
            ""@
        }) + (if full.len() > 0 {
            full + "\n"@
        } else {
            ""@
        })
    }
}

/// What an event does: the live text and the dictation state after it, and what is shown.
pub open spec fn event_step(
    j: Json,
    seg: Seq<char>,
    d: Dictation,
    debug: bool,
) -> (Seq<char>, Dictation, ShownView) {
    let kind = j.field("type"@).text_or_empty();
    let noted = if debug && !is_delta(kind) {
        seq!["[rt] "@ + kind]
    } else {
        Seq::empty()
    };
    let nothing = ShownView { print: Seq::empty(), logs: noted, delivery: None };
    if is_delta(kind) {
        match j.field("delta"@).text() {
            Some(t) => if holds_foreign(t) {
                (seg, d, nothing)
            } else {
                (seg + t, d, ShownView { print: t, ..nothing })
            },
            None => (seg, d, nothing),
        }
    } else if is_completed(kind) {
        let full = trim(j.field("transcript"@).text_or_empty());
        if holds_foreign(full) {
            (Seq::empty(), d, nothing)
        } else if meaningful(full) {
            let (after, delivery) = delivered_text(d, full);
            (
                Seq::empty(),
                after,
                ShownView {
                    print: completed_print(seg, full),
                    delivery: Some(delivery),
                    ..nothing
                },
            )
        } else {
            (Seq::empty(), d, ShownView { print: completed_print(seg, full), ..nothing })
        }
    } else if kind == "error"@ {
        (
            seg,
            d,
            ShownView {
                logs: noted.push("[stream] Realtime error: "@ + json_text(j.field("error"@))),
                ..nothing
            },
        )
    } else {
        (seg, d, nothing)
    }
}

/// Takes an event that was read as JSON.
pub fn take_realtime_event(
    v: &serde_json::Value,
    seg: &mut String,
    d: &mut Dictation,
    debug: bool,
) -> (r: Shown)
    ensures
        (final(seg)@, *final(d), r@) == event_step(json_view(*v), old(seg)@, *old(d), debug),
{
    let kind: String = field_text(v, "type");
    let delta: bool = ends_with(kind.as_str(), "transcription.delta");
    let mut out: Shown = Shown { print: String::new(), logs: Vec::new(), delivery: None };
    if debug && !delta {
        let mut l: String = "[rt] ".to_owned();
        l.append(kind.as_str());
        out.logs.push(l);
        assert(texts(out.logs@) =~= seq!["[rt] "@ + kind@]);
    } else {
        assert(texts(out.logs@) =~= Seq::empty());
    }
    let ghost noted = texts(out.logs@);
    if delta {
        if let Some(t) = field(v, "delta").as_str() {
            if has_foreign_script(t) {
                return out;
            }
            out.print = t.to_owned();
            seg.append(t);
        }
    } else if ends_with(kind.as_str(), "transcription.completed") {
        let full: String = trimmed(field_text(v, "transcript").as_str());
        let shown: String = trimmed(seg.as_str());
        *seg = String::new();
        if has_foreign_script(full.as_str()) {
            return out;
        }
        let empty: bool = full.as_str().is_empty();
        if !empty && same(shown.as_str(), full.as_str()) {
            out.print = "\n".to_owned();
        } else {
            if shown.as_str().is_empty() {
                out.print = "".to_owned();
            } else {
                out.print = "\n".to_owned();
            }
            if empty {
                out.print.append("");
            } else {
                let mut line: String = full.clone();
                line.append("\n");
                out.print.append(line.as_str());
            }
        }
        if is_meaningful_transcript(full.as_str()) {
            out.delivery = Some(deliver_transcript(d, full.as_str()));
        }
    } else if same(kind.as_str(), "error") {
        let mut l: String = "[stream] Realtime error: ".to_owned();
        l.append(to_text(field(v, "error")).as_str());
        let ghost lv = l@;
        out.logs.push(l);
        assert(texts(out.logs@) =~= noted.push(lv));
    }
    out
}

/// What a message does: the event that it holds, and nothing where it is not JSON.
pub open spec fn message_step(
    message: Seq<char>,
    seg: Seq<char>,
    d: Dictation,
    debug: bool,
) -> (Seq<char>, Dictation, ShownView) {
    match json_parse(message) {
        Some(j) => event_step(j, seg, d, debug),
        None => (seg, d, ShownView { print: Seq::empty(), logs: Seq::empty(), delivery: None }),
    }
}

/// Takes a message of the service: the live text of a phrase is printed as it comes, and a
/// finished phrase is delivered. A message that is not JSON does nothing.
pub fn handle_realtime_event(
    message: &str,
    seg: &mut String,
    d: &mut Dictation,
    debug: bool,
) -> (r: Shown)
    ensures
        (final(seg)@, *final(d), r@) == (match json_parse(message@) {
            Some(j) => event_step(j, old(seg)@, *old(d), debug),
            None => (
                old(seg)@,
                *old(d),
                ShownView { print: Seq::empty(), logs: Seq::empty(), delivery: None },
            ),
        }),
        (final(seg)@, *final(d), r@) == message_step(message@, old(seg)@, *old(d), debug),
{
    match read_json(message) {
        Some(v) => take_realtime_event(&v, seg, d, debug),
        None => {
            let out: Shown = Shown { print: String::new(), logs: Vec::new(), delivery: None };
            assert(texts(out.logs@) =~= Seq::empty());
            out
        },
    }
}

/// A finished phrase is never lost: whatever the live text showed, the phrase stands on the
/// screen once the event is handled, either as the live text or in what is printed.
pub proof fn finished_phrase_is_shown(seg: Seq<char>, full: Seq<char>)
    requires
        full.len() > 0,
    ensures
        trim(seg) == full || crate::text::occurs(completed_print(seg, full), full),
{
    if trim(seg) != full {
        let p = completed_print(seg, full);
        let start = if trim(seg).len() > 0 {
            "\n"@
        } else {
            ""@
        };
        assert(p =~= start + (full + "\n"@));
        assert(p.subrange(start.len() as int, (start.len() + full.len()) as int) =~= full);
        assert(occurs_at(p, full, start.len() as int));
    }
}

/// The live text is empty once a phrase is complete, so no phrase leaks into the next one.
pub proof fn completed_clears_live_text(j: Json, seg: Seq<char>, d: Dictation, debug: bool)
    requires
        is_completed(j.field("type"@).text_or_empty()),
    ensures
        event_step(j, seg, d, debug).0 == Seq::<char>::empty(),
{
    let kind = j.field("type"@).text_or_empty();
    if is_delta(kind) {
        reveal_strlit("transcription.delta");
        reveal_strlit("transcription.completed");
        let a = kind.subrange(kind.len() - 19, kind.len() as int);
        let b = kind.subrange(kind.len() - 23, kind.len() as int);
        assert(a == "transcription.delta"@);
        assert(b == "transcription.completed"@);
        assert(a[18] == kind[kind.len() - 1]);
        assert(b[22] == kind[kind.len() - 1]);
    }
}

/// The events of a transcription are told by the ends of their names, and no event is of two
/// kinds.
pub proof fn event_names_tell_the_kind(a: Seq<char>)
    ensures
        is_completed(a + "transcription.completed"@) && !is_delta(a + "transcription.completed"@),
        is_delta(a + "transcription.delta"@) && !is_completed(a + "transcription.delta"@),
        is_completed("conversation.item.input_audio_transcription.completed"@),
        is_delta("conversation.item.input_audio_transcription.delta"@),
        !is_completed("error"@) && !is_delta("error"@),
{
    reveal_strlit("transcription.completed");
    reveal_strlit("transcription.delta");
    reveal_strlit("error");
    let c = a + "transcription.completed"@;
    let d = a + "transcription.delta"@;
    assert(c.subrange(c.len() - 23, c.len() as int) =~= "transcription.completed"@);
    assert(d.subrange(d.len() - 19, d.len() as int) =~= "transcription.delta"@);
    assert(c[c.len() - 1] == 'd' && d[d.len() - 1] == 'a');
    if is_delta(c) {
        assert(c.subrange(c.len() - 19, c.len() as int)[18] == c[c.len() - 1]);
    }
    if is_completed(d) {
        assert(d.subrange(d.len() - 23, d.len() as int)[22] == d[d.len() - 1]);
    }
    real_event_names();
}

proof fn real_event_names()
    ensures
        is_completed("conversation.item.input_audio_transcription.completed"@),
        is_delta("conversation.item.input_audio_transcription.delta"@),
{
    reveal_strlit("transcription.completed");
    reveal_strlit("transcription.delta");
    reveal_strlit("conversation.item.input_audio_transcription.completed");
    reveal_strlit("conversation.item.input_audio_transcription.delta");
    let c = "conversation.item.input_audio_transcription.completed"@;
    let d = "conversation.item.input_audio_transcription.delta"@;
    assert(c.subrange(c.len() - 23, c.len() as int) =~= "transcription.completed"@);
    assert(d.subrange(d.len() - 19, d.len() as int) =~= "transcription.delta"@);
}

proof fn completed_is_no_delta(kind: Seq<char>)
    requires
        is_completed(kind),
    ensures
        !is_delta(kind),
{
    reveal_strlit("transcription.completed");
    reveal_strlit("transcription.delta");
    let n = kind.len() as int;
    assert(kind.subrange(n - 23, n)[22] == kind[n - 1]);
    if is_delta(kind) {
        assert(kind.subrange(n - 19, n)[18] == kind[n - 1]);
    }
}

/// The finished transcript is what counts: where a phrase is complete and worth keeping, that very
/// transcript is delivered, whatever the live text showed before. In a fresh session the focused
/// field gets the transcript itself.
pub proof fn finished_transcript_is_delivered(
    j: Json,
    t: Seq<char>,
    seg: Seq<char>,
    d: Dictation,
    debug: bool,
)
    requires
        is_completed(j.field("type"@).text_or_empty()),
        j.field("transcript"@) == Json::Text(t),
        meaningful(t),
    ensures
        ({
            let (live, after, shown) = event_step(j, seg, d, debug);
            &&& after == delivered_text(d, trim(t)).0
            &&& shown.delivery == Some(delivered_text(d, trim(t)).1)
            &&& d.typing && !d.started && d.method == Method::Paste && !ends_with_enter(t) && (
            d.separator == Separator::NewLine ==> trim(t).last() != '.') ==> shown.delivery
                == Some(DeliveryView::Paste { payload: trim(t) })
            &&& !d.typing && !ends_with_enter(t) && (d.separator == Separator::NewLine ==> trim(
                t,
            ).last() != '.') ==> shown.delivery == Some(DeliveryView::Copy { text: trim(t) })
        }),
{
    completed_is_no_delta(j.field("type"@).text_or_empty());
    trim_is_idempotent(t);
    if trim(t).len() > 0 && !ends_with_enter(t) && (d.separator == Separator::NewLine ==> trim(
        t,
    ).last() != '.') {
        if d.typing && !d.started && d.method == Method::Paste {
            fresh_phrase_is_pasted_as_it_is(d, trim(t));
        }
        if !d.typing {
            phrase_is_copied_whole(d, trim(t));
        }
    }
}

/// The live text has no say in what is delivered: two complete events with the same transcript, in
/// the same state of dictation, deliver the same and leave the same state behind.
pub proof fn live_text_is_not_delivered(
    j: Json,
    k: Json,
    seg: Seq<char>,
    other: Seq<char>,
    d: Dictation,
    debug: bool,
)
    requires
        is_completed(j.field("type"@).text_or_empty()),
        is_completed(k.field("type"@).text_or_empty()),
        j.field("transcript"@) == k.field("transcript"@),
    ensures
        event_step(j, seg, d, debug).2.delivery == event_step(k, other, d, debug).2.delivery,
        event_step(j, seg, d, debug).1 == event_step(k, other, d, debug).1,
{
    completed_is_no_delta(j.field("type"@).text_or_empty());
    completed_is_no_delta(k.field("type"@).text_or_empty());
}

/// A complete phrase that is not worth keeping delivers nothing and leaves the state of dictation
/// as it was, and so does every other event.
pub proof fn nothing_else_is_delivered(j: Json, seg: Seq<char>, d: Dictation, debug: bool)
    requires
        !is_completed(j.field("type"@).text_or_empty()) || !meaningful(
            j.field("transcript"@).text_or_empty(),
        ),
    ensures
        event_step(j, seg, d, debug).2.delivery is None,
        event_step(j, seg, d, debug).1 == d,
{
    trim_is_idempotent(j.field("transcript"@).text_or_empty());
}

/// A piece of live text is shown and remembered as it comes, behind what came before, except where
/// it is of a foreign script.
pub proof fn live_text_is_shown(j: Json, t: Seq<char>, seg: Seq<char>, d: Dictation, debug: bool)
    requires
        is_delta(j.field("type"@).text_or_empty()),
        j.field("delta"@) == Json::Text(t),
    ensures
        !holds_foreign(t) ==> event_step(j, seg, d, debug) == (
            seg + t,
            d,
            ShownView { print: t, logs: Seq::empty(), delivery: None },
        ),
        holds_foreign(t) ==> event_step(j, seg, d, debug) == (
            seg,
            d,
            ShownView { print: Seq::empty(), logs: Seq::empty(), delivery: None },
        ),
{
}

/// An event that is neither live text nor a complete phrase shows nothing and keeps the live text.
/// An error of the service is logged with what it says; other lines are logged only on request.
pub proof fn other_events_are_only_logged(j: Json, seg: Seq<char>, d: Dictation, debug: bool)
    requires
        !is_delta(j.field("type"@).text_or_empty()),
        !is_completed(j.field("type"@).text_or_empty()),
    ensures
        ({
            let kind = j.field("type"@).text_or_empty();
            let (live, after, shown) = event_step(j, seg, d, debug);
            let told = "[stream] Realtime error: "@ + json_text(j.field("error"@));
            &&& live == seg && shown.print == Seq::<char>::empty()
            &&& kind == "error"@ ==> shown.logs.len() > 0 && shown.logs.last() == told
            &&& debug ==> shown.logs.len() > 0 && shown.logs[0] == "[rt] "@ + kind
            &&& !debug && kind != "error"@ ==> shown.logs.len() == 0
        }),
{
}

/// A complete phrase ends the line of the live text where that showed it; else it is printed, on a
/// line of its own behind the live text. Nothing is printed twice.
pub proof fn phrase_is_printed_once(seg: Seq<char>, full: Seq<char>)
    requires
        full.len() > 0,
    ensures
        trim(seg) == full ==> completed_print(seg, full) == "\n"@,
        trim(seg) != full && trim(seg).len() > 0 ==> completed_print(seg, full) == "\n"@ + full
            + "\n"@,
        trim(seg).len() == 0 ==> completed_print(seg, full) == full + "\n"@,
{
    reveal_strlit("");
    assert(""@ + (full + "\n"@) =~= full + "\n"@);
    assert("\n"@ + (full + "\n"@) =~= "\n"@ + full + "\n"@);
}

/// The service gets the sound of the device at its own rate: every byte that the message encodes is
/// one of the sound, resampled from 16,000 to 24,000 hertz.
pub proof fn sound_is_sent_at_the_rate_of_the_service(pcm: Seq<u8>, i: int)
    requires
        0 <= i < sample_bytes(resampled(samples(pcm), 16_000, 24_000)).len(),
    ensures
        base64_byte(device_audio(pcm), i) == sample_bytes(
            resampled(samples(pcm), 16_000, 24_000),
        )[i],
{
    base64_reads_back(sample_bytes(resampled(samples(pcm), 16_000, 24_000)), i);
}

/// A message that reports a complete phrase delivers its transcript, whatever was shown before; a
/// message that is not JSON changes nothing and shows nothing.
pub proof fn finished_message_is_delivered(
    message: Seq<char>,
    j: Json,
    t: Seq<char>,
    seg: Seq<char>,
    d: Dictation,
    debug: bool,
)
    ensures
        json_parse(message) == Some(j) && is_completed(j.field("type"@).text_or_empty())
            && j.field("transcript"@) == Json::Text(t) && meaningful(t) ==> {
            let (live, after, shown) = message_step(message, seg, d, debug);
            &&& live == Seq::<char>::empty()
            &&& after == delivered_text(d, trim(t)).0
            &&& shown.delivery == Some(delivered_text(d, trim(t)).1)
        },
        json_parse(message) is None ==> {
            let (live, after, shown) = message_step(message, seg, d, debug);
            &&& live == seg && after == d && shown.delivery is None
            &&& shown.print == Seq::<char>::empty() && shown.logs == Seq::<Seq<char>>::empty()
        },
{
    if json_parse(message) == Some(j) && is_completed(j.field("type"@).text_or_empty()) && j.field(
        "transcript"@,
    ) == Json::Text(t) && meaningful(t) {
        finished_transcript_is_delivered(j, t, seg, d, debug);
        completed_clears_live_text(j, seg, d, debug);
    }
}

} // verus!
