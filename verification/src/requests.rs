//! Bodies of requests to web services.

use vstd::prelude::*;
use crate::json::{json_view, json_views, list, record, record_of, text, Json};

verus! {

/// A message of a chat: who speaks, and what.
pub open spec fn message_of(role: Seq<char>, content: Seq<char>) -> Json {
    Json::Record(
        Map::empty().insert("role"@, Json::Text(role)).insert("content"@, Json::Text(content)),
    )
}

/// The body of a request for a chat completion: the model, then the system prompt and the
/// user's words.
pub open spec fn chat_body(model: Seq<char>, system: Seq<char>, user: Seq<char>) -> Json {
    Json::Record(
        Map::empty().insert("model"@, Json::Text(model)).insert(
            "messages"@,
            Json::List(seq![message_of("system"@, system), message_of("user"@, user)]),
        ),
    )
}

/// A record of one field.
pub(crate) fn single(
    k1: &str,
    v1: serde_json::Value,
) -> (r: serde_json::Value)
    ensures
        json_view(r) == Json::Record(
            Map::empty().insert(k1@, json_view(v1)),
        ),
{
    let mut fields: Vec<(String, serde_json::Value)> = Vec::new();
    fields.push((k1.to_owned(), v1));
    proof {
        assert(fields@.drop_last() =~= Seq::empty());
        reveal_with_fuel(record_of, 2);
    }
    record(fields)
}

/// A record of two fields.
pub(crate) fn pair(
    k1: &str,
    v1: serde_json::Value,
    k2: &str,
    v2: serde_json::Value,
) -> (r: serde_json::Value)
    requires
        k1@ != k2@,
    ensures
        json_view(r) == Json::Record(
            Map::empty().insert(k1@, json_view(v1)).insert(k2@, json_view(v2)),
        ),
{
    let mut fields: Vec<(String, serde_json::Value)> = Vec::new();
    fields.push((k1.to_owned(), v1));
    let ghost upto1 = fields@;
    fields.push((k2.to_owned(), v2));
    proof {
        assert(fields@.drop_last() =~= upto1);
        assert(upto1.drop_last() =~= Seq::empty());
        reveal_with_fuel(record_of, 3);
    }
    record(fields)
}

/// A record of three fields.
pub(crate) fn triple(
    k1: &str,
    v1: serde_json::Value,
    k2: &str,
    v2: serde_json::Value,
    k3: &str,
    v3: serde_json::Value,
) -> (r: serde_json::Value)
    requires
        k1@ != k2@,
        k1@ != k3@,
        k2@ != k3@,
    ensures
        json_view(r) == Json::Record(
            Map::empty()
                .insert(k1@, json_view(v1))
                .insert(k2@, json_view(v2))
                .insert(k3@, json_view(v3)),
        ),
{
    let mut fields: Vec<(String, serde_json::Value)> = Vec::new();
    fields.push((k1.to_owned(), v1));
    let ghost upto1 = fields@;
    fields.push((k2.to_owned(), v2));
    let ghost upto2 = fields@;
    fields.push((k3.to_owned(), v3));
    proof {
        assert(fields@.drop_last() =~= upto2);
        assert(upto2.drop_last() =~= upto1);
        assert(upto1.drop_last() =~= Seq::empty());
        reveal_with_fuel(record_of, 4);
    }
    record(fields)
}

/// A record of four fields.
pub(crate) fn quad(
    k1: &str,
    v1: serde_json::Value,
    k2: &str,
    v2: serde_json::Value,
    k3: &str,
    v3: serde_json::Value,
    k4: &str,
    v4: serde_json::Value,
) -> (r: serde_json::Value)
    requires
        k1@ != k2@,
        k1@ != k3@,
        k1@ != k4@,
        k2@ != k3@,
        k2@ != k4@,
        k3@ != k4@,
    ensures
        json_view(r) == Json::Record(
            Map::empty()
                .insert(k1@, json_view(v1))
                .insert(k2@, json_view(v2))
                .insert(k3@, json_view(v3))
                .insert(k4@, json_view(v4)),
        ),
{
    let mut fields: Vec<(String, serde_json::Value)> = Vec::new();
    fields.push((k1.to_owned(), v1));
    let ghost upto1 = fields@;
    fields.push((k2.to_owned(), v2));
    let ghost upto2 = fields@;
    fields.push((k3.to_owned(), v3));
    let ghost upto3 = fields@;
    fields.push((k4.to_owned(), v4));
    proof {
        assert(fields@.drop_last() =~= upto3);
        assert(upto3.drop_last() =~= upto2);
        assert(upto2.drop_last() =~= upto1);
        assert(upto1.drop_last() =~= Seq::empty());
        reveal_with_fuel(record_of, 5);
    }
    record(fields)
}

/// A record of five fields.
pub(crate) fn quint(
    k1: &str,
    v1: serde_json::Value,
    k2: &str,
    v2: serde_json::Value,
    k3: &str,
    v3: serde_json::Value,
    k4: &str,
    v4: serde_json::Value,
    k5: &str,
    v5: serde_json::Value,
) -> (r: serde_json::Value)
    requires
        k1@ != k2@,
        k1@ != k3@,
        k1@ != k4@,
        k1@ != k5@,
        k2@ != k3@,
        k2@ != k4@,
        k2@ != k5@,
        k3@ != k4@,
        k3@ != k5@,
        k4@ != k5@,
    ensures
        json_view(r) == Json::Record(
            Map::empty()
                .insert(k1@, json_view(v1))
                .insert(k2@, json_view(v2))
                .insert(k3@, json_view(v3))
                .insert(k4@, json_view(v4))
                .insert(k5@, json_view(v5)),
        ),
{
    let mut fields: Vec<(String, serde_json::Value)> = Vec::new();
    fields.push((k1.to_owned(), v1));
    let ghost upto1 = fields@;
    fields.push((k2.to_owned(), v2));
    let ghost upto2 = fields@;
    fields.push((k3.to_owned(), v3));
    let ghost upto3 = fields@;
    fields.push((k4.to_owned(), v4));
    let ghost upto4 = fields@;
    fields.push((k5.to_owned(), v5));
    proof {
        assert(fields@.drop_last() =~= upto4);
        assert(upto4.drop_last() =~= upto3);
        assert(upto3.drop_last() =~= upto2);
        assert(upto2.drop_last() =~= upto1);
        assert(upto1.drop_last() =~= Seq::empty());
        reveal_with_fuel(record_of, 6);
    }
    record(fields)
}

proof fn chat_keys_differ()
    ensures
        "model"@ != "messages"@,
        "role"@ != "content"@,
{
    reveal_strlit("model");
    reveal_strlit("messages");
    reveal_strlit("role");
    reveal_strlit("content");
    assert("model"@.len() != "messages"@.len());
    assert("role"@.len() != "content"@.len());
}

/// The body of a request for a chat completion.
pub fn chat_request(model: &str, system: &str, user: &str) -> (r: serde_json::Value)
    ensures
        json_view(r) == chat_body(model@, system@, user@),
{
    proof {
        chat_keys_differ();
    }
    let mut messages: Vec<serde_json::Value> = Vec::new();
    messages.push(
        pair("role", text("system".to_owned()), "content", text(system.to_owned())),
    );
    messages.push(pair("role", text("user".to_owned()), "content", text(user.to_owned())));
    assert(json_views(messages@) =~= seq![
        message_of("system"@, system@),
        message_of("user"@, user@),
    ]);
    pair("model", text(model.to_owned()), "messages", list(messages))
}

/// The service finds the model, the system prompt first and the user's words second.
pub proof fn chat_body_reads_back(model: Seq<char>, system: Seq<char>, user: Seq<char>)
    ensures
        ({
            let body = chat_body(model, system, user);
            let messages = body.field("messages"@);
            &&& body.field("model"@) == Json::Text(model)
            &&& messages.item(0).field("role"@) == Json::Text("system"@)
            &&& messages.item(0).field("content"@) == Json::Text(system)
            &&& messages.item(1).field("role"@) == Json::Text("user"@)
            &&& messages.item(1).field("content"@) == Json::Text(user)
            &&& messages.item(2) == Json::Null
        }),
{
    chat_keys_differ();
}

/// The body of a request for speech: the model, the voice, the words, the format of the sound
/// and the speed.
pub open spec fn speech_body(
    model: Seq<char>,
    voice: Seq<char>,
    input: Seq<char>,
    speed: Json,
) -> Json {
    Json::Record(
        Map::empty().insert("model"@, Json::Text(model)).insert("voice"@, Json::Text(voice)).insert(
            "input"@,
            Json::Text(input),
        ).insert("response_format"@, Json::Text("pcm"@)).insert("speed"@, speed),
    )
}

proof fn speech_keys_differ()
    ensures
        "model"@ != "voice"@,
        "model"@ != "input"@,
        "model"@ != "response_format"@,
        "model"@ != "speed"@,
        "voice"@ != "input"@,
        "voice"@ != "response_format"@,
        "voice"@ != "speed"@,
        "input"@ != "response_format"@,
        "input"@ != "speed"@,
        "response_format"@ != "speed"@,
{
    reveal_strlit("model");
    reveal_strlit("voice");
    reveal_strlit("input");
    reveal_strlit("response_format");
    reveal_strlit("speed");
    assert("model"@[0] == 'm' && "voice"@[0] == 'v' && "input"@[0] == 'i' && "response_format"@[0]
        == 'r' && "speed"@[0] == 's');
}

/// The body of a request for speech. `speed` is the pace as a JSON number.
pub fn speech_request(model: &str, voice: &str, input: &str, speed: serde_json::Value) -> (r:
    serde_json::Value)
    ensures
        json_view(r) == speech_body(model@, voice@, input@, json_view(speed)),
{
    proof {
        speech_keys_differ();
    }
    quint(
        "model",
        text(model.to_owned()),
        "voice",
        text(voice.to_owned()),
        "input",
        text(input.to_owned()),
        "response_format",
        text("pcm".to_owned()),
        "speed",
        speed,
    )
}

/// The service finds the model, the voice, the words and the speed, and that the sound is to be
/// raw PCM.
pub proof fn speech_body_reads_back(
    model: Seq<char>,
    voice: Seq<char>,
    input: Seq<char>,
    speed: Json,
)
    ensures
        ({
            let body = speech_body(model, voice, input, speed);
            &&& body.field("model"@) == Json::Text(model)
            &&& body.field("voice"@) == Json::Text(voice)
            &&& body.field("input"@) == Json::Text(input)
            &&& body.field("response_format"@) == Json::Text("pcm"@)
            &&& body.field("speed"@) == speed
        }),
{
    speech_keys_differ();
}

} // verus!
