//! Reading what the language model and the web services answer.

use vstd::prelude::*;
use crate::json::{field, field_text, item, json_parse, json_view, json_views, read_json, Json};
use crate::text::{
    begins_with, char_from, char_rfind, chars_of, first_of, last_of, last_of_is_last, occurs_at,
    opt_text, trim, trimmed,
};

verus! {

// ---------------------------------------------------------------- the object in a reply

/// The part of `text` from its first opening brace to its last closing brace.
pub open spec fn outermost(text: Seq<char>) -> Option<Seq<char>> {
    match (first_of(text, '{'), last_of(text, '}')) {
        (Some(start), Some(end)) => if end <= start {
            None
        } else {
            Some(text.subrange(start, end + 1))
        },
        _ => None,
    }
}

/// The JSON value that stands in `text`, whatever surrounds it.
pub open spec fn outer_json(text: Seq<char>) -> Option<Json> {
    match outermost(text) {
        Some(t) => json_parse(t),
        None => None,
    }
}

/// The part of `text` from its first opening brace to its last closing brace.
pub fn outer_object(text: &str) -> (r: Option<String>)
    ensures
        opt_text(r) == outermost(text@),
{
    let v: Vec<char> = chars_of(text);
    assert(v@.skip(0) == v@);
    let start: usize = match char_from(v.as_slice(), '{', 0) {
        Some(i) => i,
        None => {
            return None;
        },
    };
    proof {
        last_of_is_last(text@, '}');
    }
    let end: usize = match char_rfind(v.as_slice(), '}') {
        Some(i) => i,
        None => {
            return None;
        },
    };
    let n: usize = v.len();
    if end <= start {
        return None;
    }
    assert(end < n);
    Some(text.substring_char(start, end + 1).to_owned())
}

/// Reads the JSON value that stands in `text`.
pub fn read_outer(text: &str) -> (r: Option<serde_json::Value>)
    ensures
        match r {
            Some(v) => outer_json(text@) == Some(json_view(v)),
            None => outer_json(text@) is None,
        },
{
    match outer_object(text) {
        Some(t) => read_json(t.as_str()),
        None => None,
    }
}

// ---------------------------------------------------------------- the agent's decision

/// What the agent decided: to do something on the computer, or to say something.
pub struct Decision {
    pub action: bool,
    pub say: String,
    pub cmd: Option<String>,
}

/// The value of a `Decision`.
#[verifier::ext_equal]
pub struct DecisionView {
    pub action: bool,
    pub say: Seq<char>,
    pub cmd: Option<Seq<char>>,
}

impl View for Decision {
    type V = DecisionView;

    open spec fn view(&self) -> DecisionView {
        DecisionView { action: self.action, say: self.say@, cmd: opt_text(self.cmd) }
    }
}

/// The decision that a JSON value states. An empty command is no command.
pub open spec fn decision_in(j: Json) -> DecisionView {
    DecisionView {
        action: j.field("action"@) == Json::Bool(true),
        say: j.field("say"@).text_or_empty(),
        cmd: match j.field("cmd"@).text() {
            Some(t) => if t.len() > 0 {
                Some(t)
            } else {
                None
            },
            None => None,
        },
    }
}

/// The decision in a reply of the agent; none where the reply holds no JSON object.
pub open spec fn decision_of(text: Seq<char>) -> Option<DecisionView> {
    match outer_json(text) {
        Some(j) => Some(decision_in(j)),
        None => None,
    }
}

/// Reads the decision that a JSON value states.
pub fn read_decision(v: &serde_json::Value) -> (d: Decision)
    ensures
        d@ == decision_in(json_view(*v)),
{
    let action: bool = match field(v, "action").as_bool() {
        Some(b) => b,
        None => false,
    };
    let say: String = field_text(v, "say");
    let cmd: Option<String> = match field(v, "cmd").as_str() {
        Some(t) => if t.is_empty() {
            None
        } else {
            Some(t.to_owned())
        },
        None => None,
    };
    Decision { action, say, cmd }
}

/// Parses the decision of the agent, tolerant of text around the JSON object.
pub fn parse_decision(text: &str) -> (r: Option<Decision>)
    ensures
        match r {
            Some(d) => decision_of(text@) == Some(d@),
            None => decision_of(text@) is None,
        },
{
    match read_outer(text) {
        Some(v) => Some(read_decision(&v)),
        None => None,
    }
}

// ---------------------------------------------------------------- the choice of a skill

/// The skill that the language model chose, with its level and the words to speak.
pub struct SkillChoice {
    pub skill: String,
    pub level: Option<u8>,
    pub say: String,
}

/// The value of a `SkillChoice`.
#[verifier::ext_equal]
pub struct SkillChoiceView {
    pub skill: Seq<char>,
    pub level: Option<u8>,
    pub say: Seq<char>,
}

impl View for SkillChoice {
    type V = SkillChoiceView;

    open spec fn view(&self) -> SkillChoiceView {
        SkillChoiceView { skill: self.skill@, level: self.level, say: self.say@ }
    }
}

/// The level that a JSON number gives, at most 100; none for any other value.
pub open spec fn level_in(j: Json) -> Option<u8> {
    match j {
        Json::Unsigned(n) => Some(if n <= 100 {
            n as u8
        } else {
            100u8
        }),
        _ => None,
    }
}

/// The choice that a JSON value states; none where it names no skill.
pub open spec fn choice_in(j: Json) -> Option<SkillChoiceView> {
    match j.field("skill"@).text() {
        Some(skill) => Some(
            SkillChoiceView {
                skill,
                level: level_in(j.field("level"@)),
                say: j.field("say"@).text_or_empty(),
            },
        ),
        None => None,
    }
}

/// The choice in a reply of the language model.
pub open spec fn choice_of(raw: Seq<char>) -> Option<SkillChoiceView> {
    match outer_json(raw) {
        Some(j) => choice_in(j),
        None => None,
    }
}

/// The value of an optional choice.
pub open spec fn choice_view(c: Option<SkillChoice>) -> Option<SkillChoiceView> {
    match c {
        Some(c) => Some(c@),
        None => None,
    }
}

/// Reads the choice that a JSON value states.
pub fn read_choice(v: &serde_json::Value) -> (r: Option<SkillChoice>)
    ensures
        choice_view(r) == choice_in(json_view(*v)),
{
    let skill: String = match field(v, "skill").as_str() {
        Some(t) => t.to_owned(),
        None => {
            return None;
        },
    };
    let level: Option<u8> = match field(v, "level").as_u64() {
        Some(n) => if n <= 100 {
            Some(n as u8)
        } else {
            Some(100)
        },
        None => None,
    };
    Some(SkillChoice { skill, level, say: field_text(v, "say") })
}

/// Parses the choice of a skill, tolerant of text around the JSON object.
pub fn parse_skill(raw: &str) -> (r: Option<SkillChoice>)
    ensures
        choice_view(r) == choice_of(raw@),
{
    match read_outer(raw) {
        Some(v) => read_choice(&v),
        None => None,
    }
}

/// A level that was read is never above 100.
pub proof fn chosen_level_in_range(raw: Seq<char>)
    ensures
        choice_of(raw) matches Some(c) ==> (c.level matches Some(v) ==> v <= 100),
{
}

/// The text of a field of the JSON object in a reply, or the empty text.
pub open spec fn reply_field(raw: Seq<char>, key: Seq<char>) -> Seq<char> {
    match outer_json(raw) {
        Some(j) => j.field(key).text_or_empty(),
        None => Seq::empty(),
    }
}

/// Extracts a text field from a reply, tolerant of text around the JSON object.
pub fn json_str(raw: &str, key: &str) -> (r: String)
    ensures
        r@ == reply_field(raw@, key@),
{
    match read_outer(raw) {
        Some(v) => field_text(&v, key),
        None => String::new(),
    }
}

// ---------------------------------------------------------------- bodies of web services

/// Why a service gave nothing usable.
#[verifier::ext_equal]
pub enum ServiceError {
    /// The service answered with a status other than success.
    Refused { message: String },
    /// The body is not JSON.
    NotJson,
}

/// `name`, the status and the body of a refusal, in one line.
pub open spec fn refusal(name: Seq<char>, status: Seq<char>, body: Seq<char>) -> Seq<char> {
    name + " "@ + status + ": "@ + body
}

/// What a service answered: a text that is found in its body, or why there is none.
pub open spec fn answered(
    r: Result<String, ServiceError>,
    success: bool,
    message: Seq<char>,
    body: Option<Json>,
    found: spec_fn(Json) -> Seq<char>,
) -> bool {
    match r {
        Ok(t) => success && (body matches Some(j) && t@ == found(j)),
        Err(ServiceError::Refused { message: m }) => !success && m@ == message,
        Err(ServiceError::NotJson) => success && body is None,
    }
}

/// The message of a refusal.
pub fn refusal_message(name: &str, status: &str, body: &str) -> (r: String)
    ensures
        r@ == refusal(name@, status@, body@),
{
    let mut m: String = name.to_owned();
    m.append(" ");
    m.append(status);
    m.append(": ");
    m.append(body);
    m
}

/// Reads the body of a service that answered.
fn body_of(success: bool, name: &str, status: &str, body: &str) -> (r: Result<
    serde_json::Value,
    ServiceError,
>)
    ensures
        match r {
            Ok(v) => success && json_parse(body@) == Some(json_view(v)),
            Err(ServiceError::Refused { message }) => !success && message@ == refusal(
                name@,
                status@,
                body@,
            ),
            Err(ServiceError::NotJson) => success && json_parse(body@) is None,
        },
{
    if !success {
        return Err(ServiceError::Refused { message: refusal_message(name, status, body) });
    }
    match read_json(body) {
        Some(v) => Ok(v),
        None => Err(ServiceError::NotJson),
    }
}

/// The transcript in the body of a speech recognition service.
pub open spec fn transcript_in(j: Json) -> Seq<char> {
    j.field("text"@).text_or_empty()
}

/// Reads the transcript in a JSON value.
pub fn read_transcript(v: &serde_json::Value) -> (r: String)
    ensures
        r@ == transcript_in(json_view(*v)),
{
    field_text(v, "text")
}

/// The transcript that the recognition service of OpenAI answered.
pub fn whisper_reply(success: bool, status: &str, body: &str) -> (r: Result<String, ServiceError>)
    ensures
        answered(
            r,
            success,
            refusal("whisper"@, status@, body@),
            json_parse(body@),
            |j: Json| transcript_in(j),
        ),
{
    match body_of(success, "whisper", status, body) {
        Ok(v) => Ok(read_transcript(&v)),
        Err(e) => Err(e),
    }
}

/// The transcript that the local recognition service answered, whatever its status.
pub fn local_whisper_reply(body: &str) -> (r: Result<String, ServiceError>)
    ensures
        answered(
            r,
            true,
            Seq::empty(),
            json_parse(body@),
            |j: Json| trim(transcript_in(j)),
        ),
{
    match read_json(body) {
        Some(v) => {
            let t: String = read_transcript(&v);
            Ok(trimmed(t.as_str()))
        },
        None => Err(ServiceError::NotJson),
    }
}

/// The answer in the body of the chat service: the content of the first choice.
pub open spec fn chat_answer_in(j: Json) -> Seq<char> {
    j.field("choices"@).item(0).field("message"@).field("content"@).text_or_empty()
}

/// Reads the answer in a JSON value.
pub fn read_chat_answer(v: &serde_json::Value) -> (r: String)
    ensures
        r@ == chat_answer_in(json_view(*v)),
{
    field_text(field(item(field(v, "choices"), 0), "message"), "content")
}

/// The answer of the chat service.
pub fn chat_reply(success: bool, status: &str, body: &str) -> (r: Result<String, ServiceError>)
    ensures
        answered(
            r,
            success,
            refusal("chat"@, status@, body@),
            json_parse(body@),
            |j: Json| chat_answer_in(j),
        ),
{
    match body_of(success, "chat", status, body) {
        Ok(v) => Ok(read_chat_answer(&v)),
        Err(e) => Err(e),
    }
}

/// The translation in the body of the translation service: that of the first text.
pub open spec fn translation_in(j: Json) -> Seq<char> {
    j.field("data"@).field("translations"@).item(0).field("translatedText"@).text_or_empty()
}

/// Reads the translation in a JSON value.
pub fn read_translation(v: &serde_json::Value) -> (r: String)
    ensures
        r@ == translation_in(json_view(*v)),
{
    field_text(item(field(field(v, "data"), "translations"), 0), "translatedText")
}

/// The answer of the translation service.
pub fn google_reply(success: bool, status: &str, body: &str) -> (r: Result<String, ServiceError>)
    ensures
        answered(
            r,
            success,
            refusal("google translate"@, status@, body@),
            json_parse(body@),
            |j: Json| translation_in(j),
        ),
{
    match body_of(success, "google translate", status, body) {
        Ok(v) => Ok(read_translation(&v)),
        Err(e) => Err(e),
    }
}

/// An address that begins like one of the web.
pub open spec fn web_address(u: Option<Seq<char>>) -> Option<Seq<char>> {
    match u {
        Some(u) => if occurs_at(u, "http"@, 0) {
            Some(u)
        } else {
            None
        },
        None => None,
    }
}

/// The stream address of the first station in the body of the station directory: the
/// resolved one, or else the plain one.
pub open spec fn station_in(j: Json) -> Option<Seq<char>> {
    match j {
        Json::List(s) => if s.len() == 0 {
            None
        } else if s[0].field("url_resolved"@).text() is Some {
            web_address(s[0].field("url_resolved"@).text())
        } else {
            web_address(s[0].field("url"@).text())
        },
        _ => None,
    }
}

/// The address, where it begins like one of the web.
fn only_web(u: Option<&str>) -> (r: Option<String>)
    ensures
        opt_text(r) == web_address(
            match u {
                Some(t) => Some(t@),
                None => None,
            },
        ),
{
    match u {
        Some(t) => if begins_with(t, "http") {
            Some(t.to_owned())
        } else {
            None
        },
        None => None,
    }
}

/// Reads the stream address of the first station in a JSON value.
pub fn read_station(v: &serde_json::Value) -> (r: Option<String>)
    ensures
        opt_text(r) == station_in(json_view(*v)),
{
    match v.as_array() {
        Some(stations) => {
            if stations.len() == 0 {
                return None;
            }
            let first: &serde_json::Value = &stations[0];
            assert(json_views(stations@)[0] == json_view(*first));
            match field(first, "url_resolved").as_str() {
                Some(u) => only_web(Some(u)),
                None => only_web(field(first, "url").as_str()),
            }
        },
        None => None,
    }
}

/// The stream address in the body of the station directory.
pub fn station_reply(body: &str) -> (r: Option<String>)
    ensures
        opt_text(r) == (match json_parse(body@) {
            Some(j) => station_in(j),
            None => None,
        }),
{
    match read_json(body) {
        Some(v) => read_station(&v),
        None => None,
    }
}

// ---------------------------------------------------------------- laws

/// A reply is read whatever the model writes around the JSON object: text before it without an
/// opening brace, and text behind it without a closing one, makes no difference.
pub proof fn object_is_found(a: Seq<char>, o: Seq<char>, b: Seq<char>)
    requires
        o.len() >= 2 && o.first() == '{' && o.last() == '}',
        !a.contains('{'),
        !b.contains('}'),
    ensures
        outermost(a + o + b) == Some(o),
        outer_json(a + o + b) == json_parse(o),
{
    let t = a + o + b;
    let n = a.len() as int;
    let m = n + o.len() - 1;
    crate::text::first_of_is_first(t, '{');
    last_of_is_last(t, '}');
    assert(t[n] == '{' && t[m] == '}');
    assert forall|j: int| 0 <= j < n implies t[j] != '{' by {
        assert(a.contains(a[j]));
    }
    assert forall|j: int| m < j < t.len() implies t[j] != '}' by {
        assert(b.contains(b[j - m - 1]));
    }
    assert(first_of(t, '{') == Some(n));
    assert(last_of(t, '}') == Some(m));
    assert(t.subrange(n, m + 1) =~= o);
}

/// A reply without both braces holds no object.
pub proof fn no_braces_no_object(t: Seq<char>)
    requires
        !t.contains('{') || !t.contains('}'),
    ensures
        outermost(t) is None,
        outer_json(t) is None,
{
    crate::text::first_of_is_first(t, '{');
    last_of_is_last(t, '}');
}

/// What the agent decided is read from its own fields: the command is proposed exactly where the
/// reply says so with a true `action` and a `cmd` that is not empty.
pub proof fn decision_is_read(raw: Seq<char>, j: Json, say: Seq<char>, cmd: Seq<char>)
    requires
        outer_json(raw) == Some(j),
    ensures
        decision_of(raw) is Some,
        decision_of(raw)->0.action <==> j.field("action"@) == Json::Bool(true),
        j.field("say"@) == Json::Text(say) ==> decision_of(raw)->0.say == say,
        j.field("cmd"@) == Json::Text(cmd) && cmd.len() > 0 ==> decision_of(raw)->0.cmd == Some(
            cmd,
        ),
        !(j.field("cmd"@) is Text) || j.field("cmd"@) == Json::Text(Seq::empty()) ==> decision_of(
            raw,
        )->0.cmd is None,
{
}

/// What the model chose is read from its own fields: the skill, the words, and the level exactly
/// as it was given where it lies between 0 and 100, and 100 where it is greater.
pub proof fn choice_is_read(raw: Seq<char>, j: Json, skill: Seq<char>, say: Seq<char>, n: u64)
    requires
        outer_json(raw) == Some(j),
        j.field("skill"@) == Json::Text(skill),
    ensures
        choice_of(raw) is Some,
        choice_of(raw)->0.skill == skill,
        j.field("say"@) == Json::Text(say) ==> choice_of(raw)->0.say == say,
        j.field("level"@) == Json::Unsigned(n) && n <= 100 ==> choice_of(raw)->0.level == Some(
            n as u8,
        ),
        j.field("level"@) == Json::Unsigned(n) && n > 100 ==> choice_of(raw)->0.level == Some(
            100u8,
        ),
        !(j.field("level"@) is Unsigned) ==> choice_of(raw)->0.level is None,
{
}

/// A text field of the object in a reply is read as it stands there, and a field that is not there
/// is empty.
pub proof fn field_is_read(raw: Seq<char>, j: Json, key: Seq<char>, t: Seq<char>)
    ensures
        outer_json(raw) == Some(j) && j.field(key) == Json::Text(t) ==> reply_field(raw, key) == t,
        outer_json(raw) == Some(j) && !(j.field(key) is Text) ==> reply_field(raw, key) == Seq::<
            char,
        >::empty(),
        outer_json(raw) is None ==> reply_field(raw, key) == Seq::<char>::empty(),
{
}

/// The services are read where they put their answers: the transcript in `text`, the answer in the
/// content of the first choice, the translation in the first one of the list.
pub proof fn answers_are_found(t: Seq<char>, body: Json, first: Json, more: Seq<Json>)
    ensures
        body.field("text"@) == Json::Text(t) ==> transcript_in(body) == t,
        body.field("choices"@) == Json::List(seq![first] + more) && first.field("message"@).field(
            "content"@,
        ) == Json::Text(t) ==> chat_answer_in(body) == t,
        body.field("data"@).field("translations"@) == Json::List(seq![first] + more)
            && first.field("translatedText"@) == Json::Text(t) ==> translation_in(body) == t,
{
    assert((seq![first] + more)[0] == first);
}

/// The directory gives the first station that it lists: its resolved address, or else its plain
/// one, where that is an address of the web. An empty list gives none.
pub proof fn first_station_is_taken(u: Seq<char>, first: Json, more: Seq<Json>)
    ensures
        first.field("url_resolved"@) == Json::Text(u) && occurs_at(u, "http"@, 0) ==> station_in(
            Json::List(seq![first] + more),
        ) == Some(u),
        first.field("url_resolved"@) == Json::Text(u) && !occurs_at(u, "http"@, 0) ==> station_in(
            Json::List(seq![first] + more),
        ) is None,
        !(first.field("url_resolved"@) is Text) && first.field("url"@) == Json::Text(u)
            && occurs_at(u, "http"@, 0) ==> station_in(Json::List(seq![first] + more)) == Some(u),
        !(first.field("url_resolved"@) is Text) && !(first.field("url"@) is Text) ==> station_in(
            Json::List(seq![first] + more),
        ) is None,
        station_in(Json::List(Seq::empty())) is None,
{
    assert((seq![first] + more)[0] == first);
}

/// A service that refuses is reported by its name, its status and what it wrote; one that answers
/// gives what is found in its body, and only a body that is not JSON gives nothing.
pub proof fn services_are_believed(
    r: Result<String, ServiceError>,
    success: bool,
    message: Seq<char>,
    body: Option<Json>,
    found: spec_fn(Json) -> Seq<char>,
    name: Seq<char>,
    status: Seq<char>,
    text: Seq<char>,
)
    requires
        answered(r, success, message, body, found),
    ensures
        success && body is Some ==> (r matches Ok(t) && t@ == found(body->0)),
        success && body is None ==> (r matches Err(ServiceError::NotJson)),
        !success ==> (r matches Err(ServiceError::Refused { message: m }) && m@ == message),
        refusal(name, status, text) == name + " "@ + status + ": "@ + text,
{
}

} // verus!
