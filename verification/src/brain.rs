//! How an utterance is answered: by the skills agent, by the local assistant, or by the plain
//! chat.

use vstd::prelude::*;
use crate::compressor::{
    compressor_fast_path, model_names_the_action, named_action, relay_asked, relay_named,
    RelayAction,
};
use crate::config::Config;
use crate::dictation::{settings_keep_session, settings_step, transcribe_settings_step};
use crate::json::{json_parse, Json};
use crate::modes::{
    action_view, chat_mode_step, chat_step, coding_mode_step, coding_step, hacker_mode_step,
    hacker_step, modes_are_entered, or_else, passing_on_changes_nothing, phrases_are_translated,
    tongue, translate_mode_step, translate_step, Action, ActionView,
};
use crate::phrases::{
    affirmative_heard, chat_enter_in, coding_enter_in, external_heard, external_in,
    hacker_enter_in, has_any_word, is_cyrillic, is_list_request, list_request_in, negative_heard,
    no_words, said, speaker_heard, speaker_in, speaks_russian, these_words_agree,
    these_words_decline, transcribe_enter_heard, transcribe_enter_in, translate_enter_in,
    translate_exit_in, yes_words,
};
use crate::prompts::{agent_prompt, agent_text, voice_prompt, voice_text, Persona};
use crate::protocol::{
    silence, speech, Command, Reply, ReplyView, CTRL_NONE, CTRL_SPEAKER, CTRL_STREAM_EXTERNAL,
    CTRL_TRANSCRIBE, MAX_VOLUME,
};
use crate::radio::{
    favorite_named, favorite_names, match_favorite, names_of, normal, normalize_low, stations,
    StationView,
};
use crate::replies::{
    choice_of, decision_of, json_str, object_is_found, outer_json, parse_decision, parse_skill,
    reply_field, Decision, DecisionView,
};
use crate::session::{Flags, Heard, HeardView, Session, State};
use crate::speech::{clean_for_speech, spoken};
use crate::text::{decimal, decimal_of, digit, joined, lower, same, trim, trimmed};
use crate::volume::{spoken_level_is_set, volume_asked, volume_heard};

verus! {

// ---------------------------------------------------------------- the skills agent: routing

/// The settings that the routing of an utterance reads.
#[verifier::ext_equal]
pub struct Setup {
    pub chat_dir: Seq<char>,
    pub code_dir: Seq<char>,
    /// The translation service has a key.
    pub can_translate: bool,
    /// The host of the compressor relay.
    pub relay_host: Seq<char>,
    pub favorites: Seq<StationView>,
    pub skills_intro: Seq<char>,
    pub coding_intro: Seq<char>,
}

/// The settings `cfg` and the persona, as the routing reads them.
pub open spec fn setup_of(cfg: Config, persona: Persona) -> Setup {
    Setup {
        chat_dir: cfg.chat_dir@,
        code_dir: cfg.code_dir@,
        can_translate: cfg.google_translate_key@.len() > 0,
        relay_host: cfg.compressor_host@,
        favorites: stations(cfg.radio_favorites@),
        skills_intro: persona.skills_intro@,
        coding_intro: persona.coding_intro@,
    }
}

/// What is done with an utterance that no mode takes: a command for the relay, a pinned
/// favorite, or a question to the language model.
pub open spec fn unclaimed(c: Setup, h: HeardView) -> ActionView {
    if c.relay_host.len() > 0 && relay_asked(h.low) is Some {
        ActionView::Relay { action: relay_asked(h.low)->0, russian: h.russian() }
    } else {
        match favorite_named(normal(h.low), c.favorites) {
            Some((name, url)) => ActionView::TryRadio { name, url },
            None => ActionView::AskBrain,
        }
    }
}

/// What the first of the modes does that takes the utterance: chat mode, translate mode, hacker
/// mode, coding mode.
pub open spec fn claimed(st: State, c: Setup, h: HeardView) -> (State, Option<ActionView>) {
    let chat = chat_step(st, c.chat_dir, c.skills_intro, h);
    let translate = translate_step(st, c.can_translate, h);
    let hacker = hacker_step(st, h);
    if chat.1 is Some {
        chat
    } else if translate.1 is Some {
        translate
    } else if hacker.1 is Some {
        hacker
    } else {
        coding_step(st, c.code_dir, c.coding_intro, h)
    }
}

/// What is done with an utterance: the first of these that takes it. Nothing is done with
/// silence. Then come the settings of transcription, the start of a transcription, the modes,
/// and the rest.
pub open spec fn routed(st: State, c: Setup, h: HeardView) -> (State, ActionView) {
    let set = settings_step(st.flags.dictation, h.low);
    if h.text.len() == 0 {
        (st, ActionView::Reply(silence(CTRL_NONE)))
    } else if set.1 is Some {
        (
            st.with(Flags { dictation: set.0, ..st.flags }),
            ActionView::Reply(speech(CTRL_NONE, set.1->0)),
        )
    } else if external_in(h.low) || transcribe_enter_in(h.low) {
        (
            st,
            ActionView::Reply(
                speech(
                    CTRL_STREAM_EXTERNAL,
                    tongue(
                        h.russian(),
                        "Режим транскрибации включён. Говорите."@,
                        "Transcribe mode on. Speak now."@,
                    ),
                ),
            ),
        )
    } else if claimed(st, c, h).1 is Some {
        (claimed(st, c, h).0, claimed(st, c, h).1->0)
    } else {
        (st, unclaimed(c, h))
    }
}

/// An utterance that no mode takes leaves the session as it was.
proof fn unclaimed_changes_nothing(st: State, c: Setup, h: HeardView)
    ensures
        claimed(st, c, h).1 is None ==> claimed(st, c, h).0 == st,
{
    passing_on_changes_nothing(st, c.code_dir, c.coding_intro, c.can_translate, h);
}

fn mode_step(s: &mut Session, cfg: &Config, persona: &Persona, h: &Heard) -> (r: Option<Action>)
    ensures
        (final(s)@, action_view(r)) == claimed(old(s)@, setup_of(*cfg, *persona), h@),
{
    let ready: bool = !cfg.google_translate_key.as_str().is_empty();
    proof {
        passing_on_changes_nothing(s@, cfg.chat_dir@, persona.skills_intro@, ready, h@);
    }
    if let Some(a) = chat_mode_step(s, cfg.chat_dir.as_str(), persona, h) {
        return Some(a);
    }
    if let Some(a) = translate_mode_step(s, ready, h) {
        return Some(a);
    }
    if let Some(a) = hacker_mode_step(s, h) {
        return Some(a);
    }
    coding_mode_step(s, cfg.code_dir.as_str(), persona, h)
}

fn unclaimed_action(cfg: &Config, persona: &Persona, h: &Heard) -> (r: Action)
    ensures
        r@ == unclaimed(setup_of(*cfg, *persona), h@),
{
    if let Some(action) = compressor_fast_path(cfg.compressor_host.as_str(), h.low.as_str()) {
        return Action::Relay { action, russian: h.is_russian() };
    }
    let t: String = normalize_low(h.low.as_str());
    match match_favorite(t.as_str(), &cfg.radio_favorites) {
        Some((name, url)) => Action::TryRadio { name, url },
        None => Action::AskBrain,
    }
}

/// Decides what is done with an utterance of the skills agent.
pub fn skills_route(s: &mut Session, cfg: &Config, persona: &Persona, h: &Heard) -> (r: Action)
    ensures
        (final(s)@, r@) == routed(old(s)@, setup_of(*cfg, *persona), h@),
        old(s)@.wf() ==> final(s)@.wf(),
{
    let ghost before = s@;
    proof {
        routing_keeps_the_rest(before, setup_of(*cfg, *persona), h@);
        settings_keep_session(before.flags.dictation, h@.low);
        unclaimed_changes_nothing(before, setup_of(*cfg, *persona), h@);
    }
    if h.text.as_str().is_empty() {
        return Action::Reply(Reply::silent(CTRL_NONE));
    }
    if let Some(words) = transcribe_settings_step(&mut s.flags.dictation, h.low.as_str()) {
        return Action::Reply(Reply::say(CTRL_NONE, words.as_str()));
    }
    assert(s@ == before);
    if external_heard(h.low.as_str()) || transcribe_enter_heard(h.low.as_str()) {
        return Action::Reply(
            Reply::say_in(
                CTRL_STREAM_EXTERNAL,
                h.is_russian(),
                "Режим транскрибации включён. Говорите.",
                "Transcribe mode on. Speak now.",
            ),
        );
    }
    if let Some(a) = mode_step(s, cfg, persona, h) {
        return a;
    }
    unclaimed_action(cfg, persona, h)
}

/// The reply once a favorite turned out to be live: the device plays it, with no words.
pub fn radio_playing() -> (r: Reply)
    ensures
        r@ == silence(CTRL_SPEAKER),
{
    Reply::silent(CTRL_SPEAKER)
}

/// A transcription can be started at any time, whatever mode is on.
pub proof fn transcription_starts_in_any_mode(st: State, c: Setup, h: HeardView)
    requires
        h.text.len() > 0,
        settings_step(st.flags.dictation, h.low).1 is None,
        transcribe_enter_in(h.low),
    ensures
        routed(st, c, h).0 == st,
        routed(st, c, h).1 matches ActionView::Reply(r) && r.control == CTRL_STREAM_EXTERNAL,
{
}

/// Routing never changes the volume, the pending command or the count of silent turns.
pub proof fn routing_keeps_the_rest(st: State, c: Setup, h: HeardView)
    ensures
        routed(st, c, h).0.flags.last_volume == st.flags.last_volume,
        routed(st, c, h).0.flags.silence_streak == st.flags.silence_streak,
        routed(st, c, h).0.flags.transcribe == st.flags.transcribe,
        routed(st, c, h).0.pending == st.pending,
{
    reveal(settings_step);
    reveal(chat_step);
    reveal(translate_step);
    reveal(hacker_step);
    reveal(coding_step);
}

/// While a mode is on, no utterance reaches the language model that chooses skills.
pub proof fn active_mode_never_asks(st: State, c: Setup, h: HeardView)
    requires
        st.flags.chat || st.flags.translate || st.flags.hacker || st.flags.coding,
    ensures
        !(routed(st, c, h).1 is AskBrain),
        !(routed(st, c, h).1 is TryRadio),
        !(routed(st, c, h).1 is Relay),
{
    reveal(settings_step);
    reveal(chat_step);
    reveal(translate_step);
    reveal(hacker_step);
    reveal(coding_step);
}

// ---------------------------------------------------------------- the skills agent: skills

/// What the language model chose, ready for use.
pub struct BrainReply {
    pub skill: String,
    pub level: Option<u8>,
    /// The words to speak, cleaned.
    pub say: String,
    /// The station that is asked for, and the address that the model found.
    pub query: String,
    pub url: String,
    /// The query asks which stations there are.
    pub listing: bool,
    /// The language to translate to, trimmed and in lower case.
    pub target: String,
    /// The action of the relay, trimmed and in lower case.
    pub action: String,
}

/// The value of a `BrainReply`.
#[verifier::ext_equal]
pub struct BrainView {
    pub skill: Seq<char>,
    pub level: Option<u8>,
    pub say: Seq<char>,
    pub query: Seq<char>,
    pub url: Seq<char>,
    pub listing: bool,
    pub target: Seq<char>,
    pub action: Seq<char>,
}

impl View for BrainReply {
    type V = BrainView;

    open spec fn view(&self) -> BrainView {
        BrainView {
            skill: self.skill@,
            level: self.level,
            say: self.say@,
            query: self.query@,
            url: self.url@,
            listing: self.listing,
            target: self.target@,
            action: self.action@,
        }
    }
}

/// What the reply `raw` of the language model says. A reply without a choice is an answer to be
/// spoken.
pub open spec fn brain_reply(raw: Seq<char>) -> BrainView {
    let query = reply_field(raw, "query"@);
    BrainView {
        skill: match choice_of(raw) {
            Some(c) => c.skill,
            None => "answer"@,
        },
        level: match choice_of(raw) {
            Some(c) => c.level,
            None => None,
        },
        say: match choice_of(raw) {
            Some(c) => spoken(c.say),
            None => spoken(spoken(raw)),
        },
        query,
        url: reply_field(raw, "url"@),
        listing: list_request_in(lower(query)),
        target: lower(trim(reply_field(raw, "target"@))),
        action: lower(trim(reply_field(raw, "action"@))),
    }
}

/// Reads what the language model chose.
pub fn read_brain(raw: &str) -> (b: BrainReply)
    ensures
        b@ == brain_reply(raw@),
        b.level matches Some(v) ==> v <= MAX_VOLUME,
{
    let query: String = json_str(raw, "query");
    let url: String = json_str(raw, "url");
    let listing: bool = is_list_request(query.as_str());
    let target: String = trimmed(json_str(raw, "target").as_str()).as_str().to_lowercase();
    let action: String = trimmed(json_str(raw, "action").as_str()).as_str().to_lowercase();
    match parse_skill(raw) {
        Some(c) => {
            let say: String = clean_for_speech(c.say.as_str());
            BrainReply {
                skill: c.skill,
                level: c.level,
                say,
                query,
                url,
                listing,
                target,
                action,
            }
        },
        None => {
            let say: String = clean_for_speech(clean_for_speech(raw).as_str());
            BrainReply {
                skill: "answer".to_owned(),
                level: None,
                say,
                query,
                url,
                listing,
                target,
                action,
            }
        },
    }
}

/// The level of a choice, or the current volume, at most 100.
pub open spec fn level_or(level: Option<u8>, current: u8) -> u8 {
    let v = match level {
        Some(v) => v,
        None => current,
    };
    if v <= MAX_VOLUME {
        v
    } else {
        MAX_VOLUME
    }
}

/// The words that list the favorite stations.
pub open spec fn listing_words(russian: bool, say: Seq<char>, names: Seq<Seq<char>>) -> Seq<char> {
    if say.len() > 0 {
        say
    } else if names.len() == 0 {
        tongue(
            russian,
            "Список станций пуст. Назови станцию, и я её найду."@,
            "No stations saved. Name a station and I'll find it."@,
        )
    } else if russian {
        "Доступны: "@ + joined(names, ", "@) + ". Назови станцию."@
    } else {
        "Available: "@ + joined(names, ", "@) + ". Name a station."@
    }
}

/// The words that announce a translation to `target`.
pub open spec fn translating_words(russian: bool, say: Seq<char>, target: Seq<char>) -> Seq<char> {
    if say.len() > 0 {
        say
    } else if russian {
        "Режим перевода включён, перевожу на «"@ + target + "»."@
    } else {
        "Translate mode on, translating to "@ + target + "."@
    }
}

/// What the choice of a volume does. `current` is the volume when the model was asked.
pub open spec fn chosen_volume(st: State, current: u8, b: BrainView) -> (State, ActionView) {
    let v = level_or(b.level, current);
    (
        st.with(Flags { last_volume: v, ..st.flags }),
        ActionView::Reply(
            speech(
                Command::Volume(v).spec_byte(),
                or_else(b.say, "Volume "@ + decimal(v as nat) + "."@),
            ),
        ),
    )
}

/// What the choice of speaker mode does: with a level it sets the volume as well.
pub open spec fn chosen_speaker(st: State, current: u8, b: BrainView) -> (State, ActionView) {
    let words = or_else(b.say, "Speaker mode on."@);
    match b.level {
        Some(_) => {
            let v = level_or(b.level, current);
            (
                st.with(Flags { last_volume: v, ..st.flags }),
                ActionView::Reply(speech(Command::VolumeAndSpeaker(v).spec_byte(), words)),
            )
        },
        None => (st, ActionView::Reply(speech(CTRL_SPEAKER, words))),
    }
}

/// What the choice of radio does: without a station it lists the favorites.
pub open spec fn chosen_radio(names: Seq<Seq<char>>, russian: bool, b: BrainView) -> ActionView {
    if trim(b.url).len() == 0 && (trim(b.query).len() == 0 || b.listing) {
        ActionView::Reply(speech(CTRL_NONE, listing_words(russian, b.say, names)))
    } else {
        ActionView::FindStation { query: b.query, url: b.url }
    }
}

/// What the choice of translate mode does. `ready` says that the service has a key.
pub open spec fn chosen_translate(
    st: State,
    ready: bool,
    russian: bool,
    b: BrainView,
) -> (State, ActionView) {
    let target = or_else(b.target, "en"@);
    if !ready {
        (
            st,
            ActionView::Reply(
                speech(
                    CTRL_NONE,
                    tongue(
                        russian,
                        "Ключ переводчика не задан."@,
                        "Translation key is not set."@,
                    ),
                ),
            ),
        )
    } else {
        (
            State { flags: Flags { translate: true, ..st.flags }, target, ..st },
            ActionView::Reply(
                speech(CTRL_TRANSCRIBE, translating_words(russian, b.say, target)),
            ),
        )
    }
}

/// What a choice of the language model does. `current` is the volume when the model was asked.
pub open spec fn chosen(
    st: State,
    c: Setup,
    russian: bool,
    current: u8,
    b: BrainView,
) -> (State, ActionView) {
    if b.skill == "volume"@ {
        chosen_volume(st, current, b)
    } else if b.skill == "speaker"@ {
        chosen_speaker(st, current, b)
    } else if b.skill == "radio"@ {
        (st, chosen_radio(names_of(c.favorites), russian, b))
    } else if b.skill == "translate"@ {
        chosen_translate(st, c.can_translate, russian, b)
    } else if b.skill == "compressor"@ {
        (st, ActionView::Relay { action: relay_named(b.action), russian })
    } else if b.say.len() == 0 {
        (st, ActionView::Reply(silence(CTRL_NONE)))
    } else {
        (st, ActionView::Reply(speech(CTRL_NONE, b.say)))
    }
}

fn capped(level: u8) -> (v: u8)
    ensures
        v == level_or(Some(level), 0),
        v <= MAX_VOLUME,
{
    if level <= MAX_VOLUME {
        level
    } else {
        MAX_VOLUME
    }
}

fn or_words(say: &String, default: &str) -> (r: String)
    ensures
        r@ == or_else(say@, default@),
{
    if say.as_str().is_empty() {
        default.to_owned()
    } else {
        say.clone()
    }
}

fn list_favorites(cfg: &Config, russian: bool, say: &String) -> (r: String)
    ensures
        r@ == listing_words(russian, say@, names_of(stations(cfg.radio_favorites@))),
{
    if !say.as_str().is_empty() {
        return say.clone();
    }
    if cfg.radio_favorites.len() == 0 {
        if russian {
            return "Список станций пуст. Назови станцию, и я её найду.".to_owned();
        }
        return "No stations saved. Name a station and I'll find it.".to_owned();
    }
    let names: String = favorite_names(&cfg.radio_favorites);
    if russian {
        let mut w: String = "Доступны: ".to_owned();
        w.append(names.as_str());
        w.append(". Назови станцию.");
        w
    } else {
        let mut w: String = "Available: ".to_owned();
        w.append(names.as_str());
        w.append(". Name a station.");
        w
    }
}

fn announce_translation(russian: bool, say: &String, target: &str) -> (r: String)
    ensures
        r@ == translating_words(russian, say@, target@),
{
    if !say.as_str().is_empty() {
        return say.clone();
    }
    if russian {
        let mut w: String = "Режим перевода включён, перевожу на «".to_owned();
        w.append(target);
        w.append("».");
        w
    } else {
        let mut w: String = "Translate mode on, translating to ".to_owned();
        w.append(target);
        w.append(".");
        w
    }
}

fn apply_volume(s: &mut Session, cur_volume: u8, b: &BrainReply) -> (r: Action)
    ensures
        (final(s)@, r@) == chosen_volume(old(s)@, cur_volume, b@),
        old(s)@.wf() ==> final(s)@.wf(),
{
    let v: u8 = match b.level {
        Some(v) => capped(v),
        None => capped(cur_volume),
    };
    s.flags.last_volume = v;
    let mut words: String = "Volume ".to_owned();
    words.append(decimal_of(v as u64).as_str());
    words.append(".");
    let words: String = or_words(&b.say, words.as_str());
    Action::Reply(Reply::say(Command::Volume(v).byte(), words.as_str()))
}

fn apply_speaker(s: &mut Session, cur_volume: u8, b: &BrainReply) -> (r: Action)
    ensures
        (final(s)@, r@) == chosen_speaker(old(s)@, cur_volume, b@),
        old(s)@.wf() ==> final(s)@.wf(),
{
    let words: String = or_words(&b.say, "Speaker mode on.");
    match b.level {
        Some(v) => {
            let v: u8 = capped(v);
            s.flags.last_volume = v;
            Action::Reply(Reply::say(Command::VolumeAndSpeaker(v).byte(), words.as_str()))
        },
        None => Action::Reply(Reply::say(CTRL_SPEAKER, words.as_str())),
    }
}

fn apply_radio(cfg: &Config, russian: bool, b: &BrainReply) -> (r: Action)
    ensures
        r@ == chosen_radio(names_of(stations(cfg.radio_favorites@)), russian, b@),
{
    let no_url: bool = trimmed(b.url.as_str()).as_str().is_empty();
    let no_query: bool = trimmed(b.query.as_str()).as_str().is_empty();
    if no_url && (no_query || b.listing) {
        let words: String = list_favorites(cfg, russian, &b.say);
        return Action::Reply(Reply::say(CTRL_NONE, words.as_str()));
    }
    Action::FindStation { query: b.query.clone(), url: b.url.clone() }
}

fn apply_translate(s: &mut Session, ready: bool, russian: bool, b: &BrainReply) -> (r: Action)
    ensures
        (final(s)@, r@) == chosen_translate(old(s)@, ready, russian, b@),
        old(s)@.wf() ==> final(s)@.wf(),
{
    if !ready {
        return Action::Reply(
            Reply::say_in(
                CTRL_NONE,
                russian,
                "Ключ переводчика не задан.",
                "Translation key is not set.",
            ),
        );
    }
    let target: String = or_words(&b.target, "en");
    let words: String = announce_translation(russian, &b.say, target.as_str());
    s.flags.translate = true;
    s.target = target;
    Action::Reply(Reply::say(CTRL_TRANSCRIBE, words.as_str()))
}

/// Carries out a choice of the language model.
pub fn skills_apply(
    s: &mut Session,
    cfg: &Config,
    persona: &Persona,
    russian: bool,
    cur_volume: u8,
    b: &BrainReply,
) -> (r: Action)
    ensures
        (final(s)@, r@) == chosen(
            old(s)@,
            setup_of(*cfg, *persona),
            russian,
            cur_volume,
            b@,
        ),
        old(s)@.wf() ==> final(s)@.wf(),
{
    let skill: &str = b.skill.as_str();
    if same(skill, "volume") {
        apply_volume(s, cur_volume, b)
    } else if same(skill, "speaker") {
        apply_speaker(s, cur_volume, b)
    } else if same(skill, "radio") {
        apply_radio(cfg, russian, b)
    } else if same(skill, "translate") {
        apply_translate(s, !cfg.google_translate_key.as_str().is_empty(), russian, b)
    } else if same(skill, "compressor") {
        Action::Relay { action: named_action(b.action.as_str()), russian }
    } else if b.say.as_str().is_empty() {
        Action::Reply(Reply::silent(CTRL_NONE))
    } else {
        Action::Reply(Reply::say(CTRL_NONE, b.say.as_str()))
    }
}

/// What the reply `raw` of the language model to the utterance `h` does.
pub open spec fn decided(
    st: State,
    c: Setup,
    h: HeardView,
    current: u8,
    raw: Seq<char>,
) -> (State, ActionView) {
    chosen(st, c, h.russian(), current, brain_reply(raw))
}

/// Carries out what the language model replied.
pub fn skills_decide(
    s: &mut Session,
    cfg: &Config,
    persona: &Persona,
    h: &Heard,
    cur_volume: u8,
    raw: &str,
) -> (r: Action)
    ensures
        (final(s)@, r@) == chosen(
            old(s)@,
            setup_of(*cfg, *persona),
            h@.russian(),
            cur_volume,
            brain_reply(raw@),
        ),
        (final(s)@, r@) == decided(old(s)@, setup_of(*cfg, *persona), h@, cur_volume, raw@),
        old(s)@.wf() ==> final(s)@.wf(),
{
    let b: BrainReply = read_brain(raw);
    skills_apply(s, cfg, persona, h.is_russian(), cur_volume, &b)
}

/// A choice never asks a second question and never leaves a mode: apart from the volume and
/// translate mode the session stays as it was.
pub proof fn choices_change_little(st: State, c: Setup, russian: bool, current: u8, b: BrainView)
    ensures
        ({
            let (after, a) = chosen(st, c, russian, current, b);
            &&& !(a is AskBrain)
            &&& after.pending == st.pending
            &&& after.flags == (Flags {
                last_volume: after.flags.last_volume,
                translate: after.flags.translate,
                ..st.flags
            })
            &&& st.flags.translate ==> after.flags.translate
        }),
{
}

/// The volume that is remembered is the one that the device is told.
pub proof fn remembered_volume_is_sent(
    st: State,
    c: Setup,
    russian: bool,
    current: u8,
    b: BrainView,
)
    requires
        b.skill == "volume"@ || (b.skill == "speaker"@ && b.level is Some),
    ensures
        ({
            let (after, a) = chosen(st, c, russian, current, b);
            let v = after.flags.last_volume;
            &&& v <= MAX_VOLUME
            &&& a matches ActionView::Reply(r) && (crate::protocol::command_of(r.control) == Some(
                Command::Volume(v),
            ) || crate::protocol::command_of(r.control) == Some(Command::VolumeAndSpeaker(v)))
        }),
{
    let v = level_or(b.level, current);
    crate::protocol::command_reads_back(Command::Volume(v));
    crate::protocol::command_reads_back(Command::VolumeAndSpeaker(v));
}

/// What is said after looking for a station: nothing where it plays, and else why not.
pub open spec fn tuned(russian: bool, found: bool, started: bool) -> ReplyView {
    if !found {
        speech(
            CTRL_NONE,
            tongue(
                russian,
                "Не нашла рабочую станцию, попробуй другую."@,
                "Couldn't find a working station, try another."@,
            ),
        )
    } else if started {
        silence(CTRL_SPEAKER)
    } else {
        speech(
            CTRL_NONE,
            tongue(russian, "Не удалось запустить радио."@, "Couldn't start the radio."@),
        )
    }
}

/// The reply after looking for a station: `found` says that a live stream was found, `started`
/// that it could be started.
pub fn radio_reply(russian: bool, found: bool, started: bool) -> (r: Reply)
    ensures
        r@ == tuned(russian, found, started),
{
    if !found {
        Reply::say_in(
            CTRL_NONE,
            russian,
            "Не нашла рабочую станцию, попробуй другую.",
            "Couldn't find a working station, try another.",
        )
    } else if started {
        Reply::silent(CTRL_SPEAKER)
    } else {
        Reply::say_in(
            CTRL_NONE,
            russian,
            "Не удалось запустить радио.",
            "Couldn't start the radio.",
        )
    }
}

/// The device enters speaker mode only where there is something to hear.
pub proof fn no_silent_speaker_mode(russian: bool, found: bool, started: bool)
    ensures
        tuned(russian, found, started).control == CTRL_SPEAKER <==> found && started,
{
}

// ---------------------------------------------------------------- spoken device commands

/// The reply to a spoken volume command.
pub open spec fn volume_set(v: u8) -> ReplyView {
    speech(Command::Volume(v).spec_byte(), "Volume set to "@ + decimal(v as nat) + "."@)
}

fn say_volume(v: u8) -> (r: Reply)
    requires
        v <= MAX_VOLUME,
    ensures
        r@ == volume_set(v),
{
    let mut words: String = "Volume set to ".to_owned();
    words.append(decimal_of(v as u64).as_str());
    words.append(".");
    Reply::say(Command::Volume(v).byte(), words.as_str())
}

/// The reply to a command that the device itself carries out: a volume or speaker mode.
pub open spec fn device_command(h: HeardView) -> Option<ReplyView> {
    match volume_asked(h.low, h.again) {
        Some(v) => Some(volume_set(v)),
        None => if speaker_in(h.low) {
            Some(
                speech(
                    CTRL_SPEAKER,
                    tongue(h.russian(), "Включаю режим колонки."@, "Speaker mode on."@),
                ),
            )
        } else {
            None
        },
    }
}

fn device_reply(h: &Heard) -> (r: Option<Reply>)
    ensures
        crate::protocol::reply_view(r) == device_command(h@),
{
    if let Some(v) = volume_heard(h.low.as_str(), h.again.as_str()) {
        return Some(say_volume(v));
    }
    if speaker_heard(h.low.as_str()) {
        return Some(
            Reply::say_in(
                CTRL_SPEAKER,
                h.is_russian(),
                "Включаю режим колонки.",
                "Speaker mode on.",
            ),
        );
    }
    None
}

// ---------------------------------------------------------------- the local assistant

/// What the local assistant does next.
pub enum Step {
    /// Send this reply.
    Reply(Reply),
    /// Run the command that the user agreed to.
    Run { cmd: String, russian: bool },
    /// Ask the language model.
    Ask,
}

/// The value of a `Step`.
#[verifier::ext_equal]
pub enum StepView {
    Reply(ReplyView),
    Run { cmd: Seq<char>, russian: bool },
    Ask,
}

impl View for Step {
    type V = StepView;

    open spec fn view(&self) -> StepView {
        match self {
            Step::Reply(r) => StepView::Reply(r@),
            Step::Run { cmd, russian } => StepView::Run { cmd: cmd@, russian: *russian },
            Step::Ask => StepView::Ask,
        }
    }
}

/// What is done with an utterance that answers no proposal.
pub open spec fn plain_step(h: HeardView) -> StepView {
    match device_command(h) {
        Some(r) => StepView::Reply(r),
        None => StepView::Ask,
    }
}

/// What the local assistant does with an utterance. A proposed command runs after a yes, is
/// dropped after a no, and is dropped as well by anything else, which then counts as a new
/// request. Silence is not an answer.
pub open spec fn windows_step(st: State, agent: bool, h: HeardView) -> (State, StepView) {
    if h.text.len() == 0 {
        (st, StepView::Reply(silence(CTRL_NONE)))
    } else if agent && st.pending is Some {
        let after = State { pending: None, ..st };
        if has_any_word(h.low, yes_words()) {
            (after, StepView::Run { cmd: st.pending->0, russian: h.russian() })
        } else if has_any_word(h.low, no_words()) {
            (
                after,
                StepView::Reply(
                    speech(
                        CTRL_NONE,
                        tongue(h.russian(), "Хорошо, отменяю."@, "Okay, cancelled."@),
                    ),
                ),
            )
        } else {
            (after, plain_step(h))
        }
    } else {
        (st, plain_step(h))
    }
}

fn plain_next(h: &Heard) -> (r: Step)
    ensures
        r@ == plain_step(h@),
{
    match device_reply(h) {
        Some(reply) => Step::Reply(reply),
        None => Step::Ask,
    }
}

/// Decides what the local assistant does with an utterance.
pub fn windows_brain(s: &mut Session, agent: bool, h: &Heard) -> (r: Step)
    ensures
        (final(s)@, r@) == windows_step(old(s)@, agent, h@),
        old(s)@.wf() ==> final(s)@.wf(),
{
    if h.text.as_str().is_empty() {
        return Step::Reply(Reply::silent(CTRL_NONE));
    }
    if agent {
        let mut pending: Option<String> = None;
        std::mem::swap(&mut pending, &mut s.pending);
        if let Some(cmd) = pending {
            let russian: bool = h.is_russian();
            if affirmative_heard(h.low.as_str()) {
                return Step::Run { cmd, russian };
            }
            if negative_heard(h.low.as_str()) {
                return Step::Reply(
                    Reply::say_in(CTRL_NONE, russian, "Хорошо, отменяю.", "Okay, cancelled."),
                );
            }
        }
    }
    plain_next(h)
}

/// What is said after a command ran.
pub open spec fn ran(russian: bool, ok: bool) -> ReplyView {
    speech(
        CTRL_NONE,
        if ok {
            tongue(russian, "Готово."@, "Done."@)
        } else {
            tongue(russian, "Не получилось."@, "That didn't work."@)
        },
    )
}

/// The reply after a command ran.
pub fn command_reply(russian: bool, ok: bool) -> (r: Reply)
    ensures
        r@ == ran(russian, ok),
{
    if ok {
        Reply::say_in(CTRL_NONE, russian, "Готово.", "Done.")
    } else {
        Reply::say_in(CTRL_NONE, russian, "Не получилось.", "That didn't work.")
    }
}

/// The prompt for the language model of the local assistant.
pub fn windows_prompt(agent: bool, transcript: &str) -> (r: String)
    ensures
        agent ==> exists|now: Seq<char>| r@ == #[trigger] agent_text(now, transcript@),
        !agent ==> exists|now: Seq<char>, utc: Seq<char>|
            r@ == #[trigger] voice_text(now, utc, transcript@),
{
    if agent {
        agent_prompt(transcript)
    } else {
        voice_prompt(transcript)
    }
}

/// What is done with the reply `raw` of the language model, which states the decision `d`. A
/// proposed command is remembered, and the user is asked for a yes or a no.
pub open spec fn answered_by_model(
    st: State,
    agent: bool,
    raw: Seq<char>,
    d: Option<DecisionView>,
) -> (State, ReplyView) {
    if !agent {
        (
            st,
            if spoken(raw).len() == 0 {
                silence(CTRL_NONE)
            } else {
                speech(CTRL_NONE, spoken(raw))
            },
        )
    } else if d is Some && d->0.action && d->0.cmd is Some {
        (
            State { pending: d->0.cmd, ..st },
            speech(
                CTRL_NONE,
                spoken(d->0.say) + tongue(
                    speaks_russian(d->0.say),
                    " Сказать да или нет?"@,
                    " Say yes or no."@,
                ),
            ),
        )
    } else {
        (
            st,
            speech(
                CTRL_NONE,
                spoken(
                    if d is Some && d->0.say.len() > 0 {
                        d->0.say
                    } else {
                        raw
                    },
                ),
            ),
        )
    }
}

/// The value of an optional decision.
pub open spec fn decision_view(d: Option<Decision>) -> Option<DecisionView> {
    match d {
        Some(d) => Some(d@),
        None => None,
    }
}

/// `windows_answer` with the decision that the reply states.
pub fn windows_speak(s: &mut Session, agent: bool, raw: &str, d: Option<Decision>) -> (r: Reply)
    ensures
        (final(s)@, r@) == answered_by_model(old(s)@, agent, raw@, decision_view(d)),
        old(s)@.wf() ==> final(s)@.wf(),
{
    if !agent {
        let reply: String = clean_for_speech(raw);
        if reply.as_str().is_empty() {
            return Reply::silent(CTRL_NONE);
        }
        return Reply::say(CTRL_NONE, reply.as_str());
    }
    match d {
        Some(d) => {
            if d.action {
                if let Some(cmd) = d.cmd {
                    s.pending = Some(cmd);
                    let mut words: String = clean_for_speech(d.say.as_str());
                    if is_cyrillic(d.say.as_str()) {
                        words.append(" Сказать да или нет?");
                    } else {
                        words.append(" Say yes or no.");
                    }
                    return Reply::say(CTRL_NONE, words.as_str());
                }
            }
            if d.say.as_str().is_empty() {
                Reply::say(CTRL_NONE, clean_for_speech(raw).as_str())
            } else {
                Reply::say(CTRL_NONE, clean_for_speech(d.say.as_str()).as_str())
            }
        },
        None => Reply::say(CTRL_NONE, clean_for_speech(raw).as_str()),
    }
}

/// What the reply `raw` of the language model does.
pub open spec fn model_answer(st: State, agent: bool, raw: Seq<char>) -> (State, ReplyView) {
    answered_by_model(st, agent, raw, decision_of(raw))
}

/// Decides what is said to the reply of the language model.
pub fn windows_answer(s: &mut Session, agent: bool, raw: &str) -> (r: Reply)
    ensures
        (final(s)@, r@) == answered_by_model(old(s)@, agent, raw@, decision_of(raw@)),
        (final(s)@, r@) == model_answer(old(s)@, agent, raw@),
        old(s)@.wf() ==> final(s)@.wf(),
{
    let d: Option<Decision> = if agent {
        parse_decision(raw)
    } else {
        None
    };
    windows_speak(s, agent, raw, d)
}

/// A command runs only after it was proposed and the user said yes: without a pending command
/// nothing runs, and what runs is the pending command.
pub proof fn nothing_runs_unasked(st: State, agent: bool, h: HeardView)
    ensures
        windows_step(st, agent, h).1 matches StepView::Run { cmd, .. } ==> agent && st.pending
            == Some(cmd) && has_any_word(h.low, yes_words()),
{
}

/// A proposal is answered at most once: after any utterance but silence no command is pending
/// until the model proposes one again.
pub proof fn proposal_is_answered_once(st: State, h: HeardView)
    requires
        h.text.len() > 0,
    ensures
        windows_step(st, true, h).0.pending is None,
{
}

/// Without the agent no command is ever proposed.
pub proof fn no_proposal_without_agent(st: State, raw: Seq<char>, d: Option<DecisionView>)
    ensures
        answered_by_model(st, false, raw, d).0 == st,
{
}

// ---------------------------------------------------------------- plain chat

/// What the plain chat does with an utterance.
pub open spec fn openai_step(h: HeardView) -> StepView {
    if h.text.len() == 0 {
        StepView::Reply(silence(CTRL_NONE))
    } else {
        plain_step(h)
    }
}

/// Decides what the plain chat does with an utterance.
pub fn openai_brain(h: &Heard) -> (r: Step)
    ensures
        r@ == openai_step(h@),
{
    if h.text.as_str().is_empty() {
        return Step::Reply(Reply::silent(CTRL_NONE));
    }
    plain_next(h)
}

/// The reply of the plain chat to the answer of the model.
pub open spec fn chat_answer(answer: Seq<char>) -> ReplyView {
    speech(CTRL_NONE, spoken(answer))
}

/// The reply of the plain chat: the answer of the model, cleaned.
pub fn openai_answer(answer: &str) -> (r: Reply)
    ensures
        r@ == speech(CTRL_NONE, spoken(answer@)),
        r@ == chat_answer(answer@),
{
    Reply::say(CTRL_NONE, clean_for_speech(answer).as_str())
}

// ---------------------------------------------------------------- laws of the local assistant

/// A word that agrees is said as a word of its own, in either language.
pub open spec fn agrees(low: Seq<char>) -> bool {
    said(low, "yes"@) || said(low, "yeah"@) || said(low, "yep"@) || said(low, "yup"@)
        || said(low, "sure"@) || said(low, "ok"@) || said(low, "okay"@) || said(low, "да"@)
        || said(low, "ага"@) || said(low, "давай"@) || said(low, "конечно"@)
        || said(low, "угу"@) || said(low, "ладно"@)
}

/// A word that declines is said as a word of its own, in either language.
pub open spec fn declines(low: Seq<char>) -> bool {
    said(low, "no"@) || said(low, "nope"@) || said(low, "cancel"@) || said(low, "stop"@)
        || said(low, "нет"@) || said(low, "отмена"@) || said(low, "отмени"@)
        || said(low, "стоп"@) || said(low, "неа"@)
}

/// With the agent on and a command pending, an utterance that agrees, in either language, runs
/// exactly that command, and afterwards none is pending.
pub proof fn agreed_command_runs(st: State, cmd: Seq<char>, h: HeardView)
    requires
        st.pending == Some(cmd),
        h.text.len() > 0,
        agrees(h.low),
    ensures
        windows_step(st, true, h) == (
            State { pending: None, ..st },
            StepView::Run { cmd, russian: speaks_russian(h.text) },
        ),
{
    these_words_agree(h.low);
}

/// An utterance that declines, and does not agree, drops the pending command, runs nothing and
/// says so in the language of the utterance.
pub proof fn declined_command_is_dropped(st: State, h: HeardView)
    requires
        st.pending is Some,
        h.text.len() > 0,
        declines(h.low),
        !agrees(h.low),
    ensures
        windows_step(st, true, h) == (
            State { pending: None, ..st },
            StepView::Reply(
                ReplyView {
                    control: 0xFFu8,
                    words: Some(
                        if speaks_russian(h.text) {
                            "Хорошо, отменяю."@
                        } else {
                            "Okay, cancelled."@
                        },
                    ),
                },
            ),
        ),
{
    these_words_agree(h.low);
    these_words_decline(h.low);
}

/// Anything else drops the pending command and is answered as if none had been pending.
pub proof fn other_answers_are_new_requests(st: State, h: HeardView)
    requires
        h.text.len() > 0,
        !agrees(h.low) && !declines(h.low),
    ensures
        windows_step(st, true, h).0 == (State { pending: None, ..st }),
        windows_step(st, true, h).1 == windows_step(State { pending: None, ..st }, true, h).1,
        windows_step(st, true, h).1 == windows_step(st, false, h).1,
        !(windows_step(st, true, h).1 is Run),
{
    these_words_agree(h.low);
    these_words_decline(h.low);
}

/// Without the agent no command is touched: nothing runs, and a pending one stays pending. Silence
/// is no answer either, and gets none.
pub proof fn pending_command_waits(st: State, agent: bool, h: HeardView)
    ensures
        windows_step(st, false, h).0 == st,
        !(windows_step(st, false, h).1 is Run),
        h.text.len() == 0 ==> windows_step(st, agent, h) == (
            st,
            StepView::Reply(ReplyView { control: 0xFFu8, words: None }),
        ),
{
}

/// A command that the model proposes is remembered as it is, and the user hears what it is about
/// and the question. A yes then runs that very command, whatever was pending before.
pub proof fn proposed_command_runs_after_a_yes(
    st: State,
    raw: Seq<char>,
    d: DecisionView,
    cmd: Seq<char>,
    h: HeardView,
)
    requires
        d.action && d.cmd == Some(cmd),
        h.text.len() > 0,
        agrees(h.low),
    ensures
        ({
            let (asked, reply) = answered_by_model(st, true, raw, Some(d));
            &&& asked == (State { pending: Some(cmd), ..st })
            &&& reply.control == 0xFF
            &&& reply.words == Some(
                spoken(d.say) + (if speaks_russian(d.say) {
                    " Сказать да или нет?"@
                } else {
                    " Say yes or no."@
                }),
            )
            &&& windows_step(asked, true, h).1 == (StepView::Run {
                cmd,
                russian: speaks_russian(h.text),
            })
        }),
{
    agreed_command_runs(State { pending: Some(cmd), ..st }, cmd, h);
}

/// A decision without a command is only spoken: its words, or the whole reply where it has none.
/// Nothing becomes pending by it.
pub proof fn plain_decision_is_spoken(st: State, raw: Seq<char>, d: Option<DecisionView>)
    ensures
        d is None || !d->0.action || d->0.cmd is None ==> {
            let (after, reply) = answered_by_model(st, true, raw, d);
            &&& after == st
            &&& reply.control == 0xFF
            &&& d is Some && d->0.say.len() > 0 ==> reply.words == Some(spoken(d->0.say))
            &&& d is None || d->0.say.len() == 0 ==> reply.words == Some(spoken(raw))
        },
        spoken(raw).len() > 0 ==> answered_by_model(st, false, raw, d) == (
            st,
            ReplyView { control: 0xFFu8, words: Some(spoken(raw)) },
        ),
        spoken(raw).len() == 0 ==> answered_by_model(st, false, raw, d) == (
            st,
            ReplyView { control: 0xFFu8, words: None },
        ),
{
}

/// After a command ran it is said whether it worked, in the language of the yes.
pub proof fn outcome_is_said(russian: bool, ok: bool)
    ensures
        ran(russian, ok).control == 0xFF,
        ran(true, true).words == Some("Готово."@) && ran(false, true).words == Some("Done."@),
        ran(true, false).words == Some("Не получилось."@) && ran(false, false).words == Some(
            "That didn't work."@,
        ),
{
}

/// A volume command sends the device the level that was asked for, and says it; a request for
/// speaker mode, without a volume, sends the byte of that mode; anything else is asked of the
/// model. The plain chat and the local assistant agree on this.
pub proof fn device_commands_are_sent(st: State, h: HeardView)
    requires
        h.text.len() > 0,
    ensures
        volume_asked(h.low, h.again) matches Some(v) ==> openai_step(h) == StepView::Reply(
            ReplyView {
                control: v,
                words: Some("Volume set to "@ + decimal(v as nat) + "."@),
            },
        ),
        volume_asked(h.low, h.again) is None && speaker_in(h.low) ==> openai_step(h)
            == StepView::Reply(
            ReplyView {
                control: 0xFEu8,
                words: Some(
                    if speaks_russian(h.text) {
                        "Включаю режим колонки."@
                    } else {
                        "Speaker mode on."@
                    },
                ),
            },
        ),
        volume_asked(h.low, h.again) is None && !speaker_in(h.low) ==> openai_step(h)
            == StepView::Ask,
        windows_step(st, false, h).1 == openai_step(h),
        st.pending is None ==> windows_step(st, true, h) == (st, openai_step(h)),
{
    assert(st.pending is None ==> State { pending: None, ..st } == st);
}

/// "Volume" with a number from 0 to 100 sends that very number to the device.
pub proof fn spoken_level_is_sent(h: HeardView, a: Seq<char>, n: nat, b: Seq<char>)
    requires
        h.text.len() > 0,
        h.low == a + "volume "@ + decimal(n) + b,
        forall|i: int| 0 <= i < a.len() ==> !digit(#[trigger] a[i]),
        b.len() == 0 || !digit(b[0]),
        n <= 100,
    ensures
        openai_step(h) matches StepView::Reply(r) && r.control == n,
{
    spoken_level_is_set(a, n, b, h.again);
}

// ---------------------------------------------------------------- laws of skills

/// A choice of the volume sets the level that the model gave and tells the device that level;
/// without a level the volume stays. The words are those of the model, or the level.
pub proof fn chosen_level_is_sent(st: State, c: Setup, russian: bool, current: u8, b: BrainView)
    requires
        b.skill == "volume"@,
        current <= 100,
        b.level matches Some(v) ==> v <= 100,
    ensures
        ({
            let v = if b.level is Some {
                b.level->0
            } else {
                current
            };
            let (after, a) = chosen(st, c, russian, current, b);
            &&& after == st.with(Flags { last_volume: v, ..st.flags })
            &&& a matches ActionView::Reply(r) && r.control == v && r.words == Some(
                if b.say.len() > 0 {
                    b.say
                } else {
                    "Volume "@ + decimal(v as nat) + "."@
                },
            )
        }),
{
}

/// A choice of speaker mode sends the byte of that mode, or with a level the byte that also sets
/// the volume; without a level the volume stays.
pub proof fn chosen_speaker_mode_is_sent(
    st: State,
    c: Setup,
    russian: bool,
    current: u8,
    b: BrainView,
)
    requires
        b.skill == "speaker"@,
        b.level matches Some(v) ==> v <= 100,
    ensures
        ({
            let (after, a) = chosen(st, c, russian, current, b);
            &&& a matches ActionView::Reply(r) && r.words == Some(
                if b.say.len() > 0 {
                    b.say
                } else {
                    "Speaker mode on."@
                },
            ) && (match b.level {
                Some(v) => r.control == 128 + v && after == st.with(
                    Flags { last_volume: v, ..st.flags },
                ),
                None => r.control == 0xFE && after == st,
            })
        }),
{
    skills_differ();
}

/// A choice of radio with a station or an address looks for that station; without both, or where
/// the request is for the list, the favorites are read aloud, all of them and in order.
pub proof fn chosen_radio_is_looked_for(
    st: State,
    c: Setup,
    russian: bool,
    current: u8,
    b: BrainView,
)
    requires
        b.skill == "radio"@,
    ensures
        ({
            let (after, a) = chosen(st, c, russian, current, b);
            let names = joined(names_of(c.favorites), ", "@);
            let named = trim(b.url).len() > 0 || (trim(b.query).len() > 0 && !b.listing);
            &&& after == st
            &&& named ==> a == (ActionView::FindStation { query: b.query, url: b.url })
            &&& !named ==> (a matches ActionView::Reply(r) && r.control == 0xFF && (if b.say.len()
                > 0 {
                r.words == Some(b.say)
            } else if c.favorites.len() > 0 && russian {
                r.words == Some("Доступны: "@ + names + ". Назови станцию."@)
            } else if c.favorites.len() > 0 {
                r.words == Some("Available: "@ + names + ". Name a station."@)
            } else if russian {
                r.words == Some("Список станций пуст. Назови станцию, и я её найду."@)
            } else {
                r.words == Some("No stations saved. Name a station and I'll find it."@)
            }))
        }),
{
    skills_differ();
}

/// A choice of the compressor asks the relay for the action that the model named.
pub proof fn chosen_relay_action_is_asked(
    st: State,
    c: Setup,
    russian: bool,
    current: u8,
    b: BrainView,
)
    requires
        b.skill == "compressor"@,
    ensures
        chosen(st, c, russian, current, b).0 == st,
        b.action == "on"@ ==> chosen(st, c, russian, current, b).1 == (ActionView::Relay {
            action: RelayAction::On,
            russian,
        }),
        b.action == "off"@ ==> chosen(st, c, russian, current, b).1 == (ActionView::Relay {
            action: RelayAction::Off,
            russian,
        }),
        b.action == "toggle"@ ==> chosen(st, c, russian, current, b).1 == (ActionView::Relay {
            action: RelayAction::Toggle,
            russian,
        }),
        b.action == "status"@ ==> chosen(st, c, russian, current, b).1 == (ActionView::Relay {
            action: RelayAction::Status,
            russian,
        }),
{
    skills_differ();
    model_names_the_action(b.action);
}

/// Every other choice is an answer: its words are spoken, nothing changes, and an empty answer is
/// silent.
pub proof fn answer_is_spoken(st: State, c: Setup, russian: bool, current: u8, b: BrainView)
    requires
        b.skill != "volume"@ && b.skill != "speaker"@ && b.skill != "radio"@ && b.skill
            != "translate"@ && b.skill != "compressor"@,
    ensures
        chosen(st, c, russian, current, b) == (
            st,
            ActionView::Reply(
                ReplyView {
                    control: 0xFFu8,
                    words: if b.say.len() > 0 {
                        Some(b.say)
                    } else {
                        None
                    },
                },
            ),
        ),
{
}

/// Where the model chooses translate mode and the service has a key, the mode is on with the
/// language that the model named, or English where it named none, and the device keeps listening.
/// Without a key nothing changes.
pub proof fn chosen_language_is_kept(st: State, c: Setup, russian: bool, current: u8, b: BrainView)
    requires
        b.skill == "translate"@,
    ensures
        ({
            let (after, a) = chosen(st, c, russian, current, b);
            let language = if b.target.len() > 0 {
                b.target
            } else {
                "en"@
            };
            &&& c.can_translate ==> after == (State {
                flags: Flags { translate: true, ..st.flags },
                target: language,
                ..st
            })
            &&& c.can_translate ==> (a matches ActionView::Reply(r) && r.control == 0xFD && r.words
                == Some(
                if b.say.len() > 0 {
                    b.say
                } else if russian {
                    "Режим перевода включён, перевожу на «"@ + language + "»."@
                } else {
                    "Translate mode on, translating to "@ + language + "."@
                },
            ))
            &&& !c.can_translate ==> after == st && (a matches ActionView::Reply(r) && r.control
                == 0xFF && r.words == Some(
                if russian {
                    "Ключ переводчика не задан."@
                } else {
                    "Translation key is not set."@
                },
            ))
        }),
{
    skills_differ();
}

proof fn skills_differ()
    ensures
        "volume"@ != "speaker"@ && "volume"@ != "radio"@ && "volume"@ != "translate"@,
        "volume"@ != "compressor"@ && "speaker"@ != "radio"@ && "speaker"@ != "translate"@,
        "speaker"@ != "compressor"@ && "radio"@ != "translate"@ && "radio"@ != "compressor"@,
        "translate"@ != "compressor"@,
{
    reveal_strlit("volume");
    reveal_strlit("speaker");
    reveal_strlit("radio");
    reveal_strlit("translate");
    reveal_strlit("compressor");
    assert("volume"@[0] == 'v' && "speaker"@[0] == 's' && "radio"@[0] == 'r' && "translate"@[0]
        == 't' && "compressor"@[0] == 'c');
}

/// The language that was asked for is the one that is translated to: after the model chose
/// translate mode with a language, every phrase that reaches the mode, is worth an answer and does
/// not leave it is translated to that language.
pub proof fn asked_language_is_translated_to(
    st: State,
    c: Setup,
    russian: bool,
    current: u8,
    b: BrainView,
    h: HeardView,
)
    requires
        b.skill == "translate"@,
        c.can_translate,
        b.target.len() > 0 && b.target != "auto"@,
        h.text.len() > 0 && h.worth,
        !translate_exit_in(h.low),
    ensures
        ({
            let after = chosen(st, c, russian, current, b).0;
            &&& translate_step(after, true, h) == (
                after,
                Some(ActionView::Translate { text: h.text, target: b.target }),
            )
            &&& !st.flags.chat && !chat_enter_in(h.low) && settings_step(
                st.flags.dictation,
                h.low,
            ).1 is None && !external_in(h.low) && !transcribe_enter_in(h.low) ==> routed(
                after,
                c,
                h,
            ) == (after, ActionView::Translate { text: h.text, target: b.target })
        }),
{
    chosen_language_is_kept(st, c, russian, current, b);
    let after = chosen(st, c, russian, current, b).0;
    phrases_are_translated(after, true, h);
    reveal(chat_step);
}

/// What the model wrote is what is carried out: its choice, its level, its words cleaned for
/// speech, its station, its language and its action. A reply that is no choice is an answer.
pub proof fn model_reply_is_carried_out(raw: Seq<char>, j: Json, skill: Seq<char>, t: Seq<char>)
    ensures
        outer_json(raw) == Some(j) && j.field("skill"@) == Json::Text(skill) ==> {
            let b = brain_reply(raw);
            &&& b.skill == skill
            &&& j.field("say"@) == Json::Text(t) ==> b.say == spoken(t)
            &&& j.field("query"@) == Json::Text(t) ==> b.query == t && b.listing
                == list_request_in(lower(t))
            &&& j.field("url"@) == Json::Text(t) ==> b.url == t
            &&& j.field("target"@) == Json::Text(t) ==> b.target == lower(trim(t))
            &&& j.field("action"@) == Json::Text(t) ==> b.action == lower(trim(t))
            &&& j.field("level"@) matches Json::Unsigned(n) ==> n <= 100 ==> b.level == Some(
                n as u8,
            )
            &&& !(j.field("level"@) is Unsigned) ==> b.level is None
        },
        outer_json(raw) is None ==> brain_reply(raw).skill == "answer"@ && brain_reply(raw).level
            is None && brain_reply(raw).say == spoken(spoken(raw)),
{
}

/// Looking for a station ends with the station playing, or with the reason why it does not, in the
/// language of the request.
pub proof fn radio_outcome_is_said(russian: bool)
    ensures
        tuned(russian, true, true) == (ReplyView { control: 0xFEu8, words: None }),
        forall|started: bool|
            (#[trigger] tuned(russian, false, started)) == (ReplyView {
                control: 0xFFu8,
                words: Some(
                    if russian {
                        "Не нашла рабочую станцию, попробуй другую."@
                    } else {
                        "Couldn't find a working station, try another."@
                    },
                ),
            }),
        tuned(russian, true, false) == (ReplyView {
            control: 0xFFu8,
            words: Some(
                if russian {
                    "Не удалось запустить радио."@
                } else {
                    "Couldn't start the radio."@
                },
            ),
        }),
{
}

// ---------------------------------------------------------------- laws of routing

/// Silence is routed nowhere. A settings command is heard in every mode and sets only dictation; a
/// request for transcription is heard in every mode too, and answered in its language.
pub proof fn settings_and_transcription_come_first(st: State, c: Setup, h: HeardView)
    ensures
        h.text.len() == 0 ==> routed(st, c, h) == (
            st,
            ActionView::Reply(ReplyView { control: 0xFFu8, words: None }),
        ),
        h.text.len() > 0 ==> {
            let set = settings_step(st.flags.dictation, h.low);
            &&& set.1 matches Some(words) ==> routed(st, c, h) == (
                st.with(Flags { dictation: set.0, ..st.flags }),
                ActionView::Reply(ReplyView { control: 0xFFu8, words: Some(words) }),
            )
            &&& set.1 is None && transcribe_enter_in(h.low) ==> routed(st, c, h) == (
                st,
                ActionView::Reply(
                    ReplyView {
                        control: 0xFBu8,
                        words: Some(
                            if speaks_russian(h.text) {
                                "Режим транскрибации включён. Говорите."@
                            } else {
                                "Transcribe mode on. Speak now."@
                            },
                        ),
                    },
                ),
            )
        },
{
}

/// A phrase that no mode takes goes to the relay where it asks something of it and there is one;
/// else a favorite that it names plays at once, without the model; and else the model is asked. The
/// session stays as it was.
pub proof fn favorites_skip_the_model(st: State, c: Setup, h: HeardView)
    requires
        h.text.len() > 0,
        settings_step(st.flags.dictation, h.low).1 is None,
        !external_in(h.low) && !transcribe_enter_in(h.low),
        !st.flags.chat && !st.flags.translate && !st.flags.hacker && !st.flags.coding,
        !chat_enter_in(h.low) && !translate_enter_in(h.low) && !hacker_enter_in(h.low)
            && !coding_enter_in(h.low),
    ensures
        ({
            let (after, a) = routed(st, c, h);
            let relay = c.relay_host.len() > 0 && relay_asked(h.low) is Some;
            let favorite = favorite_named(normal(h.low), c.favorites);
            &&& after == st
            &&& relay ==> a == (ActionView::Relay {
                action: relay_asked(h.low)->0,
                russian: speaks_russian(h.text),
            })
            &&& favorite matches Some((name, url)) ==> !relay ==> a == (ActionView::TryRadio {
                name,
                url,
            })
            &&& !relay && favorite is None ==> a is AskBrain
        }),
{
    modes_are_entered(st, c.chat_dir, c.skills_intro, h);
    modes_are_entered(st, c.code_dir, c.coding_intro, h);
    assert(translate_step(st, c.can_translate, h).1 is None);
}

/// A phrase that neither sets dictation nor starts a transcription goes to the first of these that
/// takes it: chat mode, translate mode, hacker mode, coding mode.
pub proof fn modes_are_asked_in_order(st: State, c: Setup, h: HeardView)
    requires
        h.text.len() > 0,
        settings_step(st.flags.dictation, h.low).1 is None,
        !external_in(h.low) && !transcribe_enter_in(h.low),
    ensures
        ({
            let chat = chat_step(st, c.chat_dir, c.skills_intro, h);
            let translate = translate_step(st, c.can_translate, h);
            let hacker = hacker_step(st, h);
            let coding = coding_step(st, c.code_dir, c.coding_intro, h);
            let r = routed(st, c, h);
            &&& chat.1 matches Some(a) ==> r == (chat.0, a)
            &&& chat.1 is None && translate.1 is Some ==> r == (translate.0, translate.1->0)
            &&& chat.1 is None && translate.1 is None && hacker.1 is Some ==> r == (
                hacker.0,
                hacker.1->0,
            )
            &&& chat.1 is None && translate.1 is None && hacker.1 is None && coding.1 is Some ==> r
                == (coding.0, coding.1->0)
        }),
{
}

/// A reply of the model that holds a choice is carried out in the language of the utterance,
/// whatever the model wrote around it: the level that it gave is set, the language that it named is
/// the one that is translated to, and the words of an answer are spoken.
pub proof fn model_choice_is_carried_out(
    st: State,
    c: Setup,
    h: HeardView,
    current: u8,
    a: Seq<char>,
    o: Seq<char>,
    b: Seq<char>,
    j: Json,
    t: Seq<char>,
)
    requires
        o.len() >= 2 && o.first() == '{' && o.last() == '}',
        !a.contains('{'),
        !b.contains('}'),
        json_parse(o) == Some(j),
    ensures
        ({
            let (after, action) = decided(st, c, h, current, a + o + b);
            &&& j.field("skill"@) == Json::Text("volume"@) ==> (j.field("level"@) matches
                Json::Unsigned(n) ==> n <= 100 ==> after.flags.last_volume == n && (action matches
                ActionView::Reply(r) && r.control == n))
            &&& j.field("skill"@) == Json::Text("translate"@) && j.field("target"@) == Json::Text(t)
                && lower(trim(t)).len() > 0 && c.can_translate ==> after.flags.translate
                && after.target == lower(trim(t))
            &&& j.field("skill"@) == Json::Text("answer"@) && j.field("say"@) == Json::Text(t)
                && spoken(t).len() > 0 ==> after == st && action == ActionView::Reply(
                ReplyView { control: 0xFFu8, words: Some(spoken(t)) },
            )
            &&& j.field("skill"@) == Json::Text("radio"@) && j.field("url"@) == Json::Text(t)
                && trim(t).len() > 0 ==> after == st && (action matches ActionView::FindStation {
                query,
                url,
            } && url == t)
            &&& j.field("skill"@) == Json::Text("compressor"@) ==> (action matches
                ActionView::Relay { russian, .. } && russian == speaks_russian(h.text))
        }),
{
    object_is_found(a, o, b);
    skills_differ();
    reveal_strlit("answer");
    reveal_strlit("volume");
    reveal_strlit("speaker");
    reveal_strlit("radio");
    reveal_strlit("translate");
    reveal_strlit("compressor");
    assert("answer"@[0] == 'a' && "volume"@[0] == 'v' && "speaker"@[0] == 's' && "radio"@[0] == 'r'
        && "translate"@[0] == 't' && "compressor"@[0] == 'c');
}

/// A reply of the model that proposes a command makes it pending, whatever the model wrote around
/// the proposal; one that proposes none makes nothing pending. The plain chat speaks the answer.
pub proof fn model_proposal_is_remembered(
    st: State,
    a: Seq<char>,
    o: Seq<char>,
    b: Seq<char>,
    j: Json,
    cmd: Seq<char>,
)
    requires
        o.len() >= 2 && o.first() == '{' && o.last() == '}',
        !a.contains('{'),
        !b.contains('}'),
        json_parse(o) == Some(j),
    ensures
        j.field("action"@) == Json::Bool(true) && j.field("cmd"@) == Json::Text(cmd) && cmd.len()
            > 0 ==> model_answer(st, true, a + o + b).0 == (State { pending: Some(cmd), ..st }),
        j.field("action"@) != Json::Bool(true) ==> model_answer(st, true, a + o + b).0 == st,
        model_answer(st, false, a + o + b).0 == st,
        chat_answer(o) == (ReplyView { control: 0xFFu8, words: Some(spoken(o)) }),
{
    object_is_found(a, o, b);
}

/// The settings that routing reads are those of the server: each folder for its own mode, the
/// translation only with a key, the relay at its host, and the favorites as they are configured.
pub proof fn settings_reach_the_routing(cfg: Config, persona: Persona)
    ensures
        ({
            let c = setup_of(cfg, persona);
            &&& c.chat_dir == cfg.chat_dir@ && c.code_dir == cfg.code_dir@
            &&& c.can_translate <==> cfg.google_translate_key@.len() > 0
            &&& c.relay_host == cfg.compressor_host@
            &&& c.favorites.len() == cfg.radio_favorites@.len()
            &&& forall|i: int|
                0 <= i < c.favorites.len() ==> #[trigger] c.favorites[i] == cfg.radio_favorites@[i]@
            &&& c.skills_intro == persona.skills_intro@ && c.coding_intro == persona.coding_intro@
        }),
{
}

} // verus!
