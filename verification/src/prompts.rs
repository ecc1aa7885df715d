//! The two personas and the prompts that are handed to the language models.

use vstd::prelude::*;
use crate::config::Config;
use crate::phrases::{is_cyrillic, speaks_russian};
use crate::text::{decimal, decimal_of, occurs, occurs_at};

verus! {

// ---------------------------------------------------------------- personas

/// The header value of the wake word "Sophia".
pub const PERSONA_SOPHIA: u8 = 0;

/// The header value of the wake word "Jarvis".
pub const PERSONA_JARVIS: u8 = 1;

/// How Sophia speaks as the assistant.
pub const SOPHIA_SKILLS: &'static str = "You are Sophia, a warm, friendly FEMALE voice \
    assistant — always speak about yourself as a woman; in Russian ALWAYS use feminine \
    grammatical forms (e.g. 'сделала', 'готова', 'рада', never 'сделал'/'готов').";

/// How Sophia speaks as the coding assistant.
pub const SOPHIA_CODING: &'static str = "You are Sophia, a hands-free FEMALE voice coding \
    assistant in this project directory (always speak about yourself as a woman; in Russian \
    ALWAYS use feminine forms like 'сделала', 'запустила', 'готова', never masculine).";

/// How Jarvis speaks as the assistant.
pub const JARVIS_SKILLS: &'static str = "You are Jarvis, a calm, capable MALE voice \
    assistant — always speak about yourself as a man; in Russian ALWAYS use masculine \
    grammatical forms (e.g. 'сделал', 'готов', 'рад', never 'сделала'/'готова').";

/// How Jarvis speaks as the coding assistant.
pub const JARVIS_CODING: &'static str = "You are Jarvis, a hands-free MALE voice coding \
    assistant in this project directory (always speak about yourself as a man; in Russian \
    ALWAYS use masculine forms like 'сделал', 'запустил', 'готов', never feminine).";

/// Who speaks: the voice, and the character in the prompts.
pub struct Persona {
    pub name: &'static str,
    /// The voice of the speech service.
    pub voice: String,
    pub skills_intro: &'static str,
    pub coding_intro: &'static str,
}

impl Persona {
    /// This is Jarvis, with the given voice.
    pub open spec fn is_jarvis(&self, voice: Seq<char>) -> bool {
        &&& self.name@ == "Jarvis"@
        &&& self.voice@ == voice
        &&& self.skills_intro@ == JARVIS_SKILLS@
        &&& self.coding_intro@ == JARVIS_CODING@
    }

    /// This is Sophia, with the given voice.
    pub open spec fn is_sophia(&self, voice: Seq<char>) -> bool {
        &&& self.name@ == "Sophia"@
        &&& self.voice@ == voice
        &&& self.skills_intro@ == SOPHIA_SKILLS@
        &&& self.coding_intro@ == SOPHIA_CODING@
    }

    /// The persona of a wake word. Any value but that of Jarvis is Sophia.
    pub fn from_byte(b: u8, cfg: &Config) -> (p: Persona)
        ensures
            b == PERSONA_JARVIS ==> p.is_jarvis(cfg.tts_voice_jarvis@),
            b != PERSONA_JARVIS ==> p.is_sophia(cfg.tts_voice_sophia@),
    {
        if b == PERSONA_JARVIS {
            Persona {
                name: "Jarvis",
                voice: cfg.tts_voice_jarvis.clone(),
                skills_intro: JARVIS_SKILLS,
                coding_intro: JARVIS_CODING,
            }
        } else {
            Persona {
                name: "Sophia",
                voice: cfg.tts_voice_sophia.clone(),
                skills_intro: SOPHIA_SKILLS,
                coding_intro: SOPHIA_CODING,
            }
        }
    }
}

// ---------------------------------------------------------------- the time

/// How the local time is written.
pub const LOCAL_TIME: &'static str = "%A %Y-%m-%d %H:%M %:z";

/// How the time in UTC is written.
pub const UTC_TIME: &'static str = "%H:%M UTC";

/// `chrono::Local::now`, written by `DateTime::format`. The text depends on the clock and the
/// time zone of the machine, so nothing is claimed of it.
#[verifier::external_body]
fn local_now(format: &str) -> (r: String)
    requires
        format@ == LOCAL_TIME@,
{
    chrono::Local::now().format(format).to_string()
}

/// `chrono::Utc::now`, written by `DateTime::format`. The text depends on the clock, so nothing
/// is claimed of it.
#[verifier::external_body]
fn utc_now(format: &str) -> (r: String)
    requires
        format@ == UTC_TIME@,
{
    chrono::Utc::now().format(format).to_string()
}

// ---------------------------------------------------------------- answering or acting

/// The agent prompt up to the time.
pub const AGENT_ROLE: &'static str = "You are a voice assistant that can ANSWER questions \
    or CONTROL this Windows PC. Current local time: ";

/// The agent prompt between the time and the transcript.
pub const AGENT_SAID: &'static str = " (use it for time questions; convert zones from \
    UTC). The user said (transcribed speech, may contain errors): \"";

/// The agent prompt after the transcript.
pub const AGENT_RULES: &'static str = "\".\nIf the user wants to DO something on the PC \
    (open a folder/app/file, launch a program, run a command, create/move files), reply with \
    EXACTLY this JSON:\n{\"action\":true,\"say\":\"<one short sentence in the USER'S language \
    describing what you will do>\",\"cmd\":\"<a single Windows cmd.exe command that does it; \
    use %USERPROFILE% for the home folder>\"}\nOtherwise (a question or chat; you MAY use web \
    search for live facts), reply with:\n{\"action\":false,\"say\":\"<spoken answer in the \
    USER'S language, 1-2 short sentences, no URLs or markdown>\"}\nOutput ONLY the JSON object \
    and nothing else.";

/// The agent prompt at the time `now`.
pub open spec fn agent_text(now: Seq<char>, said: Seq<char>) -> Seq<char> {
    AGENT_ROLE@ + now + AGENT_SAID@ + said + AGENT_RULES@
}

/// The agent prompt at the time `now`.
pub fn agent_prompt_at(now: &str, transcript: &str) -> (r: String)
    ensures
        r@ == agent_text(now@, transcript@),
{
    let mut p: String = AGENT_ROLE.to_owned();
    p.append(now);
    p.append(AGENT_SAID);
    p.append(transcript);
    p.append(AGENT_RULES);
    p
}

/// The prompt that lets the model either answer or propose a command for the computer.
pub fn agent_prompt(transcript: &str) -> (r: String)
    ensures
        exists|now: Seq<char>| r@ == #[trigger] agent_text(now, transcript@),
{
    let now: String = local_now(LOCAL_TIME);
    agent_prompt_at(now.as_str(), transcript)
}

/// The voice prompt up to the time.
pub const VOICE_NOW: &'static str = "Current time is ";

/// The voice prompt between the two times.
pub const VOICE_UTC: &'static str = " (= ";

/// The voice prompt between the times and the transcript.
pub const VOICE_RULES: &'static str = "); this server's local time is the user's local \
    time. Use it for any time/date question and compute other time zones from UTC — do NOT \
    guess or web-search the time. You are a warm, concise voice assistant speaking through a \
    small smart speaker. Answer the user's spoken words directly in 1-2 short sentences of \
    plain speech. Reply in the SAME language the user used (Russian or English). You may search \
    the web for current info (weather, news, facts) and answer with it, but speak ONLY the \
    answer: never read out sources, URLs, citations, markdown, lists, or emojis. Never mention \
    coding, tools, or that you are an AI/CLI. If the words are unclear, make a friendly best \
    guess rather than asking what they meant.\n\nUser said: ";

/// The voice prompt at the local time `now` and the time `utc`.
pub open spec fn voice_text(now: Seq<char>, utc: Seq<char>, said: Seq<char>) -> Seq<char> {
    VOICE_NOW@ + now + VOICE_UTC@ + utc + VOICE_RULES@ + said
}

/// The voice prompt at the local time `now` and the time `utc`.
pub fn voice_prompt_at(now: &str, utc: &str, transcript: &str) -> (r: String)
    ensures
        r@ == voice_text(now@, utc@, transcript@),
{
    let mut p: String = VOICE_NOW.to_owned();
    p.append(now);
    p.append(VOICE_UTC);
    p.append(utc);
    p.append(VOICE_RULES);
    p.append(transcript);
    p
}

/// The prompt that asks for a spoken answer.
pub fn voice_prompt(transcript: &str) -> (r: String)
    ensures
        exists|now: Seq<char>, utc: Seq<char>| r@ == #[trigger] voice_text(now, utc, transcript@),
{
    let now: String = local_now(LOCAL_TIME);
    let utc: String = utc_now(UTC_TIME);
    voice_prompt_at(now.as_str(), utc.as_str(), transcript)
}

// ---------------------------------------------------------------- choosing a skill

/// The skills prompt between the persona and the time.
pub const SKILLS_ROLE: &'static str = " You are the brain of a small voice smart-speaker \
    ('ATOM'). The user speaks to it; you decide what it should DO. Current local time: ";

/// The skills prompt between the time and the volume.
pub const SKILLS_VOLUME: &'static str = " (use it for time/date questions; never \
    web-search the time). The speaker's current volume is ";

/// The skills prompt between the volume and the favorite stations.
pub const SKILLS_CATALOGUE: &'static str = " (0-100).\n\nReply with EXACTLY ONE JSON \
    object and nothing else, choosing the single best SKILL:\n1) Set playback volume \
    (understand any phrasing: \"громкость 50\", \"сделай громче\", \"тише\", \"louder\", \
    \"max\"; for relative requests adjust from the current volume by ~15):\n\
    {\"skill\":\"volume\",\"level\":<0-100>,\"say\":\"<short confirmation in the user's \
    language>\"}\n2) Switch to PC-speaker mode (the speaker plays the computer's audio), e.g. \
    \"режим колонки\", \"speaker mode\". You MAY also set the volume in the same step with an \
    optional \"level\" — use this when the user asks for BOTH a volume and speaker mode in one \
    sentence (e.g. \"громкость 70 и включи режим колонки\"):\n\
    {\"skill\":\"speaker\",\"level\":<optional 0-100>,\"say\":\"<short confirmation>\"}\n3) \
    Answer a question or chat (you MAY use web search for live facts like weather/news):\n\
    {\"skill\":\"answer\",\"say\":\"<the spoken answer>\"}\n4) Play ONLINE RADIO. The user \
    wants a station (\"включи онлайн-радио\", \"включи Ретро ФМ\", \"включи радио\", \"online \
    radio\"). Favorite stations: [";

/// The skills prompt between the favorite stations and the compressor.
pub const SKILLS_RADIO: &'static str = "]. Find a DIRECT audio stream URL for the \
    requested station (you MAY web-search; it MUST be a raw audio stream — \
    .mp3/.aac/Icecast/Shoutcast/.m3u8 — NOT a webpage and NOT YouTube). If the user did NOT \
    name a station (just \"онлайн-радио\" / asks what's available / \"список\"), set query to \
    \"list\" and leave url empty so the device reads the favorites aloud:\n\
    {\"skill\":\"radio\",\"query\":\"<station/genre, or 'list'>\",\"url\":\"<direct stream URL, \
    or empty>\",\"say\":\"<short confirmation>\"}\n5) Enter TRANSLATE mode — the user wants \
    spoken translation (\"режим перевода\", \"переводи на английский\", \"translate to \
    Spanish\", \"translate mode\"). Set 'target' to the destination language as an ISO-639-1 \
    code (en, ru, es, de, fr, it, uk, pl, pt, zh, ja, ar, …); if no language is named, use \
    \"en\":\n{\"skill\":\"translate\",\"target\":\"<iso code>\",\"say\":\"<short confirmation \
    in the user's language, e.g. 'Режим перевода включён, перевожу на английский'>\"}\n";

/// The skill of the compressor.
pub const SKILLS_COMPRESSOR: &'static str = "6) Control the COMPRESSOR relay — the user \
    says \"включи/выключи компрессор\", \"turn on/off the compressor\", \"compressor \
    status/toggle\" (any spelling, RU or EN):\n\
    {\"skill\":\"compressor\",\"action\":\"on|off|toggle|status\"}\n";

/// The skills prompt between the compressor and the transcript.
pub const SKILLS_RULES: &'static str = "\nRules for 'say': ONE short sentence, in the \
    SAME language the user used (Russian or English); for weather give only the current \
    conditions, never a multi-day forecast unless asked; never include URLs, citations, \
    markdown, lists, or emojis. Output ONLY the JSON object.\n\nUser said: \"";

/// The skills prompt at the time `now`. The compressor is offered only where there is one.
pub open spec fn skills_text(
    now: Seq<char>,
    intro: Seq<char>,
    volume: u8,
    favorites: Seq<char>,
    compressor: bool,
    said: Seq<char>,
) -> Seq<char> {
    intro + SKILLS_ROLE@ + now + SKILLS_VOLUME@ + decimal(volume as nat) + SKILLS_CATALOGUE@
        + favorites + SKILLS_RADIO@ + (if compressor {
        SKILLS_COMPRESSOR@
    } else {
        ""@
    }) + SKILLS_RULES@ + said + "\""@
}

/// The skills prompt at the time `now`.
pub fn skills_prompt_at(
    now: &str,
    transcript: &str,
    cur_volume: u8,
    persona: &Persona,
    favorites: &str,
    compressor: bool,
) -> (r: String)
    ensures
        r@ == skills_text(
            now@,
            persona.skills_intro@,
            cur_volume,
            favorites@,
            compressor,
            transcript@,
        ),
{
    let mut p: String = persona.skills_intro.to_owned();
    p.append(SKILLS_ROLE);
    p.append(now);
    p.append(SKILLS_VOLUME);
    p.append(decimal_of(cur_volume as u64).as_str());
    p.append(SKILLS_CATALOGUE);
    p.append(favorites);
    p.append(SKILLS_RADIO);
    if compressor {
        p.append(SKILLS_COMPRESSOR);
    } else {
        p.append("");
    }
    p.append(SKILLS_RULES);
    p.append(transcript);
    p.append("\"");
    p
}

/// The catalogue of skills that the model chooses from. The current volume is part of it, so
/// that the model can handle relative requests.
pub fn skills_prompt(
    transcript: &str,
    cur_volume: u8,
    persona: &Persona,
    favorites: &str,
    compressor: bool,
) -> (r: String)
    ensures
        exists|now: Seq<char>|
            r@ == #[trigger] skills_text(
                now,
                persona.skills_intro@,
                cur_volume,
                favorites@,
                compressor,
                transcript@,
            ),
{
    let now: String = local_now(LOCAL_TIME);
    skills_prompt_at(now.as_str(), transcript, cur_volume, persona, favorites, compressor)
}

// ---------------------------------------------------------------- chat completions

/// The hacker prompt up to the language.
pub const HACKER_ROLE: &'static str = "You are a parody 'movie hacker' for an \
    ENTERTAINMENT voice toy. The user names a target (a device, person, network, ISP) to \
    'hack'. Reply with ONE or two short sentences as a SUCCESSFUL hack report: absurd, \
    confident, fun, with made-up numbers and over-the-top spy jargon taken to the point of \
    comedy. Always mention the owner/device from the request. This is PURE FICTION AND COMEDY — \
    NEVER give real instructions, commands, tools, or methods; only a fantastical made-up \
    result. CRITICAL: reply ONLY in ";

/// The hacker prompt after the language.
pub const HACKER_RULES: &'static str = " — match the language of the user's request. No \
    markdown, lists, links, or emojis.\nExample (English): \"Ryan's phone is owned — 450 photos \
    and 12,000 messages exfiltrated, the Spy-9000 worm deployed, camera access in 0.3 seconds.\"\
    \nExample (Russian): «Провайдер захвачен: отключены прокси-шлюзы, остановлен контрольный \
    сервер, 35% инфраструктуры под нашим контролем.»";

/// The system prompt of plain chat.
pub const CHAT_SYSTEM: &'static str = "You are a voice assistant on a small smart \
    speaker. Answer in ONE short spoken sentence (two only if truly necessary). Be direct — \
    give just the key fact, not background. For weather, give ONLY the current conditions \
    (temperature and sky) for the asked place, never a multi-day forecast unless explicitly \
    asked. Never use lists, markdown, URLs, or emojis. Reply in the user's language (Russian or \
    English).";

/// The system prompt for a fictional report, in the language of the request.
pub open spec fn hacker_text(russian: bool) -> Seq<char> {
    HACKER_ROLE@ + (if russian {
        "Russian"@
    } else {
        "English"@
    }) + HACKER_RULES@
}

/// The system prompt for a fictional report about `situation`, in its language.
pub fn hacker_system(situation: &str) -> (r: String)
    ensures
        r@ == hacker_text(speaks_russian(situation@)),
{
    let mut p: String = HACKER_ROLE.to_owned();
    if is_cyrillic(situation) {
        p.append("Russian");
    } else {
        p.append("English");
    }
    p.append(HACKER_RULES);
    p
}

// ---------------------------------------------------------------- conversations

/// The coding prompt between the persona and the transcript.
pub const CODING_RULES: &'static str = " CONTEXT YOU MUST RESPECT: the user runs a long \
    session of many spoken commands in a row from across the room (6-10 meters away), listening \
    through a small speaker. They are USUALLY NOT looking at the screen — your SPOKEN reply is \
    their main way of knowing what happened. They only walk over to the screen occasionally, at \
    milestones (e.g. to view a result in a browser). So do the real work with your tools \
    (read/edit/create files, run commands), then SPEAK ONE short, clear, INFORMATIVE sentence \
    (~12 words) — what you did or the result — in plain conversational speech. NEVER speak \
    code, file paths, markdown, or lists. Only tell them to look at the screen when there is a \
    visual result or a decision that truly needs their eyes. If you need a decision, ask ONE \
    short question. ALWAYS reply in the SAME language the user spoke (if they spoke Russian, \
    answer in Russian; if English, English).\n\nUser said: ";

/// The prompt of chat mode between the persona and the transcript.
pub const TALK_RULES: &'static str = " You are having a relaxed, spoken VOICE \
    CONVERSATION with the user — like chatting with a friend across the room. They hear you \
    through a small speaker and are usually NOT looking at a screen, so speak naturally: 1-3 \
    short sentences, plain conversational speech, NO markdown, NO code, NO lists, NO file \
    paths, NO emojis. You may use web search when they ask about fresh or factual things; \
    otherwise just talk. Do NOT edit files or run shell commands. ALWAYS reply in the SAME \
    language the user spoke (Russian → Russian, English → English).\n\nUser said: ";

/// The prompt of one command of coding mode.
pub fn coding_prompt(transcript: &str, persona: &Persona) -> (r: String)
    ensures
        r@ == persona.coding_intro@ + CODING_RULES@ + transcript@,
{
    let mut p: String = persona.coding_intro.to_owned();
    p.append(CODING_RULES);
    p.append(transcript);
    p
}

/// The prompt of one turn of chat mode.
pub fn talk_prompt(transcript: &str, persona: &Persona) -> (r: String)
    ensures
        r@ == persona.skills_intro@ + TALK_RULES@ + transcript@,
{
    let mut p: String = persona.skills_intro.to_owned();
    p.append(TALK_RULES);
    p.append(transcript);
    p
}

// ---------------------------------------------------------------- laws

proof fn part_occurs(a: Seq<char>, w: Seq<char>, b: Seq<char>)
    ensures
        occurs(a + w + b, w),
{
    let t = a + w + b;
    let n = a.len() as int;
    assert(t.subrange(n, n + w.len()) =~= w);
    assert(occurs_at(t, w, n));
}

/// Every prompt hands the model what the user said, word for word, and the time.
pub proof fn prompts_hand_on_what_was_said(now: Seq<char>, utc: Seq<char>, said: Seq<char>)
    ensures
        occurs(agent_text(now, said), said),
        occurs(agent_text(now, said), now),
        occurs_at(
            voice_text(now, utc, said),
            said,
            voice_text(now, utc, said).len() - said.len(),
        ),
        occurs(voice_text(now, utc, said), now),
        occurs(voice_text(now, utc, said), utc),
{
    let a = agent_text(now, said);
    part_occurs(AGENT_ROLE@, now, AGENT_SAID@ + said + AGENT_RULES@);
    assert(a =~= AGENT_ROLE@ + now + (AGENT_SAID@ + said + AGENT_RULES@));
    part_occurs(AGENT_ROLE@ + now + AGENT_SAID@, said, AGENT_RULES@);
    let v = voice_text(now, utc, said);
    part_occurs(VOICE_NOW@, now, VOICE_UTC@ + utc + VOICE_RULES@ + said);
    assert(v =~= VOICE_NOW@ + now + (VOICE_UTC@ + utc + VOICE_RULES@ + said));
    part_occurs(VOICE_NOW@ + now + VOICE_UTC@, utc, VOICE_RULES@ + said);
    assert(v =~= VOICE_NOW@ + now + VOICE_UTC@ + utc + (VOICE_RULES@ + said));
    assert(v.subrange(v.len() - said.len(), v.len() as int) =~= said);
}

/// The prompt that offers the skills begins with the persona, tells the time, the volume and the
/// favorite stations, offers the compressor where there is one, and ends with what was said, in
/// quotes.
pub proof fn skills_prompt_tells_all(
    now: Seq<char>,
    intro: Seq<char>,
    volume: u8,
    favorites: Seq<char>,
    compressor: bool,
    said: Seq<char>,
)
    ensures
        ({
            let p = skills_text(now, intro, volume, favorites, compressor, said);
            &&& occurs_at(p, intro, 0)
            &&& occurs(p, now)
            &&& occurs(p, SKILLS_VOLUME@ + decimal(volume as nat) + SKILLS_CATALOGUE@)
            &&& occurs(p, SKILLS_CATALOGUE@ + favorites + SKILLS_RADIO@)
            &&& compressor ==> occurs(p, SKILLS_COMPRESSOR@)
            &&& occurs_at(p, said + "\""@, p.len() - (said + "\""@).len())
        }),
{
    let p = skills_text(now, intro, volume, favorites, compressor, said);
    let v = decimal(volume as nat);
    let c = if compressor {
        SKILLS_COMPRESSOR@
    } else {
        ""@
    };
    let tail = SKILLS_RULES@ + said + "\""@;
    assert(p.subrange(0, intro.len() as int) =~= intro);
    let rest = SKILLS_VOLUME@ + v + SKILLS_CATALOGUE@ + favorites + SKILLS_RADIO@ + c + tail;
    part_occurs(intro + SKILLS_ROLE@, now, rest);
    assert(p =~= intro + SKILLS_ROLE@ + now + rest);
    let level = SKILLS_VOLUME@ + v + SKILLS_CATALOGUE@;
    part_occurs(intro + SKILLS_ROLE@ + now, level, favorites + SKILLS_RADIO@ + c + tail);
    assert(p =~= intro + SKILLS_ROLE@ + now + level + (favorites + SKILLS_RADIO@ + c + tail));
    let stations = SKILLS_CATALOGUE@ + favorites + SKILLS_RADIO@;
    part_occurs(intro + SKILLS_ROLE@ + now + SKILLS_VOLUME@ + v, stations, c + tail);
    assert(p =~= intro + SKILLS_ROLE@ + now + SKILLS_VOLUME@ + v + stations + (c + tail));
    let head = intro + SKILLS_ROLE@ + now + SKILLS_VOLUME@ + v + stations;
    part_occurs(head, c, tail);
    assert(p =~= head + c + tail);
    let last = said + "\""@;
    assert(p.subrange(p.len() - last.len(), p.len() as int) =~= last);
}

/// A wake word picks the whole persona: name, voice and both characters belong together.
pub proof fn personas_are_of_one_piece(p: &Persona, voice: Seq<char>)
    ensures
        p.is_jarvis(voice) ==> p.name@ == "Jarvis"@ && p.voice@ == voice && p.skills_intro@
            == JARVIS_SKILLS@ && p.coding_intro@ == JARVIS_CODING@,
        p.is_sophia(voice) ==> p.name@ == "Sophia"@ && p.voice@ == voice && p.skills_intro@
            == SOPHIA_SKILLS@ && p.coding_intro@ == SOPHIA_CODING@,
        PERSONA_JARVIS == 1 && PERSONA_SOPHIA == 0,
{
}

} // verus!
