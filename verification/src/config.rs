//! Settings: the environment, the `.env` file and what the server makes of them.

use vstd::prelude::*;
use crate::dictation::{Dictation, Method, Separator};
use crate::radio::{parse_stations, station_entries, stations, RadioStation};
use crate::speech::{fold_text, folded};
use crate::text::{
    all_white, char_from, chars_of, decimal, decimal_of, first_of, first_of_is_first, joined, lower,
    opt_text, pieces, read_unsigned, same, split, splitting_undoes_joining, texts, trim, trim_end,
    trimmed, trimmed_right, trimming_takes_outer_space, unsigned_reads_back, unsigned_value,
    white_space, Sep,
};

verus! {

// ---------------------------------------------------------------- lines of a settings file

/// `c` ends the white space before an inline comment.
pub open spec fn blank(c: char) -> bool {
    c == ' ' || c == '\t'
}

/// An inline comment begins at `i`: a `#` right after a space or a tab.
pub open spec fn comment_at(v: Seq<char>, i: int) -> bool {
    0 < i < v.len() && v[i] == '#' && blank(v[i - 1])
}

/// Where the inline comment of `v` begins, from `from` on.
pub open spec fn comment_from(v: Seq<char>, from: int) -> Option<int>
    decreases v.len() - from,
{
    if from >= v.len() {
        None
    } else if comment_at(v, from) {
        Some(from)
    } else {
        comment_from(v, from + 1)
    }
}

/// `v` without an inline comment.
pub open spec fn without_comment(v: Seq<char>) -> Seq<char> {
    match comment_from(v, 0) {
        Some(i) => trim_end(v.take(i)),
        None => v,
    }
}

/// `v` begins and ends with the quote `q`.
pub open spec fn quoted_by(v: Seq<char>, q: char) -> bool {
    v.len() >= 2 && v.first() == q && v.last() == q
}

/// `v` without the quotes around it.
pub open spec fn unquoted(v: Seq<char>) -> Seq<char> {
    if quoted_by(v, '"') || quoted_by(v, '\'') {
        v.subrange(1, v.len() - 1)
    } else {
        v
    }
}

/// The key and the value that a line assigns. An empty line, a comment line, and a line
/// without an equals sign or without a key assign nothing.
pub open spec fn line_entry(line: Seq<char>) -> Option<(Seq<char>, Seq<char>)> {
    let l = trim(line);
    if l.len() == 0 || l[0] == '#' {
        None
    } else {
        match first_of(l, '=') {
            Some(i) => {
                let key = trim(l.take(i));
                if key.len() == 0 {
                    None
                } else {
                    Some((key, unquoted(without_comment(trim(l.skip(i + 1))))))
                }
            },
            None => None,
        }
    }
}

/// The assignments of a list of lines, in order.
pub open spec fn line_entries(lines: Seq<Seq<char>>) -> Seq<(Seq<char>, Seq<char>)>
    decreases lines.len(),
{
    if lines.len() == 0 {
        Seq::empty()
    } else {
        let before = line_entries(lines.drop_last());
        match line_entry(lines.last()) {
            Some(e) => before.push(e),
            None => before,
        }
    }
}

/// The assignments of a settings file, in order.
pub open spec fn file_entries(content: Seq<char>) -> Seq<(Seq<char>, Seq<char>)> {
    line_entries(pieces(content, Sep::Mark('\n')))
}

/// The values of a list of assignments.
pub open spec fn pair_texts(v: Seq<(String, String)>) -> Seq<(Seq<char>, Seq<char>)> {
    Seq::new(v.len(), |i: int| (v[i].0@, v[i].1@))
}

fn drop_comment(s: String) -> (r: String)
    ensures
        r@ == without_comment(s@),
{
    let v: Vec<char> = chars_of(s.as_str());
    let n: usize = v.len();
    let mut i: usize = 0;
    while i < n
        invariant
            n == v@.len(),
            v@ == s@,
            0 <= i <= n,
            comment_from(s@, 0) == comment_from(s@, i as int),
        decreases n - i,
    {
        if i > 0 && v[i] == '#' && (v[i - 1] == ' ' || v[i - 1] == '\t') {
            assert(s@.take(i as int) == s@.subrange(0, i as int));
            return trimmed_right(s.as_str().substring_char(0, i));
        }
        i += 1;
    }
    s
}

fn drop_quotes(s: String) -> (r: String)
    ensures
        r@ == unquoted(s@),
{
    let v: Vec<char> = chars_of(s.as_str());
    let n: usize = v.len();
    if n >= 2 && ((v[0] == '"' && v[n - 1] == '"') || (v[0] == '\'' && v[n - 1] == '\'')) {
        s.as_str().substring_char(1, n - 1).to_owned()
    } else {
        s
    }
}

/// Reads the assignment of a line.
pub fn parse_line(line: &str) -> (r: Option<(String, String)>)
    ensures
        match r {
            Some((k, v)) => line_entry(line@) == Some((k@, v@)),
            None => line_entry(line@) is None,
        },
{
    let l: String = trimmed(line);
    let c: Vec<char> = chars_of(l.as_str());
    let n: usize = c.len();
    if n == 0 || c[0] == '#' {
        return None;
    }
    assert(c@.skip(0) == c@);
    match char_from(c.as_slice(), '=', 0) {
        Some(i) => {
            assert(l@.take(i as int) == l@.subrange(0, i as int));
            assert(l@.skip(i + 1) == l@.subrange(i + 1, n as int));
            let key: String = trimmed(l.as_str().substring_char(0, i));
            if key.as_str().is_empty() {
                return None;
            }
            let value: String = trimmed(l.as_str().substring_char(i + 1, n));
            Some((key, drop_quotes(drop_comment(value))))
        },
        None => None,
    }
}

/// Reads the assignments of a settings file: `KEY=VALUE` on a line, `#` for comments, quotes
/// around a value optional.
pub fn dotenv_entries(content: &str) -> (r: Vec<(String, String)>)
    ensures
        pair_texts(r@) == file_entries(content@),
{
    let lines: Vec<String> = split(content, Sep::Mark('\n'));
    let mut r: Vec<(String, String)> = Vec::new();
    let mut i: usize = 0;
    assert(pair_texts(r@) =~= line_entries(texts(lines@).take(0)));
    while i < lines.len()
        invariant
            0 <= i <= lines@.len(),
            pair_texts(r@) == line_entries(texts(lines@).take(i as int)),
        decreases lines@.len() - i,
    {
        let ghost done = r@;
        assert(texts(lines@).take(i + 1).drop_last() == texts(lines@).take(i as int));
        assert(texts(lines@).take(i + 1).last() == lines@[i as int]@);
        if let Some((k, v)) = parse_line(lines[i].as_str()) {
            let ghost e = (k@, v@);
            r.push((k, v));
            assert(pair_texts(r@) =~= pair_texts(done).push(e));
        }
        i += 1;
    }
    assert(texts(lines@).take(i as int) == texts(lines@));
    r
}

// ---------------------------------------------------------------- the environment

/// The variables that a list of assignments leaves, of which the first one to a key stays.
pub open spec fn first_wins(e: Seq<(Seq<char>, Seq<char>)>) -> Map<Seq<char>, Seq<char>>
    decreases e.len(),
{
    if e.len() == 0 {
        Map::empty()
    } else {
        let before = first_wins(e.drop_last());
        if before.dom().contains(e.last().0) {
            before
        } else {
            before.insert(e.last().0, e.last().1)
        }
    }
}

/// The variables of the process.
pub struct Environment {
    vars: Vec<(String, String)>,
}

impl View for Environment {
    type V = Map<Seq<char>, Seq<char>>;

    closed spec fn view(&self) -> Map<Seq<char>, Seq<char>> {
        first_wins(pair_texts(self.vars@))
    }
}

/// The variables `base`, and those of `e` for the keys that `base` lacks.
pub open spec fn with_defaults(
    base: Map<Seq<char>, Seq<char>>,
    e: Seq<(Seq<char>, Seq<char>)>,
) -> Map<Seq<char>, Seq<char>>
    decreases e.len(),
{
    if e.len() == 0 {
        base
    } else {
        let before = with_defaults(base, e.drop_last());
        if before.dom().contains(e.last().0) {
            before
        } else {
            before.insert(e.last().0, e.last().1)
        }
    }
}

proof fn first_wins_at(e: Seq<(Seq<char>, Seq<char>)>, i: int)
    requires
        0 <= i < e.len(),
        forall|j: int| 0 <= j < i ==> #[trigger] e[j].0 != e[i].0,
    ensures
        first_wins(e).dom().contains(e[i].0),
        first_wins(e)[e[i].0] == e[i].1,
    decreases e.len(),
{
    let d = e.drop_last();
    if i < e.len() - 1 {
        assert(d[i] == e[i]);
        assert forall|j: int| 0 <= j < i implies #[trigger] d[j].0 != d[i].0 by {
            assert(e[j].0 != e[i].0);
        }
        first_wins_at(d, i);
    } else {
        assert forall|j: int| 0 <= j < d.len() implies #[trigger] d[j].0 != e[i].0 by {
            assert(e[j].0 != e[i].0);
        }
        first_wins_absent(d, e[i].0);
    }
}

proof fn first_wins_absent(e: Seq<(Seq<char>, Seq<char>)>, key: Seq<char>)
    requires
        forall|j: int| 0 <= j < e.len() ==> #[trigger] e[j].0 != key,
    ensures
        !first_wins(e).dom().contains(key),
    decreases e.len(),
{
    if e.len() > 0 {
        let d = e.drop_last();
        assert forall|j: int| 0 <= j < d.len() implies #[trigger] d[j].0 != key by {
            assert(e[j].0 != key);
        }
        first_wins_absent(d, key);
        assert(e[e.len() - 1].0 != key);
    }
}

/// The value of a variable.
pub open spec fn lookup(env: Map<Seq<char>, Seq<char>>, key: Seq<char>) -> Option<Seq<char>> {
    if env.dom().contains(key) {
        Some(env[key])
    } else {
        None
    }
}

/// The value of a variable, or the default.
pub open spec fn lookup_or(
    env: Map<Seq<char>, Seq<char>>,
    key: Seq<char>,
    default: Seq<char>,
) -> Seq<char> {
    if env.dom().contains(key) {
        env[key]
    } else {
        default
    }
}

impl Environment {
    /// The environment of a process with the given variables.
    pub fn new(vars: Vec<(String, String)>) -> (e: Environment)
        ensures
            e@ == first_wins(pair_texts(vars@)),
    {
        Environment { vars }
    }

    /// The value of a variable.
    pub fn get(&self, key: &str) -> (r: Option<String>)
        ensures
            opt_text(r) == lookup(self@, key@),
    {
        let mut i: usize = 0;
        let ghost e = pair_texts(self.vars@);
        while i < self.vars.len()
            invariant
                0 <= i <= self.vars@.len(),
                e == pair_texts(self.vars@),
                forall|j: int| 0 <= j < i ==> #[trigger] e[j].0 != key@,
            decreases self.vars@.len() - i,
        {
            assert(e[i as int] == (self.vars@[i as int].0@, self.vars@[i as int].1@));
            if same(self.vars[i].0.as_str(), key) {
                proof {
                    first_wins_at(e, i as int);
                }
                return Some(self.vars[i].1.clone());
            }
            i += 1;
        }
        proof {
            first_wins_absent(e, key@);
        }
        None
    }

    /// Sets a variable that has no value yet.
    pub fn set_default(&mut self, key: String, value: String)
        ensures
            final(self)@ == (if old(self)@.dom().contains(key@) {
                old(self)@
            } else {
                old(self)@.insert(key@, value@)
            }),
    {
        let ghost before = pair_texts(self.vars@);
        let ghost e = (key@, value@);
        self.vars.push((key, value));
        assert(pair_texts(self.vars@) =~= before.push(e));
        assert(before.push(e).drop_last() =~= before);
    }
}

/// Adds the settings of a file to the environment. A variable that has a value keeps it.
pub fn load_dotenv(env: &mut Environment, content: &str)
    ensures
        final(env)@ == with_defaults(old(env)@, file_entries(content@)),
{
    let entries: Vec<(String, String)> = dotenv_entries(content);
    let ghost all = file_entries(content@);
    let mut i: usize = 0;
    assert(all.take(0) =~= Seq::empty());
    while i < entries.len()
        invariant
            0 <= i <= entries@.len(),
            all == pair_texts(entries@),
            env@ == with_defaults(old(env)@, all.take(i as int)),
        decreases entries@.len() - i,
    {
        assert(all.take(i + 1).drop_last() =~= all.take(i as int));
        assert(all.take(i + 1).last() == (entries@[i as int].0@, entries@[i as int].1@));
        env.set_default(entries[i].0.clone(), entries[i].1.clone());
        i += 1;
    }
    assert(all.take(i as int) =~= all);
}

/// Variables of the real environment win over those of the file.
pub proof fn environment_overrides_file(
    base: Map<Seq<char>, Seq<char>>,
    e: Seq<(Seq<char>, Seq<char>)>,
    key: Seq<char>,
)
    requires
        base.dom().contains(key),
    ensures
        with_defaults(base, e).dom().contains(key),
        with_defaults(base, e)[key] == base[key],
    decreases e.len(),
{
    if e.len() > 0 {
        environment_overrides_file(base, e.drop_last(), key);
    }
}

/// A key that the real environment lacks gets the first value that the file assigns to it.
pub proof fn file_supplies_the_rest(
    base: Map<Seq<char>, Seq<char>>,
    e: Seq<(Seq<char>, Seq<char>)>,
    key: Seq<char>,
)
    requires
        !base.dom().contains(key),
    ensures
        lookup(with_defaults(base, e), key) == lookup(first_wins(e), key),
    decreases e.len(),
{
    if e.len() > 0 {
        file_supplies_the_rest(base, e.drop_last(), key);
    }
}

/// The value of a variable, or the default.
pub fn env_or(env: &Environment, key: &str, default: &str) -> (r: String)
    ensures
        r@ == lookup_or(env@, key@, default@),
{
    match env.get(key) {
        Some(v) => v,
        None => default.to_owned(),
    }
}

// ---------------------------------------------------------------- single settings

/// An unsigned setting, or the default where it does not read as a number of that size.
pub open spec fn unsigned_or(s: Seq<char>, max: nat, default: nat) -> nat {
    match unsigned_value(s, max) {
        Some(n) => n,
        None => default,
    }
}

fn number_or(s: &str, max: u64, default: u64) -> (n: u64)
    requires
        default <= max,
    ensures
        n == unsigned_or(s@, max as nat, default as nat),
        n <= max,
{
    match read_unsigned(s, max) {
        Some(n) => n,
        None => default,
    }
}

/// Live dictation is on unless the lowered setting says no.
pub open spec fn typing_set(low: Seq<char>) -> bool {
    low != "0"@ && low != "false"@ && low != "no"@ && low != "off"@
}

/// Whether live dictation is on, for a setting that is trimmed and lowered.
pub fn type_focus_setting(low: &str) -> (b: bool)
    ensures
        b == typing_set(low@),
{
    !(same(low, "0") || same(low, "false") || same(low, "no") || same(low, "off"))
}

/// The separator that a lowered setting names; a new line where it names none.
pub open spec fn separator_set(low: Seq<char>) -> Separator {
    if low == "space"@ || low == "пробел"@ || low == "0"@ {
        Separator::Space
    } else if low == "none"@ || low == "joined"@ || low == "слитно"@ || low == "no"@ || low
        == "2"@ {
        Separator::Joined
    } else {
        Separator::NewLine
    }
}

/// The separator, for a setting that is trimmed and lowered.
pub fn separator_setting(low: &str) -> (r: Separator)
    ensures
        r == separator_set(low@),
{
    if same(low, "space") || same(low, "пробел") || same(low, "0") {
        Separator::Space
    } else if same(low, "none") || same(low, "joined") || same(low, "слитно") || same(low, "no")
        || same(low, "2") {
        Separator::Joined
    } else {
        Separator::NewLine
    }
}

/// The way of delivery that a lowered setting names; the clipboard where it names none.
pub open spec fn method_set(low: Seq<char>) -> Method {
    if low == "type"@ || low == "native"@ || low == "sendinput"@ || low == "keys"@ || low
        == "1"@ {
        Method::Keys
    } else {
        Method::Paste
    }
}

/// The way of delivery, for a setting that is trimmed and lowered.
pub fn method_setting(low: &str) -> (r: Method)
    ensures
        r == method_set(low@),
{
    if same(low, "type") || same(low, "native") || same(low, "sendinput") || same(low, "keys")
        || same(low, "1") {
        Method::Keys
    } else {
        Method::Paste
    }
}

/// The state of live dictation that the settings give.
pub open spec fn dictation_set(env: Map<Seq<char>, Seq<char>>) -> Dictation {
    Dictation {
        typing: typing_set(lower(trim(lookup_or(env, "TYPE_INTO_FOCUS"@, ""@)))),
        separator: separator_set(lower(trim(lookup_or(env, "TRANSCRIBE_SEP"@, ""@)))),
        method: method_set(lower(trim(lookup_or(env, "DICTATION_METHOD"@, ""@)))),
        started: false,
    }
}

/// The state of live dictation at the start of the server.
pub fn dictation_settings(env: &Environment) -> (d: Dictation)
    ensures
        d.typing == typing_set(lower(trim(lookup_or(env@, "TYPE_INTO_FOCUS"@, ""@)))),
        d.separator == separator_set(lower(trim(lookup_or(env@, "TRANSCRIBE_SEP"@, ""@)))),
        d.method == method_set(lower(trim(lookup_or(env@, "DICTATION_METHOD"@, ""@)))),
        !d.started,
        d == dictation_set(env@),
{
    let tf: String = trimmed(env_or(env, "TYPE_INTO_FOCUS", "").as_str()).as_str().to_lowercase();
    let sep: String = trimmed(env_or(env, "TRANSCRIBE_SEP", "").as_str()).as_str().to_lowercase();
    let dm: String = trimmed(env_or(env, "DICTATION_METHOD", "").as_str()).as_str().to_lowercase();
    Dictation {
        typing: type_focus_setting(tf.as_str()),
        separator: separator_setting(sep.as_str()),
        method: method_setting(dm.as_str()),
        started: false,
    }
}

/// The events of a streaming session are logged where the setting says yes: it is there, and
/// it is none of the words for no.
pub open spec fn debug_set(value: Option<Seq<char>>) -> bool {
    match value {
        Some(v) => {
            let low = folded(trim(v));
            low.len() > 0 && low != "0"@ && low != "false"@ && low != "no"@ && low != "off"@
        },
        None => false,
    }
}

/// Whether the events of a streaming session are logged.
pub fn debug_realtime(env: &Environment) -> (b: bool)
    ensures
        b == debug_set(lookup(env@, "REALTIME_DEBUG"@)),
{
    match env.get("REALTIME_DEBUG") {
        Some(v) => {
            let low: String = fold_text(trimmed(v.as_str()).as_str());
            let low: &str = low.as_str();
            !(low.is_empty() || same(low, "0") || same(low, "false") || same(low, "no") || same(
                low,
                "off",
            ))
        },
        None => false,
    }
}

/// The number of settings for favorite stations.
pub const RADIO_FAVORITES: u64 = 20;

/// The settings for favorite stations `1` to `n`, in order.
pub open spec fn favorite_settings(env: Map<Seq<char>, Seq<char>>, n: nat) -> Seq<Seq<char>> {
    Seq::new(n, |i: int| lookup_or(env, "RADIO_FAV_"@ + decimal((i + 1) as nat), ""@))
}

/// Reads the favorite stations from the settings `RADIO_FAV_1` to `RADIO_FAV_20`, each `Name`,
/// `Name | address` or `Name | address | alias, alias`.
pub fn load_radio_favorites(env: &Environment) -> (r: Vec<RadioStation>)
    ensures
        stations(r@) == station_entries(favorite_settings(env@, RADIO_FAVORITES as nat)),
{
    let mut raw: Vec<String> = Vec::new();
    let ghost all = favorite_settings(env@, RADIO_FAVORITES as nat);
    let mut i: u64 = 0;
    while i < RADIO_FAVORITES
        invariant
            0 <= i <= RADIO_FAVORITES,
            all == favorite_settings(env@, RADIO_FAVORITES as nat),
            texts(raw@) == all.take(i as int),
        decreases RADIO_FAVORITES - i,
    {
        let ghost done = raw@;
        let mut key: String = "RADIO_FAV_".to_owned();
        key.append(decimal_of(i + 1).as_str());
        let v: String = env_or(env, key.as_str(), "");
        let ghost vv = v@;
        raw.push(v);
        i += 1;
        assert(texts(raw@) =~= texts(done).push(vv));
        assert(all.take(i as int) =~= all.take(i - 1).push(all[i - 1]));
    }
    assert(all.take(i as int) =~= all);
    parse_stations(&raw)
}

// ---------------------------------------------------------------- the configuration

/// The settings of the server.
pub struct Config {
    pub api_key: String,
    pub port: u16,
    pub chat_model: String,
    pub tts_model: String,
    pub tts_voice_sophia: String,
    pub stt_model: String,
    pub mode: String,
    /// `sapi` (recognition of the operating system) or `whisper` (a local service).
    pub stt_engine: String,
    pub stt_url: String,
    pub tts_speed: String,
    /// Spoken commands may run actions on the computer, after a spoken confirmation.
    pub agent: bool,
    pub debug_wav: bool,
    /// Folder of coding mode.
    pub code_dir: String,
    /// Folder of chat mode, whose conversation stays apart from that of coding mode.
    pub chat_dir: String,
    pub tts_voice_jarvis: String,
    /// Seconds of silence after which transcribe mode ends.
    pub transcribe_timeout_secs: u64,
    pub realtime_model: String,
    /// Milliseconds of silence that end a phrase of a streaming session.
    pub realtime_silence_ms: u64,
    pub google_translate_key: String,
    pub radio_favorites: Vec<RadioStation>,
    /// Host of the compressor relay; empty where there is none.
    pub compressor_host: String,
    /// Beginning of the local address on the network of the compressor.
    pub compressor_net: String,
}

/// The name of the mode; `low` is the lowered setting.
pub open spec fn mode_name(env: Map<Seq<char>, Seq<char>>, low: Seq<char>) -> Seq<char> {
    if env.dom().contains("LOOPBACK"@) {
        "loopback"@
    } else {
        low
    }
}

/// The mode talks to OpenAI and needs a key.
pub open spec fn needs_key(mode: Seq<char>) -> bool {
    mode == "openai"@ || mode == "skills"@
}

/// The folder of chat mode: the setting, or `default` where it is blank.
pub open spec fn chat_folder(setting: Seq<char>, default: Seq<char>) -> Seq<char> {
    if trim(setting).len() == 0 {
        default
    } else {
        setting
    }
}

impl Config {
    /// The settings `env`, with `mode` and the recognition engine in lower case and
    /// `chat_default` for the folder of chat mode.
    pub open spec fn set_by(
        &self,
        env: Map<Seq<char>, Seq<char>>,
        mode: Seq<char>,
        engine: Seq<char>,
        chat_default: Seq<char>,
    ) -> bool {
        &&& self.api_key@ == (if needs_key(mode) {
            lookup_or(env, "OPENAI_API_KEY"@, Seq::empty())
        } else {
            Seq::empty()
        })
        &&& self.port == unsigned_or(lookup_or(env, "PORT"@, "9000"@), u16::MAX as nat, 9000)
        &&& self.chat_model@ == lookup_or(env, "CHAT_MODEL"@, "gpt-4o-mini"@)
        &&& self.tts_model@ == lookup_or(env, "TTS_MODEL"@, "gpt-4o-mini-tts"@)
        &&& self.tts_voice_sophia@ == lookup_or(env, "TTS_VOICE_SOPHIA"@, "nova"@)
        &&& self.stt_model@ == lookup_or(env, "STT_MODEL"@, "whisper-1"@)
        &&& self.mode@ == mode
        &&& self.stt_engine@ == engine
        &&& self.stt_url@ == lookup_or(env, "STT_URL"@, "http://127.0.0.1:9100/stt"@)
        &&& self.tts_speed@ == lookup_or(env, "TTS_SPEED"@, "1.3"@)
        &&& self.agent == (lookup_or(env, "AGENT"@, "1"@) != "0"@)
        &&& self.debug_wav == env.dom().contains("DEBUG_WAV"@)
        &&& self.code_dir@ == lookup_or(env, "CODE_DIR"@, "C:/Users/gravi/voice-code"@)
        &&& self.chat_dir@ == chat_folder(lookup_or(env, "CHAT_DIR"@, ""@), chat_default)
        &&& self.tts_voice_jarvis@ == lookup_or(env, "TTS_VOICE_JARVIS"@, "onyx"@)
        &&& self.transcribe_timeout_secs == unsigned_or(
            lookup_or(env, "TRANSCRIBE_TIMEOUT"@, "60"@),
            u64::MAX as nat,
            60,
        )
        &&& self.realtime_model@ == lookup_or(env, "REALTIME_MODEL"@, "gpt-4o-transcribe"@)
        &&& self.realtime_silence_ms == unsigned_or(
            lookup_or(env, "REALTIME_SILENCE_MS"@, "1500"@),
            u64::MAX as nat,
            1500,
        )
        &&& self.google_translate_key@ == lookup_or(env, "GOOGLE_TRANSLATE_API_KEY"@, ""@)
        &&& stations(self.radio_favorites@) == station_entries(
            favorite_settings(env, RADIO_FAVORITES as nat),
        )
        &&& self.compressor_host@ == trim(lookup_or(env, "COMPRESSOR_HOST"@, ""@))
        &&& self.compressor_net@ == trim(lookup_or(env, "COMPRESSOR_NET"@, "192.168.3."@))
    }
}

/// Why the settings cannot be used.
pub enum ConfigError {
    /// The mode needs `OPENAI_API_KEY`.
    MissingKey { mode: String },
}

impl ConfigError {
    /// The message of the error.
    pub fn message(&self) -> (r: String)
        ensures
            self matches ConfigError::MissingKey { mode } && r@ == "MODE="@ + mode@
                + " needs OPENAI_API_KEY (for Whisper STT + TTS)"@,
    {
        match self {
            ConfigError::MissingKey { mode } => {
                let mut m: String = "MODE=".to_owned();
                m.append(mode.as_str());
                m.append(" needs OPENAI_API_KEY (for Whisper STT + TTS)");
                m
            },
        }
    }
}

/// `load_config` with the mode and the recognition engine already in lower case.
pub fn config_with(
    env: &Environment,
    mode: String,
    engine: String,
    chat_default: &str,
) -> (r: Result<Config, ConfigError>)
    ensures
        match r {
            Ok(c) => c.set_by(env@, mode@, engine@, chat_default@) && (needs_key(mode@)
                ==> env@.dom().contains("OPENAI_API_KEY"@)),
            Err(ConfigError::MissingKey { mode: m }) => m@ == mode@ && needs_key(mode@)
                && !env@.dom().contains("OPENAI_API_KEY"@),
        },
{
    let api_key: String = if same(mode.as_str(), "openai") || same(mode.as_str(), "skills") {
        match env.get("OPENAI_API_KEY") {
            Some(k) => k,
            None => {
                return Err(ConfigError::MissingKey { mode });
            },
        }
    } else {
        String::new()
    };
    let chat_dir: String = env_or(env, "CHAT_DIR", "");
    let chat_dir: String = if trimmed(chat_dir.as_str()).as_str().is_empty() {
        chat_default.to_owned()
    } else {
        chat_dir
    };
    let port: u64 = number_or(env_or(env, "PORT", "9000").as_str(), 0xffff, 9000);
    let transcribe_timeout_secs: u64 = number_or(
        env_or(env, "TRANSCRIBE_TIMEOUT", "60").as_str(),
        u64::MAX,
        60,
    );
    let realtime_silence_ms: u64 = number_or(
        env_or(env, "REALTIME_SILENCE_MS", "1500").as_str(),
        u64::MAX,
        1500,
    );
    let agent: bool = !same(env_or(env, "AGENT", "1").as_str(), "0");
    Ok(
        Config {
            api_key,
            port: port as u16,
            chat_model: env_or(env, "CHAT_MODEL", "gpt-4o-mini"),
            tts_model: env_or(env, "TTS_MODEL", "gpt-4o-mini-tts"),
            tts_voice_sophia: env_or(env, "TTS_VOICE_SOPHIA", "nova"),
            stt_model: env_or(env, "STT_MODEL", "whisper-1"),
            mode,
            stt_engine: engine,
            stt_url: env_or(env, "STT_URL", "http://127.0.0.1:9100/stt"),
            tts_speed: env_or(env, "TTS_SPEED", "1.3"),
            agent,
            debug_wav: env.get("DEBUG_WAV").is_some(),
            code_dir: env_or(env, "CODE_DIR", "C:/Users/gravi/voice-code"),
            chat_dir,
            tts_voice_jarvis: env_or(env, "TTS_VOICE_JARVIS", "onyx"),
            transcribe_timeout_secs,
            realtime_model: env_or(env, "REALTIME_MODEL", "gpt-4o-transcribe"),
            realtime_silence_ms,
            google_translate_key: env_or(env, "GOOGLE_TRANSLATE_API_KEY", ""),
            radio_favorites: load_radio_favorites(env),
            compressor_host: trimmed(env_or(env, "COMPRESSOR_HOST", "").as_str()),
            compressor_net: trimmed(env_or(env, "COMPRESSOR_NET", "192.168.3.").as_str()),
        },
    )
}

/// The mode that the settings name, in lower case.
pub open spec fn mode_set(env: Map<Seq<char>, Seq<char>>) -> Seq<char> {
    mode_name(env, lower(lookup_or(env, "MODE"@, "windows"@)))
}

/// The recognition engine that the settings name, in lower case.
pub open spec fn engine_set(env: Map<Seq<char>, Seq<char>>) -> Seq<char> {
    lower(lookup_or(env, "STT_ENGINE"@, "whisper"@))
}

/// Reads the settings of the server. `chat_default` is the folder of chat mode where none is
/// set.
pub fn load_config(env: &Environment, chat_default: &str) -> (r: Result<Config, ConfigError>)
    ensures
        ({
            let mode = mode_set(env@);
            let engine = engine_set(env@);
            match r {
                Ok(c) => c.set_by(env@, mode, engine, chat_default@) && (needs_key(mode)
                    ==> env@.dom().contains("OPENAI_API_KEY"@)),
                Err(ConfigError::MissingKey { mode: m }) => m@ == mode && needs_key(mode)
                    && !env@.dom().contains("OPENAI_API_KEY"@),
            }
        }),
{
    let mode: String = if env.get("LOOPBACK").is_some() {
        "loopback".to_owned()
    } else {
        env_or(env, "MODE", "windows").as_str().to_lowercase()
    };
    let engine: String = env_or(env, "STT_ENGINE", "whisper").as_str().to_lowercase();
    config_with(env, mode, engine, chat_default)
}

// ---------------------------------------------------------------- laws of settings files

proof fn first_equals(key: Seq<char>, rest: Seq<char>)
    requires
        !key.contains('='),
    ensures
        first_of(key.push('=') + rest, '=') == Some(key.len() as int),
{
    let l = key.push('=') + rest;
    first_of_is_first(l, '=');
    assert(l[key.len() as int] == '=');
    assert forall|j: int| 0 <= j < key.len() implies l[j] != '=' by {
        assert(key.contains(key[j]));
    }
}

proof fn line_is_split(key: Seq<char>, a: Seq<char>, b: Seq<char>, value: Seq<char>)
    requires
        all_white(a) && all_white(b),
        key.len() > 0 && !white_space(key.first()) && !white_space(key.last()),
        key[0] != '#' && !key.contains('='),
        value.len() > 0 ==> !white_space(value.first()) && !white_space(value.last()),
    ensures
        line_entry((key + a).push('=') + (b + value)) == Some(
            (key, unquoted(without_comment(value))),
        ),
{
    let e = Seq::<char>::empty();
    let left = key + a;
    let right = b + value;
    let line = left.push('=') + right;
    assert forall|i: int| 0 <= i < left.len() implies left[i] != '=' by {
        if i < key.len() {
            assert(key.contains(key[i]));
        } else {
            assert(white_space(a[i - key.len()]));
        }
    }
    if value.len() > 0 {
        assert(line.first() == key.first() && line.last() == value.last());
        trimming_takes_outer_space(e, line, e);
        first_equals(left, right);
        assert(line.take(left.len() as int) =~= left);
        assert(line.skip(left.len() as int + 1) =~= right);
    } else {
        assert(value =~= e);
        let l = left.push('=');
        assert(line =~= e + l + b);
        assert(l.first() == key.first() && l.last() == '=');
        trimming_takes_outer_space(e, l, b);
        first_equals(left, e);
        assert(left.push('=') + e =~= l);
        assert(l.take(left.len() as int) =~= left);
        assert(l.skip(left.len() as int + 1) =~= e);
        trimming_takes_outer_space(e, e, e);
        assert(e + e + e =~= e);
    }
    trimming_takes_outer_space(e, key, a);
    assert(e + key + a =~= left);
    trimming_takes_outer_space(b, value, e);
    assert(b + value + e =~= right);
}

proof fn no_comment_is_found(v: Seq<char>, from: int)
    requires
        0 <= from,
        forall|i: int| from <= i < v.len() ==> !#[trigger] comment_at(v, i),
    ensures
        comment_from(v, from) is None,
    decreases v.len() - from,
{
    if from < v.len() {
        assert(!comment_at(v, from));
        no_comment_is_found(v, from + 1);
    }
}

proof fn first_comment_is_found(v: Seq<char>, from: int, at: int)
    requires
        0 <= from <= at < v.len(),
        comment_at(v, at),
        forall|i: int| from <= i < at ==> !#[trigger] comment_at(v, i),
    ensures
        comment_from(v, from) == Some(at),
    decreases at - from,
{
    if from < at {
        assert(!comment_at(v, from));
        first_comment_is_found(v, from + 1, at);
    }
}

/// A line `KEY=VALUE` assigns the value to the key as it stands there, whatever white space stands
/// around the equals sign. A `#` that follows no blank belongs to the value.
pub proof fn assignment_is_read(key: Seq<char>, a: Seq<char>, b: Seq<char>, value: Seq<char>)
    requires
        all_white(a) && all_white(b),
        key.len() > 0 && !white_space(key.first()) && !white_space(key.last()),
        key[0] != '#' && !key.contains('='),
        value.len() > 0 ==> !white_space(value.first()) && !white_space(value.last()),
        forall|i: int|
            0 < i < value.len() && #[trigger] value[i] == '#' ==> value[i - 1] != ' ' && value[i
                - 1] != '\t',
        value.len() >= 2 ==> !(value.first() == '"' && value.last() == '"') && !(value.first()
            == '\'' && value.last() == '\''),
    ensures
        line_entry((key + a).push('=') + (b + value)) == Some((key, value)),
{
    line_is_split(key, a, b, value);
    assert forall|i: int| 0 <= i < value.len() implies !#[trigger] comment_at(value, i) by {
        if comment_at(value, i) {
            assert(value[i] == '#');
        }
    }
    no_comment_is_found(value, 0);
}

/// Quotes around a value are taken off, and everything between them is kept.
pub proof fn quotes_are_taken_off(key: Seq<char>, q: char, value: Seq<char>)
    requires
        q == '"' || q == '\'',
        key.len() > 0 && !white_space(key.first()) && !white_space(key.last()),
        key[0] != '#' && !key.contains('='),
        forall|i: int|
            0 < i < value.len() && #[trigger] value[i] == '#' ==> value[i - 1] != ' ' && value[i
                - 1] != '\t',
    ensures
        line_entry(key.push('=') + (seq![q] + value).push(q)) == Some((key, value)),
{
    let e = Seq::<char>::empty();
    let v = (seq![q] + value).push(q);
    line_is_split(key, e, e, v);
    assert((key + e).push('=') + (e + v) =~= key.push('=') + v);
    assert forall|i: int| 0 <= i < v.len() implies !#[trigger] comment_at(v, i) by {
        if comment_at(v, i) {
            if i >= 2 {
                assert(v[i] == value[i - 1] && v[i - 1] == value[i - 2]);
                assert(value[i - 1] == '#');
            }
        }
    }
    no_comment_is_found(v, 0);
    assert(v.subrange(1, v.len() - 1) =~= value);
}

/// A comment behind a value, after a blank, is left out together with the blanks before it.
pub proof fn comment_is_left_out(
    key: Seq<char>,
    value: Seq<char>,
    blanks: Seq<char>,
    comment: Seq<char>,
)
    requires
        key.len() > 0 && !white_space(key.first()) && !white_space(key.last()),
        key[0] != '#' && !key.contains('='),
        value.len() > 0 && !white_space(value.first()) && !white_space(value.last()),
        !value.contains('#'),
        !(value.len() >= 2 && (value.first() == '"' && value.last() == '"' || value.first() == '\''
            && value.last() == '\'')),
        blanks.len() > 0,
        forall|i: int| 0 <= i < blanks.len() ==> #[trigger] blanks[i] == ' ',
        comment.len() > 0 ==> !white_space(comment.last()),
    ensures
        line_entry(key.push('=') + ((value + blanks).push('#') + comment)) == Some((key, value)),
{
    let e = Seq::<char>::empty();
    let v = (value + blanks).push('#') + comment;
    let n = value.len() + blanks.len() as int;
    assert(v.first() == value.first());
    assert(comment.len() == 0 ==> v.last() == '#');
    assert(comment.len() > 0 ==> v.last() == comment.last());
    line_is_split(key, e, e, v);
    assert((key + e).push('=') + (e + v) =~= key.push('=') + v);
    assert(v[n] == '#' && v[n - 1] == blanks[blanks.len() - 1]);
    assert forall|i: int| 0 <= i < n implies !#[trigger] comment_at(v, i) by {
        if i < value.len() {
            assert(value.contains(value[i]));
        } else {
            assert(v[i] == blanks[i - value.len()]);
        }
    }
    first_comment_is_found(v, 0, n);
    assert(v.take(n) =~= e + value + blanks);
    assert(all_white(blanks)) by {
        assert forall|i: int| 0 <= i < blanks.len() implies white_space(#[trigger] blanks[i]) by {
            assert(blanks[i] == ' ');
        }
    }
    end_is_trimmed(value, blanks);
    assert(e + value + blanks =~= value + blanks);
}

proof fn end_is_trimmed(s: Seq<char>, b: Seq<char>)
    requires
        all_white(b),
        s.len() > 0 && !white_space(s.last()),
    ensures
        trim_end(s + b) == s,
    decreases b.len(),
{
    if b.len() == 0 {
        assert(s + b =~= s);
    } else {
        assert(white_space(b[b.len() - 1]));
        assert((s + b).last() == b[b.len() - 1]);
        assert((s + b).drop_last() =~= s + b.drop_last());
        assert forall|i: int| 0 <= i < b.drop_last().len() implies white_space(
            #[trigger] b.drop_last()[i],
        ) by {
            assert(white_space(b[i]));
        }
        end_is_trimmed(s, b.drop_last());
    }
}

/// A blank line, a comment line and a line without an equals sign assign nothing.
pub proof fn other_lines_assign_nothing(line: Seq<char>)
    ensures
        trim(line).len() == 0 ==> line_entry(line) is None,
        trim(line).len() > 0 && trim(line)[0] == '#' ==> line_entry(line) is None,
        !trim(line).contains('=') ==> line_entry(line) is None,
{
    first_of_is_first(trim(line), '=');
    if first_of(trim(line), '=') is Some {
        assert(trim(line).contains(trim(line)[first_of(trim(line), '=')->0]));
    }
}

/// The lines of a file are read one by one, in order.
pub proof fn lines_are_read_in_order(a: Seq<Seq<char>>, b: Seq<Seq<char>>, line: Seq<char>)
    ensures
        line_entries(a + b) == line_entries(a) + line_entries(b),
        line_entries(seq![line]) == (match line_entry(line) {
            Some(e) => seq![e],
            None => Seq::empty(),
        }),
        a.len() > 0 && (forall|k: int| 0 <= k < a.len() ==> !(#[trigger] a[k]).contains('\n'))
            ==> file_entries(joined(a, seq!['\n'])) == line_entries(a),
    decreases b.len(),
{
    if a.len() > 0 && (forall|k: int| 0 <= k < a.len() ==> !(#[trigger] a[k]).contains('\n')) {
        splitting_undoes_joining(a, '\n');
    }
    assert(seq![line].drop_last() =~= Seq::empty());
    assert(line_entries(seq![line].drop_last()) =~= Seq::empty());
    assert(line_entries(seq![line]) =~= (match line_entry(line) {
        Some(e) => seq![e],
        None => Seq::empty(),
    }));
    if b.len() == 0 {
        assert(a + b =~= a);
        assert(line_entries(a) + line_entries(b) =~= line_entries(a));
    } else {
        lines_are_read_in_order(a, b.drop_last(), line);
        assert((a + b).drop_last() =~= a + b.drop_last());
        assert(line_entries(a + b) =~= line_entries(a) + line_entries(b));
    }
}

/// Of several assignments to a key the first one counts, and a key without an assignment has no
/// value.
pub proof fn first_assignment_counts(e: Seq<(Seq<char>, Seq<char>)>, i: int, key: Seq<char>)
    ensures
        0 <= i < e.len() && e[i].0 == key && (forall|j: int|
            0 <= j < i ==> #[trigger] e[j].0 != key)
            ==> lookup(first_wins(e), key) == Some(e[i].1),
        (forall|j: int| 0 <= j < e.len() ==> #[trigger] e[j].0 != key) ==> lookup(
            first_wins(e),
            key,
        ) is None,
{
    if 0 <= i < e.len() && e[i].0 == key && (forall|j: int|
        0 <= j < i ==> #[trigger] e[j].0 != key) {
        first_wins_at(e, i);
    }
    if forall|j: int| 0 <= j < e.len() ==> #[trigger] e[j].0 != key {
        first_wins_absent(e, key);
    }
}

/// Variables of the process win over the file, whose first assignment to a key counts; a key in
/// neither has no value.
pub proof fn settings_come_from_both(
    base: Map<Seq<char>, Seq<char>>,
    e: Seq<(Seq<char>, Seq<char>)>,
    i: int,
    key: Seq<char>,
)
    ensures
        base.dom().contains(key) ==> lookup(with_defaults(base, e), key) == Some(base[key]),
        !base.dom().contains(key) && 0 <= i < e.len() && e[i].0 == key && (forall|j: int|
            0 <= j < i ==> #[trigger] e[j].0 != key) ==> lookup(with_defaults(base, e), key)
            == Some(e[i].1),
        !base.dom().contains(key) && (forall|j: int| 0 <= j < e.len() ==> #[trigger] e[j].0 != key)
            ==> lookup(with_defaults(base, e), key) is None,
{
    first_assignment_counts(e, i, key);
    if base.dom().contains(key) {
        environment_overrides_file(base, e, key);
    } else {
        file_supplies_the_rest(base, e, key);
    }
}

// ---------------------------------------------------------------- laws of single settings

/// Live dictation is off for these values and on for every other one, also where nothing is set.
pub proof fn these_values_switch_typing_off(low: Seq<char>)
    ensures
        !typing_set("0"@) && !typing_set("false"@) && !typing_set("no"@) && !typing_set("off"@),
        !typing_set(low) ==> low == "0"@ || low == "false"@ || low == "no"@ || low == "off"@,
        typing_set(Seq::empty()),
{
    reveal_strlit("0");
    reveal_strlit("false");
    reveal_strlit("no");
    reveal_strlit("off");
    assert("0"@.len() == 1 && "false"@.len() == 5 && "no"@.len() == 2 && "off"@.len() == 3);
}

/// The separator is a space or nothing for these values, and a new line for every other one.
pub proof fn these_values_set_the_separator(low: Seq<char>)
    ensures
        separator_set("space"@) == Separator::Space && separator_set("пробел"@) == Separator::Space
            && separator_set("0"@) == Separator::Space,
        separator_set("none"@) == Separator::Joined && separator_set("joined"@)
            == Separator::Joined && separator_set("слитно"@) == Separator::Joined && separator_set(
            "no"@,
        ) == Separator::Joined && separator_set("2"@) == Separator::Joined,
        low != "space"@ && low != "пробел"@ && low != "0"@ && low != "none"@ && low != "joined"@
            && low != "слитно"@ && low != "no"@ && low != "2"@ ==> separator_set(low)
            == Separator::NewLine,
{
    reveal_strlit("space");
    reveal_strlit("пробел");
    reveal_strlit("0");
    reveal_strlit("none");
    reveal_strlit("joined");
    reveal_strlit("слитно");
    reveal_strlit("no");
    reveal_strlit("2");
    assert("space"@[0] == 's' && "пробел"@[0] == 'п' && "0"@[0] == '0' && "none"@[0] == 'n'
        && "joined"@[0] == 'j' && "слитно"@[0] == 'с' && "no"@[0] == 'n' && "2"@[0] == '2');
}

/// Phrases are typed by key strokes for these values, and pasted for every other one.
pub proof fn these_values_set_the_method(low: Seq<char>)
    ensures
        method_set("type"@) == Method::Keys && method_set("native"@) == Method::Keys && method_set(
            "sendinput"@,
        ) == Method::Keys && method_set("keys"@) == Method::Keys && method_set("1"@)
            == Method::Keys,
        low != "type"@ && low != "native"@ && low != "sendinput"@ && low != "keys"@ && low != "1"@
            ==> method_set(low) == Method::Paste,
{
}

/// Events are logged where the setting is there and is none of the words for no, in any case and
/// with white space around it.
pub proof fn these_values_switch_logging_off(v: Seq<char>)
    ensures
        !debug_set(None),
        trim(v).len() == 0 ==> !debug_set(Some(v)),
        folded(trim(v)) == "0"@ || folded(trim(v)) == "false"@ || folded(trim(v)) == "no"@
            || folded(trim(v)) == "off"@ ==> !debug_set(Some(v)),
        trim(v).len() > 0 && folded(trim(v)) != "0"@ && folded(trim(v)) != "false"@ && folded(
            trim(v),
        ) != "no"@ && folded(trim(v)) != "off"@ ==> debug_set(Some(v)),
{
}

/// There are twenty settings for favorite stations, numbered from 1 on.
pub proof fn favorites_are_numbered(env: Map<Seq<char>, Seq<char>>, i: int)
    requires
        0 <= i < 20,
    ensures
        ({
            let all = favorite_settings(env, RADIO_FAVORITES as nat);
            let key = "RADIO_FAV_"@ + decimal((i + 1) as nat);
            &&& all.len() == 20
            &&& env.dom().contains(key) ==> all[i] == env[key]
            &&& !env.dom().contains(key) ==> all[i] == ""@
        }),
{
}

/// The value `v` is that of the variable, or the default where it is not set.
pub open spec fn taken(
    env: Map<Seq<char>, Seq<char>>,
    key: Seq<char>,
    default: Seq<char>,
    v: Seq<char>,
) -> bool {
    &&& env.dom().contains(key) ==> v == env[key]
    &&& !env.dom().contains(key) ==> v == default
}

/// Every setting comes from the variable of its own name, and has this default where it is not set.
pub proof fn settings_have_these_defaults(
    c: &Config,
    env: Map<Seq<char>, Seq<char>>,
    mode: Seq<char>,
    engine: Seq<char>,
    chat_default: Seq<char>,
)
    requires
        c.set_by(env, mode, engine, chat_default),
    ensures
        taken(env, "CHAT_MODEL"@, "gpt-4o-mini"@, c.chat_model@),
        taken(env, "TTS_MODEL"@, "gpt-4o-mini-tts"@, c.tts_model@),
        taken(env, "TTS_VOICE_SOPHIA"@, "nova"@, c.tts_voice_sophia@),
        taken(env, "TTS_VOICE_JARVIS"@, "onyx"@, c.tts_voice_jarvis@),
        taken(env, "STT_MODEL"@, "whisper-1"@, c.stt_model@),
        taken(env, "STT_URL"@, "http://127.0.0.1:9100/stt"@, c.stt_url@),
        taken(env, "TTS_SPEED"@, "1.3"@, c.tts_speed@),
        taken(env, "CODE_DIR"@, "C:/Users/gravi/voice-code"@, c.code_dir@),
        taken(env, "REALTIME_MODEL"@, "gpt-4o-transcribe"@, c.realtime_model@),
        taken(env, "GOOGLE_TRANSLATE_API_KEY"@, ""@, c.google_translate_key@),
        c.mode@ == mode && c.stt_engine@ == engine,
        mode == "openai"@ || mode == "skills"@ ==> taken(
            env,
            "OPENAI_API_KEY"@,
            Seq::empty(),
            c.api_key@,
        ),
        mode != "openai"@ && mode != "skills"@ ==> c.api_key@ == Seq::<char>::empty(),
        c.agent == !(env.dom().contains("AGENT"@) && env["AGENT"@] == "0"@),
        c.debug_wav == env.dom().contains("DEBUG_WAV"@),
        env.dom().contains("CHAT_DIR"@) && trim(env["CHAT_DIR"@]).len() > 0 ==> c.chat_dir@
            == env["CHAT_DIR"@],
        env.dom().contains("CHAT_DIR"@) && trim(env["CHAT_DIR"@]).len() == 0 ==> c.chat_dir@
            == chat_default,
        env.dom().contains("COMPRESSOR_HOST"@) ==> c.compressor_host@ == trim(
            env["COMPRESSOR_HOST"@],
        ),
        env.dom().contains("COMPRESSOR_NET"@) ==> c.compressor_net@ == trim(env["COMPRESSOR_NET"@]),
        !env.dom().contains("CHAT_DIR"@) ==> c.chat_dir@ == chat_default,
        !env.dom().contains("COMPRESSOR_HOST"@) ==> c.compressor_host@ == ""@,
        !env.dom().contains("COMPRESSOR_NET"@) ==> c.compressor_net@ == "192.168.3."@,
{
    let e = Seq::<char>::empty();
    reveal_strlit("");
    reveal_strlit("192.168.3.");
    trimming_takes_outer_space(e, ""@, e);
    trimming_takes_outer_space(e, "192.168.3."@, e);
    reveal_strlit("1");
    reveal_strlit("0");
    assert("1"@[0] != "0"@[0]);
}

/// The numbers among the settings are those that their variables write in decimal digits, where
/// they fit; with any other value, or none, the port is 9000, transcribe mode ends after 60 seconds
/// and a streamed phrase after 1500 milliseconds.
pub proof fn numbers_have_these_defaults(
    c: &Config,
    env: Map<Seq<char>, Seq<char>>,
    mode: Seq<char>,
    engine: Seq<char>,
    chat_default: Seq<char>,
    n: nat,
)
    requires
        c.set_by(env, mode, engine, chat_default),
    ensures
        env.dom().contains("PORT"@) && env["PORT"@] == decimal(n) && n <= 65535 ==> c.port == n,
        env.dom().contains("PORT"@) && unsigned_value(env["PORT"@], 65535) is None ==> c.port
            == 9000,
        !env.dom().contains("PORT"@) ==> c.port == 9000,
        env.dom().contains("TRANSCRIBE_TIMEOUT"@) && env["TRANSCRIBE_TIMEOUT"@] == decimal(n) && n
            <= u64::MAX ==> c.transcribe_timeout_secs == n,
        env.dom().contains("TRANSCRIBE_TIMEOUT"@) && unsigned_value(
            env["TRANSCRIBE_TIMEOUT"@],
            u64::MAX as nat,
        ) is None ==> c.transcribe_timeout_secs == 60,
        !env.dom().contains("TRANSCRIBE_TIMEOUT"@) ==> c.transcribe_timeout_secs == 60,
        env.dom().contains("REALTIME_SILENCE_MS"@) && env["REALTIME_SILENCE_MS"@] == decimal(n)
            && n <= u64::MAX ==> c.realtime_silence_ms == n,
        env.dom().contains("REALTIME_SILENCE_MS"@) && unsigned_value(
            env["REALTIME_SILENCE_MS"@],
            u64::MAX as nat,
        ) is None ==> c.realtime_silence_ms == 1500,
        !env.dom().contains("REALTIME_SILENCE_MS"@) ==> c.realtime_silence_ms == 1500,
{
    unsigned_reads_back(n, 65535);
    unsigned_reads_back(n, u64::MAX as nat);
    digits_are_the_number("9000"@, 9000);
    digits_are_the_number("60"@, 60);
    digits_are_the_number("1500"@, 1500);
}

proof fn digits_are_the_number(s: Seq<char>, n: nat)
    requires
        (s == "9000"@ && n == 9000) || (s == "60"@ && n == 60) || (s == "1500"@ && n == 1500),
    ensures
        unsigned_value(s, 65535) == Some(n),
        unsigned_value(s, u64::MAX as nat) == Some(n),
{
    reveal_strlit("9000");
    reveal_strlit("60");
    reveal_strlit("1500");
    reveal_with_fuel(decimal, 5);
    assert(s =~= decimal(n));
    unsigned_reads_back(n, 65535);
    unsigned_reads_back(n, u64::MAX as nat);
}

/// The mode is loopback wherever that variable is set, and else the one that is named. A key is
/// needed by these two modes.
pub proof fn mode_is_chosen(env: Map<Seq<char>, Seq<char>>, low: Seq<char>)
    ensures
        env.dom().contains("LOOPBACK"@) ==> mode_name(env, low) == "loopback"@,
        !env.dom().contains("LOOPBACK"@) ==> mode_name(env, low) == low,
        needs_key("openai"@) && needs_key("skills"@),
        needs_key(low) ==> low == "openai"@ || low == "skills"@,
{
}

/// Live dictation is set by these variables, in any case and with white space around the value.
pub proof fn dictation_is_set_by_these_variables(env: Map<Seq<char>, Seq<char>>)
    ensures
        ({
            let d = dictation_set(env);
            let typing = lower(trim(env["TYPE_INTO_FOCUS"@]));
            let separator = lower(trim(env["TRANSCRIBE_SEP"@]));
            let method = lower(trim(env["DICTATION_METHOD"@]));
            &&& !d.started
            &&& env.dom().contains("TYPE_INTO_FOCUS"@) ==> d.typing == !(typing == "0"@ || typing
                == "false"@ || typing == "no"@ || typing == "off"@)
            &&& env.dom().contains("TRANSCRIBE_SEP"@) ==> d.separator == separator_set(separator)
            &&& env.dom().contains("DICTATION_METHOD"@) ==> d.method == method_set(method)
        }),
{
}

/// The mode and the recognition engine are set by these variables, in any case; where they are not
/// set, they are `windows` and `whisper`. `LOOPBACK` forces its mode.
pub proof fn mode_is_set_by_these_variables(env: Map<Seq<char>, Seq<char>>)
    ensures
        env.dom().contains("LOOPBACK"@) ==> mode_set(env) == "loopback"@,
        !env.dom().contains("LOOPBACK"@) && env.dom().contains("MODE"@) ==> mode_set(env) == lower(
            env["MODE"@],
        ),
        !env.dom().contains("LOOPBACK"@) && !env.dom().contains("MODE"@) ==> mode_set(env)
            == lower("windows"@),
        env.dom().contains("STT_ENGINE"@) ==> engine_set(env) == lower(env["STT_ENGINE"@]),
        !env.dom().contains("STT_ENGINE"@) ==> engine_set(env) == lower("whisper"@),
{
}

} // verus!
