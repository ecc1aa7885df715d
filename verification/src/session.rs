//! What the server remembers between two utterances, and how a turn begins.

use vstd::prelude::*;
use crate::audio::{loud_count, pcm_has_speech, samples, MIN_LOUD_SAMPLES};
use crate::dictation::Dictation;
use crate::phrases::{is_cyrillic, speaks_russian};
use crate::protocol::{
    reply_view, silence, speech, Mode, Reply, ReplyView, CTRL_NONE, CTRL_TRANSCRIBE, MAX_VOLUME,
    MIN_UTTERANCE,
};
use crate::speech::{is_meaningful_transcript, meaningful};
use crate::text::{lower, opt_text, trim, trimmed};

verus! {

// ---------------------------------------------------------------- the session

/// After this many silent turns in a row a keep-listening mode ends.
pub const SILENT_TURNS: u8 = 15;

/// The volume of the device before any command.
pub const FIRST_VOLUME: u8 = 75;

/// Which modes are on, and the counters of the session.
#[derive(Clone, Copy, PartialEq, Eq, Structural)]
pub struct Flags {
    /// Commands go to the coding session.
    pub coding: bool,
    /// The coding session had a command, and the next one goes on with it.
    pub coding_started: bool,
    /// Utterances go to the conversation.
    pub chat: bool,
    /// The conversation had a turn, and the next one goes on with it.
    pub chat_started: bool,
    /// Utterances are answered with a fictional report.
    pub hacker: bool,
    /// Utterances are translated.
    pub translate: bool,
    /// Utterances are only transcribed.
    pub transcribe: bool,
    /// Silent turns in a row while a mode keeps listening.
    pub silence_streak: u8,
    /// The volume that was set last.
    pub last_volume: u8,
    pub dictation: Dictation,
}

/// What the server remembers between two utterances.
pub struct Session {
    pub flags: Flags,
    /// The language to translate to, or `auto`.
    pub target: String,
    /// A command that was proposed and awaits a yes or a no.
    pub pending: Option<String>,
}

/// The value of a `Session`.
#[verifier::ext_equal]
pub struct State {
    pub flags: Flags,
    pub target: Seq<char>,
    pub pending: Option<Seq<char>>,
}

impl View for Session {
    type V = State;

    open spec fn view(&self) -> State {
        State { flags: self.flags, target: self.target@, pending: opt_text(self.pending) }
    }
}

impl Flags {
    /// Some mode keeps the device listening.
    pub open spec fn listening(self) -> bool {
        self.chat || self.translate || self.hacker || self.coding || self.transcribe
    }

    /// No mode is on and the count of silent turns starts anew.
    pub open spec fn idle(self) -> Flags {
        Flags {
            chat: false,
            translate: false,
            hacker: false,
            coding: false,
            transcribe: false,
            silence_streak: 0,
            ..self
        }
    }
}

impl State {
    /// The count of silent turns is below the limit and the volume is in its range.
    pub open spec fn wf(self) -> bool {
        self.flags.silence_streak < SILENT_TURNS && self.flags.last_volume <= MAX_VOLUME
    }

    /// Only the flags differ: they are `flags`.
    pub open spec fn with(self, flags: Flags) -> State {
        State { flags, ..self }
    }
}

impl Session {
    /// The session at the start of the server: no mode is on.
    pub fn new(dictation: Dictation) -> (s: Session)
        ensures
            !s@.flags.listening(),
            s@.flags.last_volume == FIRST_VOLUME,
            s@.flags.silence_streak == 0,
            s@.flags.dictation == dictation,
            !s@.flags.coding_started && !s@.flags.chat_started,
            s@.target == Seq::<char>::empty(),
            s@.pending is None,
            s@.wf(),
    {
        Session {
            flags: Flags {
                coding: false,
                coding_started: false,
                chat: false,
                chat_started: false,
                hacker: false,
                translate: false,
                transcribe: false,
                silence_streak: 0,
                last_volume: FIRST_VOLUME,
                dictation,
            },
            target: String::new(),
            pending: None,
        }
    }

    fn leave_all(&mut self)
        ensures
            final(self)@ == old(self)@.with(old(self)@.flags.idle()),
    {
        self.flags.chat = false;
        self.flags.translate = false;
        self.flags.hacker = false;
        self.flags.coding = false;
        self.flags.transcribe = false;
        self.flags.silence_streak = 0;
    }
}

// ---------------------------------------------------------------- what was said

/// An utterance as the rules need it.
pub struct Heard {
    pub text: String,
    /// The text in lower case.
    pub low: String,
    /// `low` in lower case.
    pub again: String,
    /// The text is worth an answer: it is neither silence nor junk.
    pub worth: bool,
}

/// The value of a `Heard`.
#[verifier::ext_equal]
pub struct HeardView {
    pub text: Seq<char>,
    pub low: Seq<char>,
    pub again: Seq<char>,
    pub worth: bool,
}

impl View for Heard {
    type V = HeardView;

    open spec fn view(&self) -> HeardView {
        HeardView { text: self.text@, low: self.low@, again: self.again@, worth: self.worth }
    }
}

impl HeardView {
    /// The utterance is Russian.
    pub open spec fn russian(self) -> bool {
        speaks_russian(self.text)
    }
}

/// The utterance of the transcript `t`.
pub open spec fn heard_of(t: Seq<char>) -> HeardView {
    HeardView { text: t, low: lower(t), again: lower(lower(t)), worth: meaningful(t) }
}

/// Prepares a transcript for the rules.
pub fn listen(t: &str) -> (h: Heard)
    ensures
        h@ == heard_of(trim(t@)),
{
    let text: String = trimmed(t);
    let low: String = text.as_str().to_lowercase();
    let again: String = low.as_str().to_lowercase();
    let worth: bool = is_meaningful_transcript(text.as_str());
    Heard { text, low, again, worth }
}

impl Heard {
    /// True if the utterance is Russian.
    pub fn is_russian(&self) -> (b: bool)
        ensures
            b == self@.russian(),
    {
        is_cyrillic(self.text.as_str())
    }
}

// ---------------------------------------------------------------- how a turn begins

/// What to do with a request.
pub enum Opening {
    /// Send this reply, even where it changes nothing and has no sound, and end the turn.
    Close(Reply),
    /// Do not answer: the utterance is too short.
    TooShort,
    /// Send the recorded sound back.
    Echo,
    /// Answer in the given way.
    Windows,
    OpenAi,
    Skills,
    /// Only transcribe.
    Transcribe,
    /// Do not answer: the server has no such mode.
    UnknownMode,
}

/// The value of an `Opening`.
#[verifier::ext_equal]
pub enum OpeningView {
    Close(ReplyView),
    TooShort,
    Echo,
    Windows,
    OpenAi,
    Skills,
    Transcribe,
    UnknownMode,
}

impl View for Opening {
    type V = OpeningView;

    open spec fn view(&self) -> OpeningView {
        match self {
            Opening::Close(r) => OpeningView::Close(r@),
            Opening::TooShort => OpeningView::TooShort,
            Opening::Echo => OpeningView::Echo,
            Opening::Windows => OpeningView::Windows,
            Opening::OpenAi => OpeningView::OpenAi,
            Opening::Skills => OpeningView::Skills,
            Opening::Transcribe => OpeningView::Transcribe,
            Opening::UnknownMode => OpeningView::UnknownMode,
        }
    }
}

/// The reply with which transcribe mode ends, by the button or after a time of silence. It is
/// spoken only by the skills agent.
pub open spec fn transcribe_left(mode: Mode) -> ReplyView {
    if mode == Mode::Skills {
        speech(CTRL_NONE, "Transcribe mode off."@)
    } else {
        silence(CTRL_NONE)
    }
}

/// How a turn begins. `exit` says that the button was pressed, `len` is the length of the
/// utterance in bytes, `quiet` is the time in seconds since the last speech in transcribe
/// mode, and `timeout` the time after which that mode ends.
pub open spec fn opening(
    st: State,
    exit: bool,
    mode: Mode,
    len: nat,
    quiet: nat,
    timeout: nat,
) -> (State, OpeningView) {
    if exit {
        (
            st.with(st.flags.idle()),
            OpeningView::Close(
                if st.flags.transcribe {
                    transcribe_left(mode)
                } else {
                    silence(CTRL_NONE)
                },
            ),
        )
    } else if st.flags.transcribe && quiet >= timeout {
        (
            st.with(Flags { transcribe: false, ..st.flags }),
            OpeningView::Close(transcribe_left(mode)),
        )
    } else if len < MIN_UTTERANCE {
        (st, OpeningView::TooShort)
    } else {
        (
            st,
            match mode {
                Mode::Loopback => OpeningView::Echo,
                Mode::Windows => OpeningView::Windows,
                Mode::OpenAi => OpeningView::OpenAi,
                Mode::Skills => if st.flags.transcribe {
                    OpeningView::Transcribe
                } else {
                    OpeningView::Skills
                },
                Mode::Unknown => OpeningView::UnknownMode,
            },
        )
    }
}

/// The reply with which transcribe mode ends.
pub fn transcribe_off(mode: Mode) -> (r: Reply)
    ensures
        r@ == transcribe_left(mode),
{
    if mode == Mode::Skills {
        Reply::say(CTRL_NONE, "Transcribe mode off.")
    } else {
        Reply::silent(CTRL_NONE)
    }
}

/// Begins a turn: the button and the idle timeout leave modes, a click is ignored, and any
/// other utterance is answered according to the mode of the server.
pub fn begin_turn(
    s: &mut Session,
    exit: bool,
    mode: Mode,
    pcm_len: usize,
    quiet_secs: u64,
    timeout_secs: u64,
) -> (r: Opening)
    ensures
        (final(s)@, r@) == opening(
            old(s)@,
            exit,
            mode,
            pcm_len as nat,
            quiet_secs as nat,
            timeout_secs as nat,
        ),
        old(s)@.wf() ==> final(s)@.wf(),
{
    if exit {
        let transcribing: bool = s.flags.transcribe;
        s.leave_all();
        if transcribing {
            return Opening::Close(transcribe_off(mode));
        }
        return Opening::Close(Reply::silent(CTRL_NONE));
    }
    if s.flags.transcribe && quiet_secs >= timeout_secs {
        s.flags.transcribe = false;
        return Opening::Close(transcribe_off(mode));
    }
    if pcm_len < MIN_UTTERANCE {
        return Opening::TooShort;
    }
    match mode {
        Mode::Loopback => Opening::Echo,
        Mode::Windows => Opening::Windows,
        Mode::OpenAi => Opening::OpenAi,
        Mode::Skills => if s.flags.transcribe {
            Opening::Transcribe
        } else {
            Opening::Skills
        },
        Mode::Unknown => Opening::UnknownMode,
    }
}

/// The button leaves every mode, whatever was on, and the device goes back to the wake word.
/// Only the end of transcribe mode is said aloud, and only by the skills agent.
pub proof fn button_leaves_every_mode(
    st: State,
    mode: Mode,
    len: nat,
    quiet: nat,
    timeout: nat,
)
    ensures
        ({
            let (after, o) = opening(st, true, mode, len, quiet, timeout);
            &&& !after.flags.listening()
            &&& after.flags.silence_streak == 0
            &&& o matches OpeningView::Close(r) && r.control == CTRL_NONE
            &&& st.flags.transcribe && mode == Mode::Skills ==> o == OpeningView::Close(
                speech(CTRL_NONE, "Transcribe mode off."@),
            )
            &&& !(st.flags.transcribe && mode == Mode::Skills) ==> o == OpeningView::Close(
                silence(CTRL_NONE),
            )
            &&& after.target == st.target && after.pending == st.pending
            &&& after.flags.last_volume == st.flags.last_volume
            &&& after.flags.dictation == st.flags.dictation
        }),
{
}

/// In transcribe mode an utterance is only transcribed: dictated text is never taken for a
/// command.
pub proof fn dictated_text_is_no_command(st: State, len: nat, quiet: nat, timeout: nat)
    requires
        st.flags.transcribe,
        quiet < timeout,
        len >= MIN_UTTERANCE,
    ensures
        opening(st, false, Mode::Skills, len, quiet, timeout) == (st, OpeningView::Transcribe),
{
}

/// After the idle timeout the next request leaves transcribe mode, and nothing else changes.
pub proof fn idle_timeout_leaves_transcribe_mode(
    st: State,
    mode: Mode,
    len: nat,
    quiet: nat,
    timeout: nat,
)
    requires
        st.flags.transcribe,
        quiet >= timeout,
    ensures
        opening(st, false, mode, len, quiet, timeout) == (
            st.with(Flags { transcribe: false, ..st.flags }),
            OpeningView::Close(transcribe_left(mode)),
        ),
{
}

// ---------------------------------------------------------------- silence

/// What a turn of the skills agent does with silence: the state after it and the reply that
/// ends the turn, or no reply where there was speech.
pub open spec fn silent_turn(st: State, spoke: bool) -> (State, Option<ReplyView>) {
    if spoke {
        (st.with(Flags { silence_streak: 0, ..st.flags }), None)
    } else if !st.flags.listening() {
        (st, Some(silence(CTRL_NONE)))
    } else if st.flags.silence_streak + 1 >= SILENT_TURNS {
        (st.with(st.flags.idle()), Some(silence(CTRL_NONE)))
    } else {
        (
            st.with(
                Flags { silence_streak: (st.flags.silence_streak + 1) as u8, ..st.flags },
            ),
            Some(silence(CTRL_TRANSCRIBE)),
        )
    }
}

/// The utterance holds enough loud samples to be worth transcribing.
pub open spec fn holds_speech(pcm: Seq<u8>) -> bool {
    loud_count(samples(pcm)) >= MIN_LOUD_SAMPLES
}

/// Skips an utterance without speech: the current mode goes on, and after a long run of
/// silence it ends. Gives no reply where the utterance holds speech.
pub fn skip_silence(s: &mut Session, pcm: &[u8]) -> (r: Option<Reply>)
    requires
        old(s)@.wf(),
    ensures
        (final(s)@, reply_view(r)) == silent_turn(
            old(s)@,
            loud_count(samples(pcm@)) >= MIN_LOUD_SAMPLES,
        ),
        (final(s)@, reply_view(r)) == silent_turn(old(s)@, holds_speech(pcm@)),
        final(s)@.wf(),
{
    if pcm_has_speech(pcm) {
        s.flags.silence_streak = 0;
        return None;
    }
    let keep: bool = s.flags.chat || s.flags.translate || s.flags.hacker || s.flags.coding
        || s.flags.transcribe;
    if !keep {
        return Some(Reply::silent(CTRL_NONE));
    }
    if s.flags.silence_streak + 1 >= SILENT_TURNS {
        s.leave_all();
        return Some(Reply::silent(CTRL_NONE));
    }
    s.flags.silence_streak = s.flags.silence_streak + 1;
    Some(Reply::silent(CTRL_TRANSCRIBE))
}

/// The state after `n` silent turns.
pub open spec fn after_silence(st: State, n: nat) -> State
    decreases n,
{
    if n == 0 {
        st
    } else {
        silent_turn(after_silence(st, (n - 1) as nat), false).0
    }
}

/// A mode goes on through fewer than fifteen silent turns, each of which keeps the device
/// listening, and the fifteenth one ends it.
pub proof fn silence_ends_the_mode(st: State, n: nat)
    requires
        st.flags.listening(),
        st.flags.silence_streak == 0,
        n <= SILENT_TURNS,
    ensures
        n < SILENT_TURNS ==> after_silence(st, n).flags == (Flags {
            silence_streak: n as u8,
            ..st.flags
        }),
        n < SILENT_TURNS - 1 ==> silent_turn(after_silence(st, n), false).1 == Some(
            silence(CTRL_TRANSCRIBE),
        ),
        n == SILENT_TURNS - 1 ==> silent_turn(after_silence(st, n), false).1 == Some(
            silence(CTRL_NONE),
        ),
        n == SILENT_TURNS ==> !after_silence(st, n).flags.listening(),
    decreases n,
{
    if n > 0 {
        silence_ends_the_mode(st, (n - 1) as nat);
    }
}

// ---------------------------------------------------------------- transcribe mode

/// What transcribe mode does with an utterance: the text to show, and the reply.
pub open spec fn transcribed(t: Seq<char>) -> (Option<Seq<char>>, ReplyView) {
    (
        if trim(t).len() == 0 {
            None
        } else {
            Some(trim(t))
        },
        silence(CTRL_TRANSCRIBE),
    )
}

/// One utterance of transcribe mode: the text to show and to put on the clipboard, none where
/// nothing was said, and the silent reply that keeps the device listening.
pub fn transcribe_turn(transcript: &str) -> (r: (Option<String>, Reply))
    ensures
        opt_text(r.0) == (if trim(transcript@).len() == 0 {
            None
        } else {
            Some(trim(transcript@))
        }),
        r.1@ == silence(CTRL_TRANSCRIBE),
        (opt_text(r.0), r.1@) == transcribed(transcript@),
{
    let t: String = trimmed(transcript);
    let reply: Reply = Reply::silent(CTRL_TRANSCRIBE);
    if t.as_str().is_empty() {
        (None, reply)
    } else {
        (Some(t), reply)
    }
}

// ---------------------------------------------------------------- laws

/// An utterance of 4000 bytes or more is answered by the mode of the server, and leaves the session
/// as it was; a shorter one is not answered. Neither holds where the button or the idle timeout
/// ends a mode.
pub proof fn utterances_are_answered_by_the_mode(
    st: State,
    mode: Mode,
    len: nat,
    quiet: nat,
    timeout: nat,
)
    requires
        !st.flags.transcribe || quiet < timeout,
    ensures
        opening(st, false, mode, len, quiet, timeout).0 == st,
        len < 4000 ==> opening(st, false, mode, len, quiet, timeout).1 is TooShort,
        len >= 4000 ==> {
            let o = opening(st, false, mode, len, quiet, timeout).1;
            &&& mode == Mode::Loopback ==> o is Echo
            &&& mode == Mode::Windows ==> o is Windows
            &&& mode == Mode::OpenAi ==> o is OpenAi
            &&& mode == Mode::Skills && !st.flags.transcribe ==> o is Skills
            &&& mode == Mode::Skills && st.flags.transcribe ==> o is Transcribe
            &&& mode == Mode::Unknown ==> o is UnknownMode
        },
{
}

/// The end of transcribe mode is said by the skills agent, and by no other mode of the server.
pub proof fn end_of_transcription_is_said(mode: Mode)
    ensures
        transcribe_left(mode).control == 0xFF,
        mode == Mode::Skills ==> transcribe_left(mode).words == Some("Transcribe mode off."@),
        mode != Mode::Skills ==> transcribe_left(mode).words is None,
{
}

/// Speech starts the count of silent turns anew, changes nothing else and lets the turn go on.
/// Silence outside the modes ends the turn without a sound and changes nothing.
pub proof fn speech_goes_on(st: State)
    ensures
        silent_turn(st, true) == (
            st.with(Flags { silence_streak: 0, ..st.flags }),
            None::<ReplyView>,
        ),
        !st.flags.chat && !st.flags.translate && !st.flags.hacker && !st.flags.coding
            && !st.flags.transcribe ==> silent_turn(st, false) == (
            st,
            Some(ReplyView { control: 0xFFu8, words: None }),
        ),
{
}

/// After fifteen silent turns in a row a mode has ended, after fourteen it is still on. What is
/// not a mode stays as it was.
pub proof fn fifteen_silent_turns_end_the_mode(st: State)
    requires
        st.flags.chat || st.flags.translate || st.flags.hacker || st.flags.coding
            || st.flags.transcribe,
        st.flags.silence_streak == 0,
    ensures
        after_silence(st, 14).flags == (Flags { silence_streak: 14, ..st.flags }),
        ({
            let f = after_silence(st, 15).flags;
            &&& !f.chat && !f.translate && !f.hacker && !f.coding && !f.transcribe
            &&& f.last_volume == st.flags.last_volume && f.dictation == st.flags.dictation
        }),
        after_silence(st, 15).target == st.target && after_silence(st, 15).pending == st.pending,
{
    silence_ends_the_mode(st, 14);
    assert(after_silence(st, 15) == silent_turn(after_silence(st, 14), false).0);
    silence_keeps_the_rest(st, 14);
}

proof fn silence_keeps_the_rest(st: State, n: nat)
    ensures
        after_silence(st, n).target == st.target,
        after_silence(st, n).pending == st.pending,
    decreases n,
{
    if n > 0 {
        silence_keeps_the_rest(st, (n - 1) as nat);
    }
}

/// The utterance is what was transcribed, without the white space around it, and its lowered form
/// is the lowered form of just that text.
pub proof fn utterance_is_the_transcript(t: Seq<char>)
    ensures
        heard_of(t).text == t,
        heard_of(t).low == lower(t),
        heard_of(t).again == lower(lower(t)),
        heard_of(t).worth == meaningful(t),
        heard_of(t).russian() == exists|i: int|
            0 <= i < t.len() && 0x0400 <= (#[trigger] t[i]) as u32 <= 0x04FF,
{
    if heard_of(t).russian() {
        let i = choose|i: int| 0 <= i < t.len() && crate::phrases::cyrillic(#[trigger] t[i]);
        assert(0x0400 <= t[i] as u32 <= 0x04FF);
    }
    if exists|i: int| 0 <= i < t.len() && 0x0400 <= (#[trigger] t[i]) as u32 <= 0x04FF {
        let i = choose|i: int| 0 <= i < t.len() && 0x0400 <= (#[trigger] t[i]) as u32 <= 0x04FF;
        assert(crate::phrases::cyrillic(t[i]));
    }
}

/// In transcribe mode what was said is shown as it was said, without the white space around it;
/// nothing is spoken back, and the device keeps listening.
pub proof fn dictated_text_is_shown(t: Seq<char>)
    ensures
        trim(t).len() > 0 ==> transcribed(t) == (
            Some(trim(t)),
            ReplyView { control: 0xFDu8, words: None },
        ),
        trim(t).len() == 0 ==> transcribed(t) == (
            None::<Seq<char>>,
            ReplyView { control: 0xFDu8, words: None },
        ),
{
}

/// An utterance counts as speech with 1500 loud samples, however many quiet ones it holds, and not
/// with fewer.
pub proof fn speech_needs_loud_samples(pcm: Seq<u8>)
    ensures
        holds_speech(pcm) <==> loud_count(samples(pcm)) >= 1500,
        samples(pcm).len() < 1500 ==> !holds_speech(pcm),
        FIRST_VOLUME == 75,
{
    at_most_all_are_loud(samples(pcm));
}

proof fn at_most_all_are_loud(s: Seq<i16>)
    ensures
        loud_count(s) <= s.len(),
    decreases s.len(),
{
    if s.len() > 0 {
        at_most_all_are_loud(s.drop_last());
    }
}

} // verus!
