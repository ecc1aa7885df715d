//! The modes of the skills agent: what each of them does with an utterance, and what it says
//! once the outside work is done.

use vstd::prelude::*;
use crate::cli::{
    calls_hand_on_what_is_said, chat_call, coding_call, ends_with_text, run_claude_chat,
    run_claude_coding, ClaudeCall, ClaudeCallView,
};
use crate::compressor::RelayAction;
use crate::phrases::{
    chat_enter_heard, chat_enter_in, chat_exit_heard, chat_exit_in, coding_enter_heard,
    coding_enter_in, coding_exit_heard, coding_exit_in, hacker_enter_heard, hacker_enter_in,
    hacker_exit_heard, hacker_exit_in, speaks_russian, translate_enter_heard, translate_enter_in,
    translate_exit_heard, translate_exit_in,
};
use crate::prompts::{hacker_system, hacker_text, Persona, HACKER_ROLE, HACKER_RULES};
use crate::protocol::{silence, speech, Reply, ReplyView, CTRL_NONE, CTRL_TRANSCRIBE};
use crate::session::{Flags, Heard, HeardView, Session, State};
use crate::speech::{clean_for_speech, spoken};
use crate::text::{same, trim, trimmed};

verus! {

// ---------------------------------------------------------------- actions

/// What to do next with an utterance.
pub enum Action {
    /// Send this reply.
    Reply(Reply),
    /// Hand the utterance to the conversation.
    Chat(ClaudeCall),
    /// Hand the utterance to the coding session.
    Code(ClaudeCall),
    /// Translate the text.
    Translate { text: String, target: String },
    /// Ask for a fictional report.
    Hack { system: String, user: String },
    /// Ask something of the compressor relay.
    Relay { action: RelayAction, russian: bool },
    /// Play this favorite if it is live, and else ask the brain.
    TryRadio { name: String, url: String },
    /// Ask the language model which skill is meant.
    AskBrain,
    /// Look for a live stream and play it.
    FindStation { query: String, url: String },
}

/// The value of an `Action`.
#[verifier::ext_equal]
pub enum ActionView {
    Reply(ReplyView),
    Chat(ClaudeCallView),
    Code(ClaudeCallView),
    Translate { text: Seq<char>, target: Seq<char> },
    Hack { system: Seq<char>, user: Seq<char> },
    Relay { action: RelayAction, russian: bool },
    TryRadio { name: Seq<char>, url: Seq<char> },
    AskBrain,
    FindStation { query: Seq<char>, url: Seq<char> },
}

impl View for Action {
    type V = ActionView;

    open spec fn view(&self) -> ActionView {
        match self {
            Action::Reply(r) => ActionView::Reply(r@),
            Action::Chat(c) => ActionView::Chat(c@),
            Action::Code(c) => ActionView::Code(c@),
            Action::Translate { text, target } => ActionView::Translate {
                text: text@,
                target: target@,
            },
            Action::Hack { system, user } => ActionView::Hack { system: system@, user: user@ },
            Action::Relay { action, russian } => ActionView::Relay {
                action: *action,
                russian: *russian,
            },
            Action::TryRadio { name, url } => ActionView::TryRadio { name: name@, url: url@ },
            Action::AskBrain => ActionView::AskBrain,
            Action::FindStation { query, url } => ActionView::FindStation {
                query: query@,
                url: url@,
            },
        }
    }
}

/// The value of an optional action.
pub open spec fn action_view(a: Option<Action>) -> Option<ActionView> {
    match a {
        Some(a) => Some(a@),
        None => None,
    }
}

/// The first text for Russian, the second one for English.
pub open spec fn tongue(russian: bool, ru: Seq<char>, en: Seq<char>) -> Seq<char> {
    if russian {
        ru
    } else {
        en
    }
}

/// `s`, or `default` where it is empty.
pub open spec fn or_else(s: Seq<char>, default: Seq<char>) -> Seq<char> {
    if s.len() == 0 {
        default
    } else {
        s
    }
}

// ---------------------------------------------------------------- chat mode

/// What chat mode does with an utterance: the state after it and the action, none where the
/// utterance is not for chat mode.
#[verifier::opaque]
pub open spec fn chat_step(
    st: State,
    dir: Seq<char>,
    intro: Seq<char>,
    h: HeardView,
) -> (State, Option<ActionView>) {
    let f = st.flags;
    if f.chat {
        if chat_exit_in(h.low) {
            (
                st.with(Flags { chat: false, ..f }),
                Some(
                    ActionView::Reply(
                        speech(
                            CTRL_NONE,
                            tongue(
                                h.russian(),
                                "Вышла из режима разговора."@,
                                "Exited chat mode."@,
                            ),
                        ),
                    ),
                ),
            )
        } else if !h.worth {
            (st, Some(ActionView::Reply(silence(CTRL_TRANSCRIBE))))
        } else {
            (
                st.with(Flags { chat_started: true, ..f }),
                Some(ActionView::Chat(chat_call(h.text, dir, f.chat_started, intro))),
            )
        }
    } else if chat_enter_in(h.low) {
        (
            st.with(Flags { chat: true, chat_started: false, ..f }),
            Some(
                ActionView::Reply(
                    speech(
                        CTRL_TRANSCRIBE,
                        tongue(
                            h.russian(),
                            "Режим разговора включён. О чём поговорим?"@,
                            "Chat mode on. What's on your mind?"@,
                        ),
                    ),
                ),
            ),
        )
    } else {
        (st, None)
    }
}

/// While chat mode is on, an utterance goes to the conversation or leaves the mode; while it is
/// off, an utterance may enter it.
pub fn chat_mode_step(s: &mut Session, chat_dir: &str, persona: &Persona, h: &Heard) -> (r: Option<
    Action,
>)
    ensures
        (final(s)@, action_view(r)) == chat_step(
            old(s)@,
            chat_dir@,
            persona.skills_intro@,
            h@,
        ),
{
    proof {
        reveal(chat_step);
    }
    let russian: bool = h.is_russian();
    if s.flags.chat {
        if chat_exit_heard(h.low.as_str()) {
            s.flags.chat = false;
            return Some(
                Action::Reply(
                    Reply::say_in(
                        CTRL_NONE,
                        russian,
                        "Вышла из режима разговора.",
                        "Exited chat mode.",
                    ),
                ),
            );
        }
        if !h.worth {
            return Some(Action::Reply(Reply::silent(CTRL_TRANSCRIBE)));
        }
        let go_on: bool = s.flags.chat_started;
        s.flags.chat_started = true;
        return Some(Action::Chat(run_claude_chat(h.text.as_str(), chat_dir, go_on, persona)));
    }
    if chat_enter_heard(h.low.as_str()) {
        s.flags.chat = true;
        s.flags.chat_started = false;
        return Some(
            Action::Reply(
                Reply::say_in(
                    CTRL_TRANSCRIBE,
                    russian,
                    "Режим разговора включён. О чём поговорим?",
                    "Chat mode on. What's on your mind?",
                ),
            ),
        );
    }
    None
}

/// What is said after a turn of the conversation: its answer, and then the device listens again.
pub open spec fn chat_spoken(russian: bool, answer: Seq<char>) -> ReplyView {
    speech(CTRL_TRANSCRIBE, or_else(spoken(answer), tongue(russian, "Слушаю."@, "Go on."@)))
}

/// The reply after a turn of the conversation.
pub fn chat_mode_reply(h: &Heard, answer: &str) -> (r: Reply)
    ensures
        r@ == chat_spoken(h@.russian(), answer@),
{
    let say: String = clean_for_speech(answer);
    if say.as_str().is_empty() {
        Reply::say_in(CTRL_TRANSCRIBE, h.is_russian(), "Слушаю.", "Go on.")
    } else {
        Reply::say(CTRL_TRANSCRIBE, say.as_str())
    }
}

// ---------------------------------------------------------------- translate mode

/// The language to translate to: a fixed one, or else the other one of Russian and English.
pub open spec fn target_for(target: Seq<char>, russian: bool) -> Seq<char> {
    if target.len() == 0 || target == "auto"@ {
        tongue(russian, "en"@, "ru"@)
    } else {
        target
    }
}

/// What translate mode does with an utterance. `ready` says that the service has a key.
#[verifier::opaque]
pub open spec fn translate_step(
    st: State,
    ready: bool,
    h: HeardView,
) -> (State, Option<ActionView>) {
    let f = st.flags;
    if !f.translate {
        if !translate_enter_in(h.low) {
            (st, None)
        } else if !ready {
            (
                st,
                Some(
                    ActionView::Reply(
                        speech(
                            CTRL_NONE,
                            tongue(
                                h.russian(),
                                "Ключ переводчика не задан."@,
                                "Translation key is not set."@,
                            ),
                        ),
                    ),
                ),
            )
        } else {
            (
                State { flags: Flags { translate: true, ..f }, target: "auto"@, ..st },
                Some(
                    ActionView::Reply(
                        speech(
                            CTRL_TRANSCRIBE,
                            tongue(
                                h.russian(),
                                "Режим перевода включён. Перевожу между русским и английским."@,
                                "Translate mode on. I'll translate between English and Russian."@,
                            ),
                        ),
                    ),
                ),
            )
        }
    } else if translate_exit_in(h.low) {
        (
            st.with(Flags { translate: false, ..f }),
            Some(
                ActionView::Reply(
                    speech(
                        CTRL_NONE,
                        tongue(
                            h.russian(),
                            "Выхожу из режима перевода."@,
                            "Exiting translate mode."@,
                        ),
                    ),
                ),
            ),
        )
    } else if !h.worth {
        (st, Some(ActionView::Reply(silence(CTRL_TRANSCRIBE))))
    } else {
        (
            st,
            Some(
                ActionView::Translate {
                    text: h.text,
                    target: target_for(st.target, h.russian()),
                },
            ),
        )
    }
}

/// While translate mode is on, an utterance is translated or leaves the mode; while it is off, a
/// request that names no language enters it, between Russian and English.
pub fn translate_mode_step(s: &mut Session, ready: bool, h: &Heard) -> (r: Option<Action>)
    ensures
        (final(s)@, action_view(r)) == translate_step(old(s)@, ready, h@),
{
    proof {
        reveal(translate_step);
    }
    let russian: bool = h.is_russian();
    if !s.flags.translate {
        if !translate_enter_heard(h.low.as_str()) {
            return None;
        }
        if !ready {
            return Some(
                Action::Reply(
                    Reply::say_in(
                        CTRL_NONE,
                        russian,
                        "Ключ переводчика не задан.",
                        "Translation key is not set.",
                    ),
                ),
            );
        }
        s.flags.translate = true;
        s.target = "auto".to_owned();
        return Some(
            Action::Reply(
                Reply::say_in(
                    CTRL_TRANSCRIBE,
                    russian,
                    "Режим перевода включён. Перевожу между русским и английским.",
                    "Translate mode on. I'll translate between English and Russian.",
                ),
            ),
        );
    }
    if translate_exit_heard(h.low.as_str()) {
        s.flags.translate = false;
        return Some(
            Action::Reply(
                Reply::say_in(
                    CTRL_NONE,
                    russian,
                    "Выхожу из режима перевода.",
                    "Exiting translate mode.",
                ),
            ),
        );
    }
    if !h.worth {
        return Some(Action::Reply(Reply::silent(CTRL_TRANSCRIBE)));
    }
    let target: String = if s.target.as_str().is_empty() || same(s.target.as_str(), "auto") {
        if russian {
            "en".to_owned()
        } else {
            "ru".to_owned()
        }
    } else {
        s.target.clone()
    };
    Some(Action::Translate { text: h.text.clone(), target })
}

/// What is said after a translation: the translation, or the utterance itself where there is
/// none.
pub open spec fn translation_spoken(text: Seq<char>, translated: Seq<char>) -> ReplyView {
    speech(
        CTRL_TRANSCRIBE,
        if trim(translated).len() == 0 {
            text
        } else {
            translated
        },
    )
}

/// The reply after a translation.
pub fn translate_mode_reply(h: &Heard, translated: &str) -> (r: Reply)
    ensures
        r@ == translation_spoken(h@.text, translated@),
{
    if trimmed(translated).as_str().is_empty() {
        Reply::say(CTRL_TRANSCRIBE, h.text.as_str())
    } else {
        Reply::say(CTRL_TRANSCRIBE, translated)
    }
}

/// Between Russian and English the target is always the other language.
pub proof fn auto_translates_to_the_other(russian: bool)
    ensures
        target_for("auto"@, russian) == tongue(russian, "en"@, "ru"@),
        target_for(Seq::empty(), russian) == tongue(russian, "en"@, "ru"@),
{
}

// ---------------------------------------------------------------- hacker mode

/// What hacker mode does with an utterance.
#[verifier::opaque]
pub open spec fn hacker_step(st: State, h: HeardView) -> (State, Option<ActionView>) {
    let f = st.flags;
    if f.hacker {
        if hacker_exit_in(h.low) {
            (
                st.with(Flags { hacker: false, ..f }),
                Some(
                    ActionView::Reply(
                        speech(
                            CTRL_NONE,
                            tongue(
                                h.russian(),
                                "Выхожу из режима хакера."@,
                                "Exiting hacker mode."@,
                            ),
                        ),
                    ),
                ),
            )
        } else if !h.worth {
            (st, Some(ActionView::Reply(silence(CTRL_TRANSCRIBE))))
        } else {
            (
                st,
                Some(ActionView::Hack { system: hacker_text(h.russian()), user: h.text }),
            )
        }
    } else if hacker_enter_in(h.low) {
        (
            st.with(Flags { hacker: true, ..f }),
            Some(
                ActionView::Reply(
                    speech(
                        CTRL_TRANSCRIBE,
                        tongue(
                            h.russian(),
                            "Режим хакера активирован. Назови цель — что взламываем?"@,
                            "Hacker mode activated. Name your target — what are we hacking?"@,
                        ),
                    ),
                ),
            ),
        )
    } else {
        (st, None)
    }
}

/// While hacker mode is on, an utterance asks for a fictional report or leaves the mode; while it
/// is off, an utterance may enter it.
pub fn hacker_mode_step(s: &mut Session, h: &Heard) -> (r: Option<Action>)
    ensures
        (final(s)@, action_view(r)) == hacker_step(old(s)@, h@),
{
    proof {
        reveal(hacker_step);
    }
    let russian: bool = h.is_russian();
    if s.flags.hacker {
        if hacker_exit_heard(h.low.as_str()) {
            s.flags.hacker = false;
            return Some(
                Action::Reply(
                    Reply::say_in(
                        CTRL_NONE,
                        russian,
                        "Выхожу из режима хакера.",
                        "Exiting hacker mode.",
                    ),
                ),
            );
        }
        if !h.worth {
            return Some(Action::Reply(Reply::silent(CTRL_TRANSCRIBE)));
        }
        return Some(
            Action::Hack { system: hacker_system(h.text.as_str()), user: h.text.clone() },
        );
    }
    if hacker_enter_heard(h.low.as_str()) {
        s.flags.hacker = true;
        return Some(
            Action::Reply(
                Reply::say_in(
                    CTRL_TRANSCRIBE,
                    russian,
                    "Режим хакера активирован. Назови цель — что взламываем?",
                    "Hacker mode activated. Name your target — what are we hacking?",
                ),
            ),
        );
    }
    None
}

/// What is said after a fictional report.
pub open spec fn report_spoken(russian: bool, report: Seq<char>) -> ReplyView {
    speech(
        CTRL_TRANSCRIBE,
        or_else(
            spoken(report),
            tongue(
                russian,
                "Цель взломана. Все данные у нас."@,
                "Target hacked. All their data is ours."@,
            ),
        ),
    )
}

/// The reply after a fictional report.
pub fn hacker_mode_reply(h: &Heard, report: &str) -> (r: Reply)
    ensures
        r@ == report_spoken(h@.russian(), report@),
{
    let say: String = clean_for_speech(report);
    if say.as_str().is_empty() {
        Reply::say_in(
            CTRL_TRANSCRIBE,
            h.is_russian(),
            "Цель взломана. Все данные у нас.",
            "Target hacked. All their data is ours.",
        )
    } else {
        Reply::say(CTRL_TRANSCRIBE, say.as_str())
    }
}

// ---------------------------------------------------------------- coding mode

/// What coding mode does with an utterance. The device keeps listening until the mode is left.
#[verifier::opaque]
pub open spec fn coding_step(
    st: State,
    dir: Seq<char>,
    intro: Seq<char>,
    h: HeardView,
) -> (State, Option<ActionView>) {
    let f = st.flags;
    if f.coding {
        if coding_exit_in(h.low) {
            (
                st.with(Flags { coding: false, ..f }),
                Some(ActionView::Reply(speech(CTRL_NONE, "Exited coding mode."@))),
            )
        } else if !h.worth {
            (st, Some(ActionView::Reply(silence(CTRL_TRANSCRIBE))))
        } else {
            (
                st.with(Flags { coding_started: true, ..f }),
                Some(ActionView::Code(coding_call(h.text, dir, f.coding_started, intro))),
            )
        }
    } else if coding_enter_in(h.low) {
        (
            st.with(Flags { coding: true, coding_started: false, ..f }),
            Some(
                ActionView::Reply(
                    speech(
                        CTRL_TRANSCRIBE,
                        "Coding mode on. Press the button for each command."@,
                    ),
                ),
            ),
        )
    } else {
        (st, None)
    }
}

/// While coding mode is on, an utterance goes to the coding session or leaves the mode; while it
/// is off, an utterance may enter it.
pub fn coding_mode_step(
    s: &mut Session,
    code_dir: &str,
    persona: &Persona,
    h: &Heard,
) -> (r: Option<Action>)
    ensures
        (final(s)@, action_view(r)) == coding_step(
            old(s)@,
            code_dir@,
            persona.coding_intro@,
            h@,
        ),
{
    proof {
        reveal(coding_step);
    }
    if s.flags.coding {
        if coding_exit_heard(h.low.as_str()) {
            s.flags.coding = false;
            return Some(Action::Reply(Reply::say(CTRL_NONE, "Exited coding mode.")));
        }
        if !h.worth {
            return Some(Action::Reply(Reply::silent(CTRL_TRANSCRIBE)));
        }
        let go_on: bool = s.flags.coding_started;
        s.flags.coding_started = true;
        return Some(Action::Code(run_claude_coding(h.text.as_str(), code_dir, go_on, persona)));
    }
    if coding_enter_heard(h.low.as_str()) {
        s.flags.coding = true;
        s.flags.coding_started = false;
        return Some(
            Action::Reply(
                Reply::say(CTRL_TRANSCRIBE, "Coding mode on. Press the button for each command."),
            ),
        );
    }
    None
}

/// What is said after a command of coding mode: the summary of the session, and then the device
/// listens again.
pub open spec fn coding_spoken(summary: Seq<char>) -> ReplyView {
    speech(CTRL_TRANSCRIBE, or_else(spoken(summary), "Done."@))
}

/// The reply after a command of coding mode.
pub fn coding_mode_reply(summary: &str) -> (r: Reply)
    ensures
        r@ == coding_spoken(summary@),
{
    let say: String = clean_for_speech(summary);
    if say.as_str().is_empty() {
        Reply::say(CTRL_TRANSCRIBE, "Done.")
    } else {
        Reply::say(CTRL_TRANSCRIBE, say.as_str())
    }
}

// ---------------------------------------------------------------- laws

/// An utterance that a mode does not take leaves the session as it was.
pub proof fn passing_on_changes_nothing(
    st: State,
    dir: Seq<char>,
    intro: Seq<char>,
    ready: bool,
    h: HeardView,
)
    ensures
        chat_step(st, dir, intro, h).1 is None ==> chat_step(st, dir, intro, h).0 == st,
        translate_step(st, ready, h).1 is None ==> translate_step(st, ready, h).0 == st,
        hacker_step(st, h).1 is None ==> hacker_step(st, h).0 == st,
        coding_step(st, dir, intro, h).1 is None ==> coding_step(st, dir, intro, h).0 == st,
{
    reveal(chat_step);
    reveal(translate_step);
    reveal(hacker_step);
    reveal(coding_step);
}

/// A mode that is on takes every utterance: none falls through to another skill.
pub proof fn active_mode_takes_all(
    st: State,
    dir: Seq<char>,
    intro: Seq<char>,
    ready: bool,
    h: HeardView,
)
    ensures
        st.flags.chat ==> chat_step(st, dir, intro, h).1 is Some,
        st.flags.translate ==> translate_step(st, ready, h).1 is Some,
        st.flags.hacker ==> hacker_step(st, h).1 is Some,
        st.flags.coding ==> coding_step(st, dir, intro, h).1 is Some,
{
    reveal(chat_step);
    reveal(translate_step);
    reveal(hacker_step);
    reveal(coding_step);
}

/// Silence and junk in a mode say nothing and run nothing, and the mode stays on.
pub proof fn junk_is_ignored(
    st: State,
    dir: Seq<char>,
    intro: Seq<char>,
    ready: bool,
    h: HeardView,
)
    requires
        !h.worth,
    ensures
        st.flags.chat && !chat_exit_in(h.low) ==> chat_step(st, dir, intro, h) == (
            st,
            Some(ActionView::Reply(silence(CTRL_TRANSCRIBE))),
        ),
        st.flags.translate && !translate_exit_in(h.low) ==> translate_step(st, ready, h) == (
            st,
            Some(ActionView::Reply(silence(CTRL_TRANSCRIBE))),
        ),
        st.flags.hacker && !hacker_exit_in(h.low) ==> hacker_step(st, h) == (
            st,
            Some(ActionView::Reply(silence(CTRL_TRANSCRIBE))),
        ),
        st.flags.coding && !coding_exit_in(h.low) ==> coding_step(st, dir, intro, h) == (
            st,
            Some(ActionView::Reply(silence(CTRL_TRANSCRIBE))),
        ),
{
    reveal(chat_step);
    reveal(translate_step);
    reveal(hacker_step);
    reveal(coding_step);
}

/// The state after a list of turns of chat mode.
pub open spec fn chatted(
    st: State,
    dir: Seq<char>,
    intro: Seq<char>,
    turns: Seq<HeardView>,
) -> State
    decreases turns.len(),
{
    if turns.len() == 0 {
        st
    } else {
        chat_step(chatted(st, dir, intro, turns.drop_last()), dir, intro, turns.last()).0
    }
}

/// The state after a list of commands of coding mode.
pub open spec fn coded(
    st: State,
    dir: Seq<char>,
    intro: Seq<char>,
    turns: Seq<HeardView>,
) -> State
    decreases turns.len(),
{
    if turns.len() == 0 {
        st
    } else {
        coding_step(coded(st, dir, intro, turns.drop_last()), dir, intro, turns.last()).0
    }
}

/// After chat mode was entered, the first turn starts a new conversation, and every later one
/// goes on with it, however many there are.
pub proof fn conversation_goes_on(
    st: State,
    dir: Seq<char>,
    intro: Seq<char>,
    enter: HeardView,
    turns: Seq<HeardView>,
    next: HeardView,
)
    requires
        !st.flags.chat && chat_enter_in(enter.low),
        forall|i: int|
            0 <= i < turns.len() ==> (#[trigger] turns[i]).worth && !chat_exit_in(turns[i].low),
        next.worth && !chat_exit_in(next.low),
    ensures
        ({
            let now = chatted(chat_step(st, dir, intro, enter).0, dir, intro, turns);
            &&& now.flags.chat
            &&& now.flags.chat_started == (turns.len() > 0)
            &&& chat_step(now, dir, intro, next).1 == Some(
                ActionView::Chat(chat_call(next.text, dir, turns.len() > 0, intro)),
            )
        }),
    decreases turns.len(),
{
    reveal(chat_step);
    if turns.len() > 0 {
        let before = turns.drop_last();
        assert forall|i: int| 0 <= i < before.len() implies (#[trigger] before[i]).worth
            && !chat_exit_in(before[i].low) by {
            assert(turns[i].worth);
        }
        assert(turns[turns.len() - 1].worth);
        conversation_goes_on(st, dir, intro, enter, before, turns.last());
    }
}

/// After coding mode was entered, the first command starts a new session, and every later one
/// goes on with it, however many there are.
pub proof fn coding_session_goes_on(
    st: State,
    dir: Seq<char>,
    intro: Seq<char>,
    enter: HeardView,
    turns: Seq<HeardView>,
    next: HeardView,
)
    requires
        !st.flags.coding && coding_enter_in(enter.low),
        forall|i: int|
            0 <= i < turns.len() ==> (#[trigger] turns[i]).worth && !coding_exit_in(turns[i].low),
        next.worth && !coding_exit_in(next.low),
    ensures
        ({
            let now = coded(coding_step(st, dir, intro, enter).0, dir, intro, turns);
            &&& now.flags.coding
            &&& now.flags.coding_started == (turns.len() > 0)
            &&& coding_step(now, dir, intro, next).1 == Some(
                ActionView::Code(coding_call(next.text, dir, turns.len() > 0, intro)),
            )
        }),
    decreases turns.len(),
{
    reveal(coding_step);
    if turns.len() > 0 {
        let before = turns.drop_last();
        assert forall|i: int| 0 <= i < before.len() implies (#[trigger] before[i]).worth
            && !coding_exit_in(before[i].low) by {
            assert(turns[i].worth);
        }
        assert(turns[turns.len() - 1].worth);
        coding_session_goes_on(st, dir, intro, enter, before, turns.last());
    }
}

/// The reply of a mode keeps the device listening exactly where the mode is on after it.
pub proof fn modes_keep_listening(
    st: State,
    dir: Seq<char>,
    intro: Seq<char>,
    ready: bool,
    h: HeardView,
)
    ensures
        chat_step(st, dir, intro, h).1 matches Some(ActionView::Reply(r)) ==> (r.control
            == CTRL_TRANSCRIBE) == chat_step(st, dir, intro, h).0.flags.chat,
        translate_step(st, ready, h).1 matches Some(ActionView::Reply(r)) ==> (r.control
            == CTRL_TRANSCRIBE) == translate_step(st, ready, h).0.flags.translate,
        hacker_step(st, h).1 matches Some(ActionView::Reply(r)) ==> (r.control
            == CTRL_TRANSCRIBE) == hacker_step(st, h).0.flags.hacker,
        coding_step(st, dir, intro, h).1 matches Some(ActionView::Reply(r)) ==> (r.control
            == CTRL_TRANSCRIBE) == coding_step(st, dir, intro, h).0.flags.coding,
{
    reveal(chat_step);
    reveal(translate_step);
    reveal(hacker_step);
    reveal(coding_step);
}

/// The reply after the outside work of a mode keeps the device listening as well.
pub proof fn answers_keep_listening(russian: bool, text: Seq<char>, answer: Seq<char>)
    ensures
        chat_spoken(russian, answer).control == CTRL_TRANSCRIBE,
        translation_spoken(text, answer).control == CTRL_TRANSCRIBE,
        report_spoken(russian, answer).control == CTRL_TRANSCRIBE,
        coding_spoken(answer).control == CTRL_TRANSCRIBE,
{
}

/// The exit phrase of a mode leaves it, whatever else is on, and the device goes back to the wake
/// word.
pub proof fn exit_phrase_leaves(
    st: State,
    dir: Seq<char>,
    intro: Seq<char>,
    ready: bool,
    h: HeardView,
)
    ensures
        st.flags.chat && chat_exit_in(h.low) ==> left(
            chat_step(st, dir, intro, h),
            st.with(Flags { chat: false, ..st.flags }),
        ),
        st.flags.translate && translate_exit_in(h.low) ==> left(
            translate_step(st, ready, h),
            st.with(Flags { translate: false, ..st.flags }),
        ),
        st.flags.hacker && hacker_exit_in(h.low) ==> left(
            hacker_step(st, h),
            st.with(Flags { hacker: false, ..st.flags }),
        ),
        st.flags.coding && coding_exit_in(h.low) ==> left(
            coding_step(st, dir, intro, h),
            st.with(Flags { coding: false, ..st.flags }),
        ),
{
    reveal(chat_step);
    reveal(translate_step);
    reveal(hacker_step);
    reveal(coding_step);
}

/// The step ends in the state `after` with words and no further listening.
pub open spec fn left(step: (State, Option<ActionView>), after: State) -> bool {
    &&& step.0 == after
    &&& step.1 matches Some(ActionView::Reply(r)) && r.control == CTRL_NONE && r.words is Some
}

/// Entering chat mode and leaving it again gives back the session, but for the conversation.
pub proof fn leaving_undoes_entering(
    st: State,
    dir: Seq<char>,
    intro: Seq<char>,
    enter: HeardView,
    exit: HeardView,
)
    requires
        !st.flags.chat && chat_enter_in(enter.low) && chat_exit_in(exit.low),
    ensures
        chat_step(chat_step(st, dir, intro, enter).0, dir, intro, exit).0 == st.with(
            Flags { chat_started: false, ..st.flags },
        ),
{
    reveal(chat_step);
}

/// Every phrase of translate mode goes to the translator as it was said, to the language that was
/// asked for; between Russian and English, where none was, to the other one of the two.
pub proof fn phrases_are_translated(st: State, ready: bool, h: HeardView)
    requires
        st.flags.translate,
        h.worth,
        !translate_exit_in(h.low),
    ensures
        st.target.len() > 0 && st.target != "auto"@ ==> translate_step(st, ready, h) == (
            st,
            Some(ActionView::Translate { text: h.text, target: st.target }),
        ),
        st.target.len() == 0 || st.target == "auto"@ ==> translate_step(st, ready, h) == (
            st,
            Some(
                ActionView::Translate {
                    text: h.text,
                    target: if speaks_russian(h.text) {
                        "en"@
                    } else {
                        "ru"@
                    },
                },
            ),
        ),
{
    reveal(translate_step);
}

/// A request for translate mode that names no language turns it on, between Russian and English,
/// and says so in the language of the request. Without a key it only says what is missing.
pub proof fn translate_mode_is_entered(st: State, ready: bool, h: HeardView)
    requires
        !st.flags.translate,
        translate_enter_in(h.low),
    ensures
        ({
            let russian = speaks_russian(h.text);
            let (after, a) = translate_step(st, ready, h);
            &&& ready ==> after == (State {
                flags: Flags { translate: true, ..st.flags },
                target: "auto"@,
                ..st
            })
            &&& ready && russian ==> a == Some(
                ActionView::Reply(
                    ReplyView {
                        control: 0xFDu8,
                        words: Some(
                            "Режим перевода включён. Перевожу между русским и английским."@,
                        ),
                    },
                ),
            )
            &&& ready && !russian ==> a == Some(
                ActionView::Reply(
                    ReplyView {
                        control: 0xFDu8,
                        words: Some(
                            "Translate mode on. I'll translate between English and Russian."@,
                        ),
                    },
                ),
            )
            &&& !ready ==> after == st
            &&& !ready && russian ==> a == Some(
                ActionView::Reply(
                    ReplyView { control: 0xFFu8, words: Some("Ключ переводчика не задан."@) },
                ),
            )
            &&& !ready && !russian ==> a == Some(
                ActionView::Reply(
                    ReplyView { control: 0xFFu8, words: Some("Translation key is not set."@) },
                ),
            )
        }),
{
    reveal(translate_step);
}

/// A request for a mode turns on that mode and no other, starts it anew, keeps the device
/// listening and says so in the language of the request.
pub proof fn modes_are_entered(st: State, dir: Seq<char>, intro: Seq<char>, h: HeardView)
    ensures
        !st.flags.chat && chat_enter_in(h.low) ==> chat_step(st, dir, intro, h) == (
            st.with(Flags { chat: true, chat_started: false, ..st.flags }),
            Some(
                ActionView::Reply(
                    ReplyView {
                        control: 0xFDu8,
                        words: Some(
                            if speaks_russian(h.text) {
                                "Режим разговора включён. О чём поговорим?"@
                            } else {
                                "Chat mode on. What's on your mind?"@
                            },
                        ),
                    },
                ),
            ),
        ),
        !st.flags.hacker && hacker_enter_in(h.low) ==> hacker_step(st, h) == (
            st.with(Flags { hacker: true, ..st.flags }),
            Some(
                ActionView::Reply(
                    ReplyView {
                        control: 0xFDu8,
                        words: Some(
                            if speaks_russian(h.text) {
                                "Режим хакера активирован. Назови цель — что взламываем?"@
                            } else {
                                "Hacker mode activated. Name your target — what are we hacking?"@
                            },
                        ),
                    },
                ),
            ),
        ),
        !st.flags.coding && coding_enter_in(h.low) ==> coding_step(st, dir, intro, h) == (
            st.with(Flags { coding: true, coding_started: false, ..st.flags }),
            Some(
                ActionView::Reply(
                    ReplyView {
                        control: 0xFDu8,
                        words: Some("Coding mode on. Press the button for each command."@),
                    },
                ),
            ),
        ),
        !st.flags.chat && !chat_enter_in(h.low) ==> chat_step(st, dir, intro, h).1 is None,
        !st.flags.translate && !translate_enter_in(h.low) ==> forall|ready: bool|
            (#[trigger] translate_step(st, ready, h)).1 is None,
        !st.flags.hacker && !hacker_enter_in(h.low) ==> hacker_step(st, h).1 is None,
        !st.flags.coding && !coding_enter_in(h.low) ==> coding_step(st, dir, intro, h).1 is None,
{
    reveal(chat_step);
    reveal(translate_step);
    reveal(hacker_step);
    reveal(coding_step);
}

/// The exit phrase of a mode ends it, and it is said so in the language of the phrase.
pub proof fn modes_say_goodbye(
    st: State,
    dir: Seq<char>,
    intro: Seq<char>,
    ready: bool,
    h: HeardView,
)
    ensures
        ({
            let russian = speaks_russian(h.text);
            let said = |a: Option<ActionView>, ru: Seq<char>, en: Seq<char>|
                a == Some(
                    ActionView::Reply(
                        ReplyView {
                            control: 0xFFu8,
                            words: Some(
                                if russian {
                                    ru
                                } else {
                                    en
                                },
                            ),
                        },
                    ),
                );
            &&& st.flags.chat && chat_exit_in(h.low) ==> said(
                chat_step(st, dir, intro, h).1,
                "Вышла из режима разговора."@,
                "Exited chat mode."@,
            )
            &&& st.flags.translate && translate_exit_in(h.low) ==> said(
                translate_step(st, ready, h).1,
                "Выхожу из режима перевода."@,
                "Exiting translate mode."@,
            )
            &&& st.flags.hacker && hacker_exit_in(h.low) ==> said(
                hacker_step(st, h).1,
                "Выхожу из режима хакера."@,
                "Exiting hacker mode."@,
            )
            &&& st.flags.coding && coding_exit_in(h.low) ==> said(
                coding_step(st, dir, intro, h).1,
                "Exited coding mode."@,
                "Exited coding mode."@,
            )
        }),
{
    reveal(chat_step);
    reveal(translate_step);
    reveal(hacker_step);
    reveal(coding_step);
}

/// What is said in a mode, and is worth an answer, goes to the outside work of that mode word for
/// word, in the folder of the mode; the mode stays on and no other one is touched.
pub proof fn modes_hand_on_what_is_said(
    st: State,
    dir: Seq<char>,
    intro: Seq<char>,
    h: HeardView,
)
    requires
        h.worth,
    ensures
        st.flags.chat && !chat_exit_in(h.low) ==> {
            let (after, a) = chat_step(st, dir, intro, h);
            &&& after == st.with(Flags { chat_started: true, ..st.flags })
            &&& a matches Some(ActionView::Chat(c)) && c.dir == dir && ends_with_text(
                c.prompt,
                h.text,
            ) && c.args.contains("--continue"@) == st.flags.chat_started
        },
        st.flags.coding && !coding_exit_in(h.low) ==> {
            let (after, a) = coding_step(st, dir, intro, h);
            &&& after == st.with(Flags { coding_started: true, ..st.flags })
            &&& a matches Some(ActionView::Code(c)) && c.dir == dir && ends_with_text(
                c.prompt,
                h.text,
            ) && c.args.contains("--continue"@) == st.flags.coding_started
        },
        st.flags.hacker && !hacker_exit_in(h.low) ==> {
            let (after, a) = hacker_step(st, h);
            &&& after == st
            &&& a matches Some(ActionView::Hack { system, user }) && user == h.text && system
                == HACKER_ROLE@ + (if speaks_russian(h.text) {
                "Russian"@
            } else {
                "English"@
            }) + HACKER_RULES@
        },
{
    reveal(chat_step);
    reveal(hacker_step);
    reveal(coding_step);
    calls_hand_on_what_is_said(h.text, dir, st.flags.chat_started, intro);
    calls_hand_on_what_is_said(h.text, dir, st.flags.coding_started, intro);
}

/// What the outside work answers is what is spoken, cleaned; only where nothing is left of it does
/// the mode say something of its own.
pub proof fn answers_are_spoken(russian: bool, text: Seq<char>, answer: Seq<char>)
    ensures
        spoken(answer).len() > 0 ==> chat_spoken(russian, answer).words == Some(spoken(answer))
            && report_spoken(russian, answer).words == Some(spoken(answer))
            && coding_spoken(answer).words == Some(spoken(answer)),
        spoken(answer).len() == 0 ==> coding_spoken(answer).words == Some("Done."@)
            && chat_spoken(true, answer).words == Some("Слушаю."@)
            && chat_spoken(false, answer).words == Some("Go on."@)
            && report_spoken(true, answer).words == Some("Цель взломана. Все данные у нас."@)
            && report_spoken(false, answer).words == Some(
            "Target hacked. All their data is ours."@,
        ),
        trim(answer).len() > 0 ==> translation_spoken(text, answer).words == Some(answer),
        trim(answer).len() == 0 ==> translation_spoken(text, answer).words == Some(text),
{
}

} // verus!
