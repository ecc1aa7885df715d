//! Live dictation: where a finished phrase goes, and as which keys.

use vstd::prelude::*;
use crate::phrases::{
    field_in, joined_up_in, keys_in, names_joined, names_keys, names_newline, names_paste,
    names_settings, names_space, newline_in, paste_in, settings_in, space_in, typing_off_heard, typing_off_in,
    typing_on_heard, typing_on_in,
};
use crate::speech::{is_meaningful_transcript, meaningful};
use crate::text::{
    chars_of, join_first, joined, lower, lower_all, lowered, opt_text, same, strip_tail, texts,
    trim, trim_end, trim_has_no_outer_space, trim_is_idempotent, trimmed, trimmed_right, white_space,
    without_tail, words, words_of,
};

verus! {

// ---------------------------------------------------------------- settings

/// What stands between two dictated phrases.
#[derive(Clone, Copy, PartialEq, Eq, Structural)]
pub enum Separator {
    Space,
    NewLine,
    Joined,
}

/// How a phrase reaches the focused field.
#[derive(Clone, Copy, PartialEq, Eq, Structural)]
pub enum Method {
    /// By the clipboard and Ctrl+V.
    Paste,
    /// By key strokes.
    Keys,
}

/// The state of live dictation.
#[derive(Clone, Copy, PartialEq, Eq, Structural)]
pub struct Dictation {
    /// Phrases go into the focused field, not only to the clipboard.
    pub typing: bool,
    pub separator: Separator,
    pub method: Method,
    /// A phrase of this session was delivered; the next one gets a separator before it.
    pub started: bool,
}

/// Starts a new session: its first phrase gets no separator.
pub fn start_session(d: &mut Dictation)
    ensures
        *final(d) == (Dictation { started: false, ..*old(d) }),
{
    d.started = false;
}

/// What a settings command does: the new state and the words that confirm it. The lowered
/// text is `low`. The separator and the method are changed only by a phrase about
/// transcription.
#[verifier::opaque]
pub open spec fn settings_step(d: Dictation, low: Seq<char>) -> (Dictation, Option<Seq<char>>) {
    if settings_in(low) && newline_in(low) {
        (
            Dictation { separator: Separator::NewLine, ..d },
            Some("Готово, каждая фраза с новой строки."@),
        )
    } else if settings_in(low) && space_in(low) {
        (Dictation { separator: Separator::Space, ..d }, Some("Готово, фразы через пробел."@))
    } else if settings_in(low) && joined_up_in(low) {
        (Dictation { separator: Separator::Joined, ..d }, Some("Готово, без разделителя."@))
    } else if settings_in(low) && paste_in(low) {
        (Dictation { method: Method::Paste, ..d }, Some("Готово, вставка через Ctrl+V."@))
    } else if settings_in(low) && keys_in(low) {
        (Dictation { method: Method::Keys, ..d }, Some("Готово, набор клавишами."@))
    } else if typing_off_in(low) {
        (Dictation { typing: false, ..d }, Some("Печать в поле выключена."@))
    } else if typing_on_in(low) {
        (Dictation { typing: true, ..d }, Some("Печать в поле включена."@))
    } else {
        (d, None)
    }
}

/// Applies a spoken settings command to the state; gives the words that confirm it, or none
/// where the lowered text `low` is no such command.
pub fn transcribe_settings_step(d: &mut Dictation, low: &str) -> (r: Option<String>)
    ensures
        (*final(d), opt_text(r)) == settings_step(*old(d), low@),
{
    proof {
        reveal(settings_step);
    }
    if names_settings(low) {
        if names_newline(low) {
            d.separator = Separator::NewLine;
            return Some("Готово, каждая фраза с новой строки.".to_owned());
        }
        if names_space(low) {
            d.separator = Separator::Space;
            return Some("Готово, фразы через пробел.".to_owned());
        }
        if names_joined(low) {
            d.separator = Separator::Joined;
            return Some("Готово, без разделителя.".to_owned());
        }
        if names_paste(low) {
            d.method = Method::Paste;
            return Some("Готово, вставка через Ctrl+V.".to_owned());
        }
        if names_keys(low) {
            d.method = Method::Keys;
            return Some("Готово, набор клавишами.".to_owned());
        }
    }
    if typing_off_heard(low) {
        d.typing = false;
        return Some("Печать в поле выключена.".to_owned());
    }
    if typing_on_heard(low) {
        d.typing = true;
        return Some("Печать в поле включена.".to_owned());
    }
    None
}

/// A settings command never touches the running session, and one that is not recognized
/// changes nothing.
pub proof fn settings_keep_session(d: Dictation, low: Seq<char>)
    ensures
        settings_step(d, low).0.started == d.started,
        settings_step(d, low).1 is None ==> settings_step(d, low).0 == d,
{
    reveal(settings_step);
}

// ---------------------------------------------------------------- the spoken Enter

/// The word for the Enter key, as recognition writes it.
pub open spec fn enter_word(w: Seq<char>) -> bool {
    w == "enter"@ || w == "энтер"@ || w == "ентер"@
}

/// A verb that may stand before the word for the Enter key.
pub open spec fn press_word(w: Seq<char>) -> bool {
    w == "нажать"@ || w == "нажми"@ || w == "назад"@ || w == "press"@
}

/// A verb that asks for the Enter key on its own.
pub open spec fn press_alone(w: Seq<char>) -> bool {
    w == "нажать"@ || w == "нажми"@ || w == "press"@
}

/// How many words at the end of a phrase ask for the Enter key, given its words in lower
/// case: verb and key, the key alone, or the verb alone.
pub open spec fn enter_words(low: Seq<Seq<char>>) -> nat {
    let n = low.len();
    if n >= 2 && enter_word(low[n - 1]) && press_word(low[n - 2]) {
        2
    } else if n >= 1 && (enter_word(low[n - 1]) || press_alone(low[n - 1])) {
        1
    } else {
        0
    }
}

fn is_enter(w: &str) -> (b: bool)
    ensures
        b == enter_word(w@),
{
    same(w, "enter") || same(w, "энтер") || same(w, "ентер")
}

fn is_press(w: &str) -> (b: bool)
    ensures
        b == press_word(w@),
{
    same(w, "нажать") || same(w, "нажми") || same(w, "назад") || same(w, "press")
}

fn is_press_alone(w: &str) -> (b: bool)
    ensures
        b == press_alone(w@),
{
    same(w, "нажать") || same(w, "нажми") || same(w, "press")
}

/// How many words at the end of a phrase ask for the Enter key, given its words in lower
/// case.
pub fn count_enter_words(low: &Vec<String>) -> (k: usize)
    ensures
        k == enter_words(texts(low@)),
        k <= low@.len(),
{
    let n: usize = low.len();
    assert(texts(low@).len() == n);
    if n >= 2 && is_enter(low[n - 1].as_str()) && is_press(low[n - 2].as_str()) {
        2
    } else if n >= 1 && (is_enter(low[n - 1].as_str()) || is_press_alone(low[n - 1].as_str())) {
        1
    } else {
        0
    }
}

// ---------------------------------------------------------------- delivering a phrase

/// `s` without the periods at its end.
pub open spec fn without_periods(s: Seq<char>) -> Seq<char>
    decreases s.len(),
{
    if s.len() > 0 && s.last() == '.' {
        without_periods(s.drop_last())
    } else {
        s
    }
}

/// A phrase as it is delivered: on lines of their own phrases end without a period.
pub open spec fn tidied(s: Seq<char>, separator: Separator) -> Seq<char> {
    match separator {
        Separator::NewLine => trim_end(without_periods(s)),
        _ => s,
    }
}

/// What stands before a phrase: nothing before the first one of a session, and else the
/// separator.
pub open spec fn prefix(d: Dictation) -> Seq<char> {
    if !d.started {
        Seq::empty()
    } else {
        match d.separator {
            Separator::NewLine => "\n"@,
            Separator::Joined => Seq::empty(),
            Separator::Space => " "@,
        }
    }
}

/// What to do with a finished phrase.
pub enum Delivery {
    /// Nothing.
    Nothing,
    /// Put the text on the clipboard.
    Copy { text: String },
    /// Type the text, put it on the clipboard, then press Enter.
    Submit { text: String },
    /// Type `payload`, and put the text on the clipboard.
    Type { payload: String, text: String },
    /// Put `payload` on the clipboard and press Ctrl+V.
    Paste { payload: String },
}

/// The value of a `Delivery`.
#[verifier::ext_equal]
pub enum DeliveryView {
    Nothing,
    Copy { text: Seq<char> },
    Submit { text: Seq<char> },
    Type { payload: Seq<char>, text: Seq<char> },
    Paste { payload: Seq<char> },
}

impl View for Delivery {
    type V = DeliveryView;

    open spec fn view(&self) -> DeliveryView {
        match self {
            Delivery::Nothing => DeliveryView::Nothing,
            Delivery::Copy { text } => DeliveryView::Copy { text: text@ },
            Delivery::Submit { text } => DeliveryView::Submit { text: text@ },
            Delivery::Type { payload, text } => DeliveryView::Type {
                payload: payload@,
                text: text@,
            },
            Delivery::Paste { payload } => DeliveryView::Paste { payload: payload@ },
        }
    }
}

/// What is done with the phrase `text`, and the state after it. `enter` says that the phrase
/// asked for the Enter key; its command words are no longer in `text`.
pub open spec fn delivered(
    d: Dictation,
    text: Seq<char>,
    enter: bool,
) -> (Dictation, DeliveryView) {
    let text = tidied(text, d.separator);
    if text.len() == 0 && !enter {
        (d, DeliveryView::Nothing)
    } else if !d.typing {
        (
            d,
            if text.len() == 0 {
                DeliveryView::Nothing
            } else {
                DeliveryView::Copy { text }
            },
        )
    } else if enter {
        (Dictation { started: false, ..d }, DeliveryView::Submit { text })
    } else {
        (
            Dictation { started: true, ..d },
            match d.method {
                Method::Keys => DeliveryView::Type { payload: prefix(d) + text, text },
                Method::Paste => DeliveryView::Paste { payload: prefix(d) + text },
            },
        )
    }
}

/// What is done with a phrase of the given words; `low` are the words in lower case, and
/// `whole` is the phrase.
pub open spec fn delivered_words(
    d: Dictation,
    whole: Seq<char>,
    said: Seq<Seq<char>>,
    low: Seq<Seq<char>>,
) -> (Dictation, DeliveryView) {
    let k = enter_words(low);
    if k == 0 {
        delivered(d, whole, false)
    } else {
        delivered(d, joined(said.take(said.len() - k), " "@), true)
    }
}

/// What is done with a transcript.
pub open spec fn delivered_text(d: Dictation, t: Seq<char>) -> (Dictation, DeliveryView) {
    let whole = trim(t);
    let said = words(strip_tail(whole));
    delivered_words(d, whole, said, lowered(said))
}

/// Takes the periods off the end of `s`.
fn drop_periods(s: &str) -> (r: String)
    ensures
        r@ == without_periods(s@),
{
    let v: Vec<char> = chars_of(s);
    let mut n: usize = v.len();
    assert(s@.take(n as int) == s@);
    while n > 0 && v[n - 1] == '.'
        invariant
            0 <= n <= v@.len(),
            v@ == s@,
            without_periods(s@) == without_periods(s@.take(n as int)),
        decreases n,
    {
        n -= 1;
        assert(s@.take(n + 1).drop_last() == s@.take(n as int));
    }
    assert(s@.take(n as int) == s@.subrange(0, n as int));
    s.substring_char(0, n).to_owned()
}

/// Plans what to do with a phrase, and keeps account of the session.
pub fn plan_delivery(d: &mut Dictation, text: String, enter: bool) -> (r: Delivery)
    ensures
        (*final(d), r@) == delivered(*old(d), text@, enter),
{
    let text: String = match d.separator {
        Separator::NewLine => trimmed_right(drop_periods(text.as_str()).as_str()),
        _ => text,
    };
    let empty: bool = text.as_str().is_empty();
    if empty && !enter {
        return Delivery::Nothing;
    }
    if !d.typing {
        if empty {
            return Delivery::Nothing;
        }
        return Delivery::Copy { text };
    }
    if enter {
        d.started = false;
        return Delivery::Submit { text };
    }
    let mut payload: String = String::new();
    if d.started {
        match d.separator {
            Separator::NewLine => {
                payload.append("\n");
            },
            Separator::Joined => {},
            Separator::Space => {
                payload.append(" ");
            },
        }
    }
    assert(payload@ =~= prefix(*d));
    payload.append(text.as_str());
    d.started = true;
    match d.method {
        Method::Keys => Delivery::Type { payload, text },
        Method::Paste => Delivery::Paste { payload },
    }
}

/// `deliver_transcript` on the words of a phrase: `whole` is the phrase, `said` are its words
/// and `low` the same words in lower case.
pub fn deliver_words(
    d: &mut Dictation,
    whole: String,
    said: &Vec<String>,
    low: &Vec<String>,
) -> (r: Delivery)
    requires
        said@.len() == low@.len(),
    ensures
        (*final(d), r@) == delivered_words(*old(d), whole@, texts(said@), texts(low@)),
{
    let k: usize = count_enter_words(low);
    if k == 0 {
        plan_delivery(d, whole, false)
    } else {
        plan_delivery(d, join_first(said, said.len() - k, " "), true)
    }
}

/// Decides where a transcript goes. A phrase that ends with the spoken command for the Enter
/// key is typed without the command words and submitted; any other phrase is delivered by
/// the chosen method, with the separator before it.
pub fn deliver_transcript(d: &mut Dictation, text: &str) -> (r: Delivery)
    ensures
        (*final(d), r@) == delivered_text(*old(d), text@),
{
    let whole: String = trimmed(text);
    let stem: String = without_tail(whole.as_str());
    let said: Vec<String> = words_of(stem.as_str());
    let low: Vec<String> = lower_all(&said);
    assert(texts(said@).len() == said@.len());
    assert(texts(low@).len() == low@.len());
    deliver_words(d, whole, &said, &low)
}

/// What is done with a finished segment: the state after it, the line to print and the delivery.
pub open spec fn printed(d: Dictation, t: Seq<char>) -> (Dictation, Option<
    (Seq<char>, DeliveryView),
>) {
    if meaningful(trim(t)) {
        let (after, delivery) = delivered_text(d, trim(t));
        (after, Some((trim(t), delivery)))
    } else {
        (d, None)
    }
}

/// The value of an optional line with its delivery.
pub open spec fn printed_view(r: Option<(String, Delivery)>) -> Option<(Seq<char>, DeliveryView)> {
    match r {
        Some((line, delivery)) => Some((line@, delivery@)),
        None => None,
    }
}

/// The line to print for a finished segment and what to do with it; nothing for silence and
/// junk.
pub fn print_transcript(d: &mut Dictation, text: &str) -> (r: Option<(String, Delivery)>)
    ensures
        match r {
            Some((line, delivery)) => meaningful(trim(text@)) && line@ == trim(text@) && (
            *final(d), delivery@) == delivered_text(*old(d), trim(text@)),
            None => !meaningful(trim(text@)) && *final(d) == *old(d),
        },
        (*final(d), printed_view(r)) == printed(*old(d), text@),
{
    let line: String = trimmed(text);
    if !is_meaningful_transcript(line.as_str()) {
        return None;
    }
    let delivery: Delivery = deliver_transcript(d, line.as_str());
    Some((line, delivery))
}

/// Dictating keeps the settings, and while phrases go to the clipboard alone it keeps the
/// whole state.
pub proof fn delivery_keeps_settings(d: Dictation, t: Seq<char>)
    ensures
        ({
            let after = delivered_text(d, t).0;
            &&& after.typing == d.typing
            &&& after.separator == d.separator
            &&& after.method == d.method
            &&& !d.typing ==> after == d
        }),
{
}

/// The first phrase of a session gets no separator, and neither does the first one after a
/// submitted phrase.
pub proof fn first_phrase_stands_alone(d: Dictation, t: Seq<char>, u: Seq<char>)
    requires
        d.typing,
        delivered(d, t, true).1 is Submit,
    ensures
        prefix(delivered(d, t, true).0) == Seq::<char>::empty(),
        delivered(delivered(d, t, true).0, u, false).1 matches DeliveryView::Paste { payload }
            ==> payload == tidied(u, d.separator),
{
    let e = Seq::<char>::empty();
    assert(e + tidied(u, d.separator) =~= tidied(u, d.separator));
}

/// Every phrase after the first one of a session gets the separator before it.
pub proof fn later_phrases_are_separated(d: Dictation, t: Seq<char>, u: Seq<char>)
    requires
        d.typing,
        tidied(t, d.separator).len() > 0,
        tidied(u, d.separator).len() > 0,
    ensures
        ({
            let first = delivered(d, t, false);
            let second = delivered(first.0, u, false);
            let payload = prefix(first.0) + tidied(u, d.separator);
            &&& first.0.started
            &&& prefix(first.0) == (match d.separator {
                Separator::NewLine => "\n"@,
                Separator::Joined => Seq::empty(),
                Separator::Space => " "@,
            })
            &&& d.method == Method::Paste ==> second.1 == DeliveryView::Paste { payload }
            &&& d.method == Method::Keys ==> second.1 == DeliveryView::Type {
                payload,
                text: tidied(u, d.separator),
            }
        }),
{
}

/// A phrase on a line of its own does not end with a period.
pub proof fn lines_end_without_period(s: Seq<char>)
    ensures
        without_periods(s).len() > 0 ==> without_periods(s).last() != '.',
    decreases s.len(),
{
    if s.len() > 0 && s.last() == '.' {
        lines_end_without_period(s.drop_last());
    }
}

// ---------------------------------------------------------------- keys

/// Virtual key codes.
pub const VK_RETURN: u16 = 0x0D;

pub const VK_SHIFT: u16 = 0x10;

pub const VK_CONTROL: u16 = 0x11;

pub const VK_V: u16 = 0x56;

/// A key, named by its virtual key code or by the code unit that it types.
#[derive(Clone, Copy, PartialEq, Eq, Structural)]
pub enum Key {
    Virtual(u16),
    Unit(u16),
}

/// A key that goes down or up.
#[derive(Clone, Copy, PartialEq, Eq, Structural)]
pub struct KeyEvent {
    pub key: Key,
    pub up: bool,
}

/// `key` goes down and up again.
pub open spec fn stroke(key: Key) -> Seq<KeyEvent> {
    seq![KeyEvent { key, up: false }, KeyEvent { key, up: true }]
}

/// `key` goes down and up while `with` is held.
pub open spec fn chord(with: Key, key: Key) -> Seq<KeyEvent> {
    seq![
        KeyEvent { key: with, up: false },
        KeyEvent { key, up: false },
        KeyEvent { key, up: true },
        KeyEvent { key: with, up: true },
    ]
}

/// The UTF-16 code units of a character.
pub open spec fn utf16(c: char) -> Seq<u16> {
    let u = c as u32;
    if u < 0x1_0000 {
        seq![u as u16]
    } else {
        seq![(0xD800 + (u - 0x1_0000) / 0x400) as u16, (0xDC00 + (u - 0x1_0000) % 0x400) as u16]
    }
}

/// The keys that type a code unit. A line break is Shift+Enter, which starts a new line
/// without submitting the field.
pub open spec fn unit_keys(u: u16) -> Seq<KeyEvent> {
    if u == 0x0A || u == 0x0D {
        chord(Key::Virtual(VK_SHIFT), Key::Virtual(VK_RETURN))
    } else {
        stroke(Key::Unit(u))
    }
}

/// The keys that type a list of code units.
pub open spec fn units_keys(u: Seq<u16>) -> Seq<KeyEvent>
    decreases u.len(),
{
    if u.len() == 0 {
        Seq::empty()
    } else {
        units_keys(u.drop_last()) + unit_keys(u.last())
    }
}

/// The UTF-16 code units of a text.
pub open spec fn units_of(t: Seq<char>) -> Seq<u16>
    decreases t.len(),
{
    if t.len() == 0 {
        Seq::empty()
    } else {
        units_of(t.drop_last()) + utf16(t.last())
    }
}

fn push_stroke(v: &mut Vec<KeyEvent>, key: Key)
    ensures
        final(v)@ == old(v)@ + stroke(key),
{
    v.push(KeyEvent { key, up: false });
    v.push(KeyEvent { key, up: true });
    assert(v@ =~= old(v)@ + stroke(key));
}

fn push_chord(v: &mut Vec<KeyEvent>, with: Key, key: Key)
    ensures
        final(v)@ == old(v)@ + chord(with, key),
{
    v.push(KeyEvent { key: with, up: false });
    v.push(KeyEvent { key, up: false });
    v.push(KeyEvent { key, up: true });
    v.push(KeyEvent { key: with, up: true });
    assert(v@ =~= old(v)@ + chord(with, key));
}

fn push_units(r: &mut Vec<u16>, c: char)
    ensures
        final(r)@ == old(r)@ + utf16(c),
{
    let u: u32 = c as u32;
    if u < 0x1_0000 {
        r.push(u as u16);
    } else {
        let v: u32 = u - 0x1_0000;
        r.push((0xD800 + v / 0x400) as u16);
        r.push((0xDC00 + v % 0x400) as u16);
    }
    assert(r@ =~= old(r)@ + utf16(c));
}

/// The UTF-16 code units of a text.
pub fn utf16_units(text: &str) -> (r: Vec<u16>)
    ensures
        r@ == units_of(text@),
{
    let mut r: Vec<u16> = Vec::new();
    for c in it: text.chars()
        invariant
            it.seq() == text@,
            r@ == units_of(text@.take(it.index() as int)),
    {
        assert(text@.take(it.index() + 1).drop_last() == text@.take(it.index() as int));
        assert(text@.take(it.index() + 1).last() == c);
        push_units(&mut r, c);
    }
    assert(text@.take(text@.len() as int) == text@);
    r
}

/// The keys that type a text into the focused field.
pub fn type_into_focus(text: &str) -> (r: Vec<KeyEvent>)
    ensures
        r@ == units_keys(units_of(text@)),
{
    let units: Vec<u16> = utf16_units(text);
    let mut r: Vec<KeyEvent> = Vec::new();
    let mut i: usize = 0;
    while i < units.len()
        invariant
            0 <= i <= units@.len(),
            r@ == units_keys(units@.take(i as int)),
        decreases units@.len() - i,
    {
        assert(units@.take(i + 1).drop_last() == units@.take(i as int));
        let u: u16 = units[i];
        if u == 0x0A || u == 0x0D {
            push_chord(&mut r, Key::Virtual(VK_SHIFT), Key::Virtual(VK_RETURN));
        } else {
            push_stroke(&mut r, Key::Unit(u));
        }
        i += 1;
    }
    assert(units@.take(i as int) == units@);
    r
}

/// The keys that press Enter.
pub fn send_enter() -> (r: Vec<KeyEvent>)
    ensures
        r@ == stroke(Key::Virtual(VK_RETURN)),
{
    let mut r: Vec<KeyEvent> = Vec::new();
    push_stroke(&mut r, Key::Virtual(VK_RETURN));
    assert(r@ =~= stroke(Key::Virtual(VK_RETURN)));
    r
}

/// The keys that press Ctrl+V.
pub fn send_ctrl_v() -> (r: Vec<KeyEvent>)
    ensures
        r@ == chord(Key::Virtual(VK_CONTROL), Key::Virtual(VK_V)),
{
    let mut r: Vec<KeyEvent> = Vec::new();
    push_chord(&mut r, Key::Virtual(VK_CONTROL), Key::Virtual(VK_V));
    assert(r@ =~= chord(Key::Virtual(VK_CONTROL), Key::Virtual(VK_V)));
    r
}

/// The keys that are held after a list of events, the one pressed last at the end; nothing
/// where a key goes up that is not the one pressed last.
pub open spec fn held(e: Seq<KeyEvent>) -> Option<Seq<Key>>
    decreases e.len(),
{
    if e.len() == 0 {
        Some(Seq::empty())
    } else {
        match held(e.drop_last()) {
            Some(h) => if !e.last().up {
                Some(h.push(e.last().key))
            } else if h.len() > 0 && h.last() == e.last().key {
                Some(h.drop_last())
            } else {
                None
            },
            None => None,
        }
    }
}

proof fn stroke_releases(e: Seq<KeyEvent>, key: Key)
    requires
        held(e) is Some,
    ensures
        held(e + stroke(key)) == held(e),
{
    let a = e.push(KeyEvent { key, up: false });
    let b = a.push(KeyEvent { key, up: true });
    assert(e + stroke(key) =~= b);
    assert(a.drop_last() =~= e);
    assert(b.drop_last() =~= a);
    assert(held(a) == Some(held(e)->0.push(key)));
    assert(held(e)->0.push(key).drop_last() =~= held(e)->0);
}

proof fn chord_releases(e: Seq<KeyEvent>, with: Key, key: Key)
    requires
        held(e) is Some,
    ensures
        held(e + chord(with, key)) == held(e),
{
    let a = e.push(KeyEvent { key: with, up: false });
    assert(a.drop_last() =~= e);
    assert(held(a) == Some(held(e)->0.push(with)));
    stroke_releases(a, key);
    let b = a + stroke(key);
    let c = b.push(KeyEvent { key: with, up: true });
    assert(c.drop_last() =~= b);
    assert(e + chord(with, key) =~= c);
    assert(held(e)->0.push(with).drop_last() =~= held(e)->0);
}

/// Typing a text leaves no key pressed, and no key goes up before one that was pressed after
/// it.
pub proof fn typing_releases_all_keys(u: Seq<u16>)
    ensures
        held(units_keys(u)) == Some(Seq::<Key>::empty()),
    decreases u.len(),
{
    if u.len() > 0 {
        typing_releases_all_keys(u.drop_last());
        let before = units_keys(u.drop_last());
        if u.last() == 0x0A || u.last() == 0x0D {
            chord_releases(before, Key::Virtual(VK_SHIFT), Key::Virtual(VK_RETURN));
        } else {
            stroke_releases(before, Key::Unit(u.last()));
        }
    }
}

/// Enter and Ctrl+V leave no key pressed.
pub proof fn shortcuts_release_all_keys()
    ensures
        held(stroke(Key::Virtual(VK_RETURN))) == Some(Seq::<Key>::empty()),
        held(chord(Key::Virtual(VK_CONTROL), Key::Virtual(VK_V))) == Some(Seq::<Key>::empty()),
{
    let e = Seq::<KeyEvent>::empty();
    stroke_releases(e, Key::Virtual(VK_RETURN));
    chord_releases(e, Key::Virtual(VK_CONTROL), Key::Virtual(VK_V));
    assert(e + stroke(Key::Virtual(VK_RETURN)) =~= stroke(Key::Virtual(VK_RETURN)));
    assert(e + chord(Key::Virtual(VK_CONTROL), Key::Virtual(VK_V)) =~= chord(
        Key::Virtual(VK_CONTROL),
        Key::Virtual(VK_V),
    ));
}

// ---------------------------------------------------------------- laws of settings

/// A phrase about transcription changes the one setting that it names, confirms it and keeps the
/// others. Where it names several, the new line comes before the space, the space before no
/// separator, and the separator before the way of delivery.
pub proof fn settings_are_set(d: Dictation, low: Seq<char>)
    requires
        settings_in(low),
    ensures
        ({
            let (after, words) = settings_step(d, low);
            let line = newline_in(low);
            let space = space_in(low) && !line;
            let joined_up = joined_up_in(low) && !line && !space_in(low);
            let separator = line || space || joined_up;
            let paste = paste_in(low) && !separator;
            let keys = keys_in(low) && !separator && !paste_in(low);
            &&& line ==> after == (Dictation { separator: Separator::NewLine, ..d }) && words
                == Some("Готово, каждая фраза с новой строки."@)
            &&& space ==> after == (Dictation { separator: Separator::Space, ..d }) && words
                == Some("Готово, фразы через пробел."@)
            &&& joined_up ==> after == (Dictation { separator: Separator::Joined, ..d }) && words
                == Some("Готово, без разделителя."@)
            &&& paste ==> after == (Dictation { method: Method::Paste, ..d }) && words == Some(
                "Готово, вставка через Ctrl+V."@,
            )
            &&& keys ==> after == (Dictation { method: Method::Keys, ..d }) && words == Some(
                "Готово, набор клавишами."@,
            )
        }),
{
    reveal(settings_step);
}

/// A phrase that names the field, and no other setting, switches live dictation: off where it
/// holds a word for stopping, and else on. A phrase that names neither is no settings command.
pub proof fn typing_is_switched(d: Dictation, low: Seq<char>)
    requires
        !settings_in(low) || !(newline_in(low) || space_in(low) || joined_up_in(low) || paste_in(
            low,
        ) || keys_in(low)),
    ensures
        typing_off_in(low) ==> settings_step(d, low) == (
            Dictation { typing: false, ..d },
            Some("Печать в поле выключена."@),
        ),
        field_in(low) && !typing_off_in(low) ==> settings_step(d, low) == (
            Dictation { typing: true, ..d },
            Some("Печать в поле включена."@),
        ),
        !field_in(low) ==> settings_step(d, low) == (d, None::<Seq<char>>),
{
    reveal(settings_step);
}

// ---------------------------------------------------------------- laws of delivery

/// The words of a phrase, without the punctuation at its end.
pub open spec fn phrase_words(t: Seq<char>) -> Seq<Seq<char>> {
    words(strip_tail(trim(t)))
}

/// The last word of a phrase is the name of the Enter key, or a verb for pressing it.
pub open spec fn ends_with_enter(t: Seq<char>) -> bool {
    let said = phrase_words(t);
    said.len() > 0 && {
        let w = lower(said.last());
        w == "enter"@ || w == "энтер"@ || w == "ентер"@ || w == "нажать"@ || w == "нажми"@ || w
            == "press"@
    }
}

/// While live dictation is on, every phrase that does not end with the spoken Enter is delivered
/// whole, by the chosen method, with the separator before it where a phrase of the session came
/// before. With a new line between phrases, a phrase that ends with a period loses it.
pub proof fn phrase_is_delivered_whole(d: Dictation, t: Seq<char>)
    requires
        d.typing,
        !ends_with_enter(t),
        trim(t).len() > 0,
        d.separator == Separator::NewLine ==> trim(t).last() != '.',
    ensures
        ({
            let (after, delivery) = delivered_text(d, t);
            let before = if !d.started || d.separator == Separator::Joined {
                Seq::<char>::empty()
            } else if d.separator == Separator::NewLine {
                "\n"@
            } else {
                " "@
            };
            &&& after == (Dictation { started: true, ..d })
            &&& d.method == Method::Paste ==> delivery == DeliveryView::Paste {
                payload: before + trim(t),
            }
            &&& d.method == Method::Keys ==> delivery == DeliveryView::Type {
                payload: before + trim(t),
                text: trim(t),
            }
        }),
{
    let said = phrase_words(t);
    if said.len() > 0 {
        assert(lowered(said)[said.len() - 1] == lower(said.last()));
    }
    assert(enter_words(lowered(said)) == 0);
    trim_has_no_outer_space(t);
    assert(tidied(trim(t), d.separator) == trim(t));
}

/// In a fresh session the delivered text is the phrase itself, and nothing else.
pub proof fn fresh_phrase_is_pasted_as_it_is(d: Dictation, t: Seq<char>)
    requires
        d.typing && !d.started && d.method == Method::Paste,
        !ends_with_enter(t),
        trim(t).len() > 0,
        d.separator == Separator::NewLine ==> trim(t).last() != '.',
    ensures
        delivered_text(d, t).1 == (DeliveryView::Paste { payload: trim(t) }),
{
    phrase_is_delivered_whole(d, t);
    let e = Seq::<char>::empty();
    assert(e + trim(t) =~= trim(t));
}

/// With a new line between phrases the periods at the end of a phrase are left out, and with any
/// other separator they stay.
pub proof fn periods_end_lines(s: Seq<char>, n: nat)
    requires
        s.len() > 0 && s.last() != '.' && !white_space(s.last()),
    ensures
        tidied(s + dots(n), Separator::NewLine) == s,
        tidied(s + dots(n), Separator::Space) == s + dots(n),
        tidied(s + dots(n), Separator::Joined) == s + dots(n),
    decreases n,
{
    if n > 0 {
        let m = (n - 1) as nat;
        periods_end_lines(s, m);
        assert((s + dots(n)).drop_last() =~= s + dots(m));
        assert((s + dots(n)).last() == '.');
    } else {
        assert(s + dots(0) =~= s);
    }
}

/// `n` periods.
pub open spec fn dots(n: nat) -> Seq<char> {
    Seq::new(n, |i: int| '.')
}

/// While live dictation is off, a phrase goes to the clipboard alone, whole, and the session stays
/// as it was.
pub proof fn phrase_is_copied_whole(d: Dictation, t: Seq<char>)
    requires
        !d.typing,
        !ends_with_enter(t),
        trim(t).len() > 0,
        d.separator == Separator::NewLine ==> trim(t).last() != '.',
    ensures
        delivered_text(d, t) == (d, DeliveryView::Copy { text: trim(t) }),
{
    let said = phrase_words(t);
    if said.len() > 0 {
        assert(lowered(said)[said.len() - 1] == lower(said.last()));
    }
    assert(enter_words(lowered(said)) == 0);
    trim_has_no_outer_space(t);
    assert(tidied(trim(t), d.separator) == trim(t));
}

/// A phrase that ends with the spoken Enter is submitted: the words before the command are typed,
/// Enter is pressed, and the next phrase starts a new session. The command is the name of the key,
/// with or without a verb before it, or the verb alone.
pub proof fn spoken_enter_submits(d: Dictation, t: Seq<char>)
    requires
        d.typing,
        ends_with_enter(t),
    ensures
        ({
            let said = phrase_words(t);
            let n = said.len() as int;
            let w = lower(said.last());
            let key = w == "enter"@ || w == "энтер"@ || w == "ентер"@;
            let verb = n >= 2 && {
                let v = lower(said[n - 2]);
                v == "нажать"@ || v == "нажми"@ || v == "назад"@ || v == "press"@
            };
            let rest = joined(
                said.take(
                    if key && verb {
                        n - 2
                    } else {
                        n - 1
                    },
                ),
                " "@,
            );
            &&& delivered_text(d, t).0 == (Dictation { started: false, ..d })
            &&& d.separator != Separator::NewLine ==> delivered_text(d, t).1
                == (DeliveryView::Submit { text: rest })
            &&& delivered_text(d, t).1 matches DeliveryView::Submit { text } && text == tidied(
                rest,
                d.separator,
            )
        }),
{
    let said = phrase_words(t);
    let low = lowered(said);
    let n = said.len() as int;
    assert(low[n - 1] == lower(said.last()));
    if n >= 2 {
        assert(low[n - 2] == lower(said[n - 2]));
    }
    reveal_strlit("enter");
    reveal_strlit("энтер");
    reveal_strlit("ентер");
    reveal_strlit("нажать");
    reveal_strlit("нажми");
    reveal_strlit("press");
    assert("enter"@[0] == 'e' && "энтер"@[0] == 'э' && "ентер"@[0] == 'е' && "нажать"@[0] == 'н'
        && "нажми"@[0] == 'н' && "press"@[0] == 'p');
}

// ---------------------------------------------------------------- laws of keys

/// The code units that a list of key events types: a unit for every key of a unit that goes down,
/// and a line break for Enter while Shift alone is held.
pub open spec fn typed(e: Seq<KeyEvent>) -> Seq<u16>
    decreases e.len(),
{
    if e.len() == 0 {
        Seq::empty()
    } else {
        let before = typed(e.drop_last());
        if e.last().up {
            before
        } else {
            match e.last().key {
                Key::Unit(u) => before.push(u),
                Key::Virtual(k) => if k == 0x0D && held(e.drop_last()) == Some(
                    seq![Key::Virtual(0x10u16)],
                ) {
                    before.push(0x0Au16)
                } else {
                    before
                },
            }
        }
    }
}

/// `u` with a line feed for every carriage return.
pub open spec fn line_feeds(u: Seq<u16>) -> Seq<u16> {
    u.map_values(
        |x: u16|
            if x == 0x0D {
                0x0Au16
            } else {
                x
            },
    )
}

/// The keys type the text, unit by unit; a line break is Shift and Enter, which never submits the
/// field.
pub proof fn keys_type_the_text(u: Seq<u16>)
    ensures
        typed(units_keys(u)) == line_feeds(u),
    decreases u.len(),
{
    if u.len() == 0 {
        assert(line_feeds(u) =~= Seq::empty());
    } else {
        let d = u.drop_last();
        keys_type_the_text(d);
        typing_releases_all_keys(d);
        let before = units_keys(d);
        let x = u.last();
        assert(line_feeds(u) =~= line_feeds(d).push(
            if x == 0x0D {
                0x0Au16
            } else {
                x
            },
        ));
        if x == 0x0A || x == 0x0D {
            let shift = Key::Virtual(VK_SHIFT);
            let enter = Key::Virtual(VK_RETURN);
            let a = before.push(KeyEvent { key: shift, up: false });
            let b = a.push(KeyEvent { key: enter, up: false });
            let c = b.push(KeyEvent { key: enter, up: true });
            let e = c.push(KeyEvent { key: shift, up: true });
            assert(units_keys(u) =~= e);
            assert(a.drop_last() =~= before && b.drop_last() =~= a && c.drop_last() =~= b
                && e.drop_last() =~= c);
            assert(held(a) == Some(held(before)->0.push(shift)));
            assert(held(before)->0.push(shift) =~= seq![Key::Virtual(0x10u16)]);
            assert(typed(a) == typed(before));
            assert(typed(b) == typed(before).push(0x0Au16));
            assert(typed(c) == typed(b));
            assert(typed(e) == typed(c));
        } else {
            let a = before.push(KeyEvent { key: Key::Unit(x), up: false });
            let b = a.push(KeyEvent { key: Key::Unit(x), up: true });
            assert(units_keys(u) =~= b);
            assert(a.drop_last() =~= before && b.drop_last() =~= a);
            assert(typed(a) == typed(before).push(x));
        }
    }
}

/// The code units of a character spell it: one unit is the character, and two of them hold its
/// high and its low ten bits.
pub proof fn units_spell_the_character(c: char)
    ensures
        utf16(c).len() == 1 || utf16(c).len() == 2,
        utf16(c).len() == 1 ==> utf16(c)[0] as int == c as int,
        utf16(c).len() == 2 ==> 0xD800 <= utf16(c)[0] < 0xDC00 && 0xDC00 <= utf16(c)[1] < 0xE000
            && 0x1_0000 + 0x400 * (utf16(c)[0] - 0xD800) + (utf16(c)[1] - 0xDC00) == c as int,
{
}

/// The code units of a text are those of its characters, one after the other.
pub proof fn units_follow_the_text(a: Seq<char>, b: Seq<char>)
    ensures
        units_of(a + b) == units_of(a) + units_of(b),
        a.len() == 1 ==> units_of(a) == utf16(a[0]),
    decreases b.len(),
{
    if a.len() == 1 {
        assert(a.drop_last() =~= Seq::empty());
        assert(units_of(a.drop_last()) =~= Seq::empty());
        assert(units_of(a) =~= utf16(a[0]));
    }
    if b.len() == 0 {
        assert(a + b =~= a);
        assert(units_of(a) + units_of(b) =~= units_of(a));
    } else {
        units_follow_the_text(a, b.drop_last());
        assert((a + b).drop_last() =~= a + b.drop_last());
        assert(units_of(a + b) =~= units_of(a) + units_of(b));
    }
}

/// Ctrl+V is V while Ctrl is held, and Enter is pressed with no other key.
pub proof fn shortcuts_press_these_keys()
    ensures
        chord(Key::Virtual(VK_CONTROL), Key::Virtual(VK_V)) == seq![
            KeyEvent { key: Key::Virtual(0x11), up: false },
            KeyEvent { key: Key::Virtual(0x56), up: false },
            KeyEvent { key: Key::Virtual(0x56), up: true },
            KeyEvent { key: Key::Virtual(0x11), up: true },
        ],
        stroke(Key::Virtual(VK_RETURN)) == seq![
            KeyEvent { key: Key::Virtual(0x0D), up: false },
            KeyEvent { key: Key::Virtual(0x0D), up: true },
        ],
{
}

/// A finished segment that is worth keeping is printed and delivered, without the white space
/// around it; silence and junk are neither, and leave the session as it was.
pub proof fn segment_is_printed_and_delivered(d: Dictation, t: Seq<char>)
    ensures
        meaningful(t) ==> printed(d, t) == (
            delivered_text(d, t).0,
            Some((trim(t), delivered_text(d, t).1)),
        ),
        !meaningful(t) ==> printed(d, t) == (d, None::<(Seq<char>, DeliveryView)>),
        meaningful(t) && d.typing && !d.started && d.method == Method::Paste && !ends_with_enter(t)
            && d.separator != Separator::NewLine ==> printed(d, t).1 == Some(
            (trim(t), DeliveryView::Paste { payload: trim(t) }),
        ),
{
    trim_is_idempotent(t);
    if meaningful(t) && d.typing && !d.started && d.method == Method::Paste && !ends_with_enter(t)
        && d.separator != Separator::NewLine {
        fresh_phrase_is_pasted_as_it_is(d, t);
    }
}

/// While live dictation is off, the spoken Enter presses no key: the words before it go to the
/// clipboard, and a command alone does nothing. The session stays as it was.
pub proof fn spoken_enter_only_copies(d: Dictation, t: Seq<char>)
    requires
        !d.typing,
        ends_with_enter(t),
        d.separator != Separator::NewLine,
    ensures
        ({
            let said = phrase_words(t);
            let n = said.len() as int;
            let w = lower(said.last());
            let key = w == "enter"@ || w == "энтер"@ || w == "ентер"@;
            let verb = n >= 2 && {
                let v = lower(said[n - 2]);
                v == "нажать"@ || v == "нажми"@ || v == "назад"@ || v == "press"@
            };
            let rest = joined(
                said.take(
                    if key && verb {
                        n - 2
                    } else {
                        n - 1
                    },
                ),
                " "@,
            );
            &&& delivered_text(d, t).0 == d
            &&& rest.len() > 0 ==> delivered_text(d, t).1 == (DeliveryView::Copy { text: rest })
            &&& rest.len() == 0 ==> delivered_text(d, t).1 is Nothing
        }),
{
    let said = phrase_words(t);
    let low = lowered(said);
    let n = said.len() as int;
    assert(low[n - 1] == lower(said.last()));
    if n >= 2 {
        assert(low[n - 2] == lower(said[n - 2]));
    }
    reveal_strlit("enter");
    reveal_strlit("энтер");
    reveal_strlit("ентер");
    reveal_strlit("нажать");
    reveal_strlit("нажми");
    reveal_strlit("press");
    assert("enter"@[0] == 'e' && "энтер"@[0] == 'э' && "ентер"@[0] == 'е' && "нажать"@[0] == 'н'
        && "нажми"@[0] == 'н' && "press"@[0] == 'p');
}

} // verus!
